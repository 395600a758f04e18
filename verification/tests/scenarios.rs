use petrinet::Arc;
use petrinet::Petrinet;
use petrinet::Place;
use petrinet::Transition;

#[test]
fn it_works() {
    let mut places = vec![Place::new(1, "a")];
    let arc = Arc::new(0, 1).expect("weight greater than zero");

    let mut transition = Transition::new();
    transition.add_input(&arc);

    transition.fire(&mut places);
}

#[test]
fn test_transition_without_expression() {
    let mut places = vec![Place::new(2, "p1"), Place::new(2, "p2"), Place::new(0, "p3")];
    let (p1, p2, p3) = (0, 1, 2);

    let a1 = Arc::new(p1, 2).expect("weight greater than zero");
    let a2 = Arc::new(p2, 1).expect("weight greater than zero");
    let a3 = Arc::new(p3, 2).expect("weight greater than zero");

    let mut t = Transition::new();
    t.add_input(&a1);
    t.add_input(&a2);

    t.add_output(&a3);

    assert!(t.is_enabled(&places));

    t.fire(&mut places);

    assert_eq!(0, places[p1].tokens());
    assert_eq!(1, places[p2].tokens());
    assert_eq!(2, places[p3].tokens(), "number of tokens on place p3");

    assert!(
        !t.is_enabled(&places),
        "must not fire because input tokens are not sufficient anymore"
    );

    assert_eq!(0, places[p1].tokens());
    assert_eq!(1, places[p2].tokens());
    assert_eq!(2, places[p3].tokens(), "number of tokens on place p3");
}

#[test]
fn test_transition_with_expression() {
    let mut places = vec![Place::new(2, "p1"), Place::new(2, "p2"), Place::new(0, "p3")];
    let (p1, p2, p3) = (0, 1, 2);

    let a1 = Arc::new(p1, 2).expect("weight greater than zero");
    let a2 = Arc::new(p2, 1).expect("weight greater than zero");
    let a3 = Arc::new(p3, 2).expect("weight greater than zero");

    // with expression which evaluates to true
    let mut t = Transition::new_with_expression(|| true);
    t.add_input(&a1);
    t.add_input(&a2);

    t.add_output(&a3);

    assert!(
        t.is_enabled(&places),
        "must be enabled since transition expression is true"
    );

    t.fire(&mut places);

    assert_eq!(2, places[p3].tokens(), "number of tokens on place p3");

    let places = vec![Place::new(2, "p1"), Place::new(2, "p2"), Place::new(0, "p3")];

    let a1 = Arc::new(p1, 2).expect("weight greater than zero");
    let a2 = Arc::new(p2, 1).expect("weight greater than zero");
    let a3 = Arc::new(p3, 2).expect("weight greater than zero");

    // with expression which evaluates to false
    let mut t = Transition::new_with_expression(|| false);
    t.add_input(&a1);
    t.add_input(&a2);

    t.add_output(&a3);

    assert!(
        !t.is_enabled(&places),
        "must not be enabled since transition expression is false"
    );
}

#[test]
fn test_arc() {
    let places = vec![Place::new(2, "p")];
    let arc = Arc::new(0, 2).expect("weight greater than zero");
    assert!(arc.can_provide_required_tokens(&places));

    let places = vec![Place::new(1, "p")];
    let arc = Arc::new(0, 2).expect("weight greater than zero");
    assert!(!arc.can_provide_required_tokens(&places));

    let places = vec![Place::new(3, "p")];
    let arc = Arc::new(0, 2).expect("weight greater than zero");
    assert!(arc.can_provide_required_tokens(&places));

    let places = vec![Place::new(2, "")];
    assert_eq!(1, places.len());
    assert!(Arc::new(0, 0).is_err());
}

#[test]
fn test_petrinet() {
    let mut places = vec![Place::new(2, "P1"), Place::new(2, "P2"), Place::new(0, "P3")];
    let (p1, p2, p3) = (0, 1, 2);

    let a1 = Arc::new(p1, 2).expect("weight greater than zero");
    let a2 = Arc::new(p2, 1).expect("weight greater than zero");

    let a3 = Arc::new(p3, 2).expect("weight greater than zero");

    let mut t = Transition::new();
    t.add_input(&a1);
    t.add_input(&a2);

    t.add_output(&a3);

    let mut net = Petrinet::new();

    net.add_transition(t);

    net.step(&mut places);

    net.step(&mut places);
}

// https://en.wikipedia.org/wiki/Petri_net#/media/File:Detailed_petri_net.png
#[test]
fn test_more_complex_petrinet() {
    let mut places = vec![
        Place::new(1, "P1"),
        Place::new(0, "P2"),
        Place::new(2, "P3"),
        Place::new(1, "P4"),
    ];
    let (p1, p2, p3, p4) = (0, 1, 2, 3);

    let a1 = Arc::new(p1, 1).expect("weight greater than zero");

    let a2 = Arc::new(p2, 1).expect("weight greater than zero");
    let a3 = Arc::new(p3, 1).expect("weight greater than zero");

    let a4 = Arc::new(p2, 1).expect("weight greater than zero");
    let a5 = Arc::new(p3, 1).expect("weight greater than zero");

    let a6 = Arc::new(p4, 1).expect("weight greater than zero");

    let a7 = Arc::new(p1, 1).expect("weight greater than zero");

    let mut t1 = Transition::new();
    let mut t2 = Transition::new();

    t1.add_input(&a1);
    t1.add_output(&a2);
    t1.add_output(&a3);

    t2.add_input(&a4);
    t2.add_input(&a5);
    t2.add_output(&a6);
    t2.add_output(&a7);

    let mut petri = Petrinet::new();
    petri.add_transition(t1);
    petri.add_transition(t2);

    petri.step(&mut places);

    assert_eq!(0, places[p1].tokens());
    assert_eq!(1, places[p2].tokens());
    assert_eq!(3, places[p3].tokens());

    petri.step(&mut places);

    assert_eq!(1, places[p1].tokens());
    assert_eq!(0, places[p2].tokens());
    assert_eq!(2, places[p3].tokens());
    assert_eq!(2, places[p4].tokens());

    petri.step(&mut places);
    petri.step(&mut places);

    assert_eq!(3, places[p4].tokens());
}
