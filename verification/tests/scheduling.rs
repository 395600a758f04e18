use petrinet::Arc;
use petrinet::Place;
use petrinet::RandomTransitionScheduler;
use petrinet::Transition;

#[test]
fn generator_draws_the_known_numbers() {
    let mut from_zero = RandomTransitionScheduler::new();
    assert_eq!(0xE220_A839_7B1D_CDAF, from_zero.next_u64());
    assert_eq!(0x6E78_9E6A_A1B9_65F4, from_zero.next_u64());
    assert_eq!(0x06C4_5D18_8009_454F, from_zero.next_u64());

    let mut seeded = RandomTransitionScheduler::with_seed(1234567);
    assert_eq!(6457827717110365317, seeded.next_u64());
    assert_eq!(3203168211198807973, seeded.next_u64());
    assert_eq!(9817491932198370423, seeded.next_u64());
}

#[test]
fn default_scheduler_starts_from_zero() {
    let mut made: RandomTransitionScheduler = Default::default();
    assert_eq!(0xE220_A839_7B1D_CDAF, made.next_u64());
}

#[test]
fn selecting_among_none_gives_none_and_draws_nothing() {
    let mut scheduler = RandomTransitionScheduler::new();
    assert_eq!(None, scheduler.select(0));
    assert_eq!(None, scheduler.select(0));
    assert_eq!(0xE220_A839_7B1D_CDAF, scheduler.next_u64());
}

#[test]
fn selecting_gives_the_remainder_of_the_draw() {
    let mut scheduler = RandomTransitionScheduler::new();
    assert_eq!(Some(1), scheduler.select(3));
    assert_eq!(Some(0), scheduler.select(4));
    assert_eq!(Some(0), scheduler.select(1));
    assert_eq!(Some(17909611376780542444 % 1000), scheduler.select(1000));
}

#[test]
fn selecting_stays_below_the_count() {
    let mut scheduler = RandomTransitionScheduler::with_seed(2024);
    for count in 1..200usize {
        for _ in 0..20 {
            let chosen = scheduler.select(count).expect("something to choose");
            assert!(chosen < count);
        }
    }
}

#[test]
fn same_seed_makes_the_same_choices() {
    let mut one = RandomTransitionScheduler::with_seed(31);
    let mut other = RandomTransitionScheduler::with_seed(31);
    for _ in 0..100 {
        assert_eq!(one.select(5), other.select(5));
    }
}

#[test]
fn schedule_without_transitions_gives_none() {
    let mut scheduler = RandomTransitionScheduler::new();
    let places = vec![Place::new(1, "p")];
    let none: Vec<Transition<'_>> = Vec::new();
    assert_eq!(None, scheduler.schedule(&none, &places));
}

#[test]
fn schedule_gives_none_where_nothing_is_enabled() {
    let take = Arc::new(0, 2).expect("weight two");
    let mut starved = Transition::new();
    starved.add_input(&take);
    let blocked = Transition::new_with_expression(|| false);
    let transitions = vec![starved, blocked];
    let places = vec![Place::new(1, "short")];

    let mut scheduler = RandomTransitionScheduler::new();
    assert_eq!(None, scheduler.schedule(&transitions, &places));
    assert_eq!(0xE220_A839_7B1D_CDAF, scheduler.next_u64());
}

#[test]
fn schedule_gives_the_position_of_an_enabled_transition() {
    let take = Arc::new(0, 2).expect("weight two");
    let spare = Arc::new(1, 1).expect("weight one");
    let mut starved = Transition::new();
    starved.add_input(&take);
    let mut ready = Transition::new();
    ready.add_input(&spare);
    let blocked = Transition::new_with_expression(|| false);
    let free = Transition::new();
    let transitions = vec![starved, ready, blocked, free];
    let places = vec![Place::new(1, "short"), Place::new(1, "spare")];

    // the enabled ones stand at positions 1 and 3; from seed zero the draws
    // are odd, even, odd
    let mut scheduler = RandomTransitionScheduler::new();
    assert_eq!(Some(3), scheduler.schedule(&transitions, &places));
    assert_eq!(Some(1), scheduler.schedule(&transitions, &places));
    assert_eq!(Some(3), scheduler.schedule(&transitions, &places));

    let mut scheduler = RandomTransitionScheduler::with_seed(5);
    for _ in 0..500 {
        let chosen = scheduler.schedule(&transitions, &places).expect("two are enabled");
        assert!(chosen == 1 || chosen == 3);
        assert!(transitions[chosen].is_enabled(&places));
    }
}

#[test]
fn schedule_with_one_enabled_transition_gives_it() {
    let take = Arc::new(0, 2).expect("weight two");
    let mut starved = Transition::new();
    starved.add_input(&take);
    let free = Transition::new();
    let transitions = vec![starved, free];
    let places = vec![Place::new(0, "empty")];
    let mut scheduler = RandomTransitionScheduler::with_seed(77);
    for _ in 0..50 {
        assert_eq!(Some(1), scheduler.schedule(&transitions, &places));
    }
}

#[test]
fn schedule_changes_no_place() {
    let take = Arc::new(0, 1).expect("weight one");
    let mut ready = Transition::new();
    ready.add_input(&take);
    let transitions = vec![ready];
    let places = vec![Place::new(1, "p")];
    let mut scheduler = RandomTransitionScheduler::new();
    assert_eq!(Some(0), scheduler.schedule(&transitions, &places));
    assert_eq!(1, places[0].tokens());
}

#[test]
fn schedule_chooses_each_enabled_transition_about_equally_often() {
    let take = Arc::new(0, 1).expect("weight one");
    let mut transitions = Vec::new();
    for _ in 0..4 {
        let mut t = Transition::new();
        t.add_input(&take);
        transitions.push(t);
    }
    let places = vec![Place::new(1, "p")];

    let mut scheduler = RandomTransitionScheduler::with_seed(20260101);
    let mut chosen = [0u32; 4];
    for _ in 0..40_000 {
        let k = scheduler.schedule(&transitions, &places).expect("all are enabled");
        assert!(k < transitions.len());
        chosen[k] += 1;
    }
    for count in chosen {
        assert!(9_500 < count && count < 10_500, "chosen {} times of 40000", count);
    }
}
