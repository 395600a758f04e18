//! A discrete-event engine for Petri nets: places that hold tokens, weighted
//! arcs, transitions that fire when their inputs are satisfied, and a net that
//! fires one transition per step.
//!
//! Token counts live in a `Vec<Place>` that the builder of a net owns. Arcs
//! refer to a place by its position in that vector, and every operation that
//! reads or changes token counts takes the vector as an argument.

pub mod arc;
pub mod firing;
mod guard;
pub mod laws;
pub mod net;
pub mod place;
pub mod scheduler;
pub mod transition;

pub use arc::Arc;
pub use arc::ArcView;
pub use arc::Error;
pub use net::Petrinet;
pub use place::marking;
pub use place::names;
pub use place::Place;
pub use place::PlaceView;
pub use scheduler::RandomTransitionScheduler;
pub use transition::Transition;
