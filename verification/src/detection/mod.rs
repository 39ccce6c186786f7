//! What detection reports: observations and the entities that changed most.
pub mod observations;

pub use observations::{BehaviorObservation, MostChangedEntity, ObservationCategory};
