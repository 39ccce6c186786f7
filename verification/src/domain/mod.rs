//! The behaviour graph: entities, events and the edges between entities.
pub mod edge;
pub mod entity;
pub mod event;

pub use edge::Edge;
pub use entity::{entity_id_of, Entity, LAFUFU_NAMESPACE};
pub use event::Event;
