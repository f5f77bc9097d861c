//! A per-entity component store in which each system sees a newly set
//! component value at most once.
pub mod key;
pub mod entity;
pub mod system;
pub mod view;
pub mod check;
pub mod laws;
pub mod components;

pub use check::EntityCheck;
pub use components::{ComponentCheck, Components};
pub use entity::Entity;
pub use key::IComponent;
pub use system::{System, SystemCounter};
pub use view::EntitySystem;
