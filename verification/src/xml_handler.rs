//! XML function metadata: parsing it and turning it into script text.
pub mod composite;
pub mod condition;
pub mod error;
pub mod events;
pub mod group;
pub mod resources;
pub mod snippet;
pub mod substitute;
pub mod value_map;
pub mod variable;
