mod bevy_types;
pub mod engine;
pub mod items;
pub mod label_map;
pub mod sync;
pub mod laws;
