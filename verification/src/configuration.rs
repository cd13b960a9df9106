//! The node's configuration: the typed store and the schema of its fields.

pub mod main_configuration;
pub mod nvs_configuration;
pub mod slots;
