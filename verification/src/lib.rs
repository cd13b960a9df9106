//! Core logic of a battery-powered sensor node: the configuration schema,
//! the typed configuration store, the form codec, and the boot state machine.

pub mod boot;
pub mod configuration;
pub mod float_text;
pub mod form;
pub mod numbers;
pub mod post_data;
pub mod sensors;
pub mod string_error;
pub mod template;
pub mod text;
pub mod wifi_helper;
