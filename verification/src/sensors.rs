//! The sensors of the node: what each one contributes to a report, and how
//! the raw measurements are taken.

pub mod battery_sensor;
pub mod hcsr04_sensor;
pub mod sensor;
