//! Weather readings in fixed-point arithmetic: validation, alert
//! classification, per-station statistics and their textual rendering.
//!
//! Every measurement is an `i64` that counts tenths of its unit, so `125`
//! stands for 12.5 °C, 12.5 km/h or 12.5 %. What is derived from the
//! measurements is kept exact: a mean as sum and count, a rainfall estimate
//! in hundredths of a millimetre. Only the rendered text rounds, to one digit
//! after the point.

pub mod decimal;
pub mod alert;
pub mod reading;
pub mod station;
