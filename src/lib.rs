//! Decision aid for airing a room: projects outdoor relative humidity onto
//! candidate indoor temperatures, over a windowed or day-averaged forecast.
//!
//! All quantities are fixed-point integers: timestamps are civil minutes,
//! temperatures are thousandths of a degree Celsius, relative humidity is in
//! thousandths of a percent, and saturation pressures are positive integers in
//! any consistent unit.
use vstd::prelude::*;

pub mod daily;
pub mod projection;
pub mod sample;
pub mod table;
pub mod window;

verus! {

} // verus!
