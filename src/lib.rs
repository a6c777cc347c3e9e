//! A test double for a single digital I/O pin.
//!
//! `gpio::DigitalIOMock` either replays a scripted sequence of pin levels and
//! reports every transaction that departs from it, or records the levels that
//! are written to it so that they can be turned into a script later.
pub mod gpio;
pub mod laws;
