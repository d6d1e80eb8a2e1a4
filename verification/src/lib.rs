//! A countdown timer library: a nanosecond-resolution duration type, a
//! clock-style duration formatter, parsing of the output-sink selector,
//! and the countdown state machine itself.
//!
//! Rendered text is handed to the caller, who owns the output sink and the
//! sleeps between ticks; every decision about what to write and when to
//! stop is made (and verified) here.

pub mod clock;
pub mod duration;
pub mod parse;
pub mod timer;
