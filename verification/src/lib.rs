//! A thermometer shown as a bar of LEDs behind a serial-in/parallel-out shift
//! register.
//!
//! A raw sensor reading is held to the sensed band and mapped to a number of
//! positions ([`level`]); that many positions, counted from position 0, make the
//! display line ([`line`]); the driver turns the line into steps on the four
//! wires of the register ([`driver`]). [`register`] models the chip at the far
//! end of the wires and states what the steps do to it, [`thermometer`] puts the
//! pieces together for one reading and for a whole run, and [`diagnostic`] words
//! the two lines of text that report a reading.
//!
//! The library touches no hardware. The driver writes its steps on a
//! [`driver::Wires`] value, and the owner of the pins carries them out in order.

pub mod diagnostic;
pub mod driver;
pub mod level;
pub mod line;
pub mod register;
pub mod thermometer;
