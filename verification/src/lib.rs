//! Report-encoding core of a keyboard firmware.
//!
//! The library turns the set of key codes pressed during one scan cycle into
//! a fixed 21-byte HID input report that stays readable both to a legacy
//! boot-protocol host (which only parses the first 8 bytes) and to a full
//! HID host (which reads the trailing 104-bit rollover bitmap).

pub mod hid;
pub mod keeb;
pub mod laws;
