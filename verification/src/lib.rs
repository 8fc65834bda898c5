//! Verified core of a small desktop status bar: the brightness, volume and
//! weather modules decide here what to show and which commands to run; the
//! program around it only talks to the display server, the sound server and
//! the network.

pub mod text;
pub mod command;
pub mod json;
pub mod brightness;
pub mod volume;
pub mod weather;
