//! A drawing tablet made of a touch screen: the screen of a computer is shown
//! on it, and what is drawn on it reaches the computer as pen and touch input.
//!
//! This library holds what is decided and computed; devices, streams and
//! sockets are driven from outside.

pub mod capture;
pub mod clock;
pub mod encoder;
pub mod input;
pub mod protocol;
pub mod server;
pub mod text;
