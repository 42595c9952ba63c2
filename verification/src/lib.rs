//! The logic of a pair of servo-driven ears that follow the wearer's gaze: the
//! line protocol, the headset-side forwarder and the ear controller.

pub mod clock;
pub mod controller;
pub mod host;
pub mod laws;
pub mod line;
pub mod message;
pub mod protocol;
pub mod servo;
pub mod session;
pub mod sweep;
pub mod text;
pub mod usb;
