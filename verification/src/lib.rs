//! Sampling single pixels out of raw screen-capture frames, and the decisions
//! around it: which negotiated formats are accepted, how a received frame
//! is described, when the escape hotkey fires, and the scripted pointer
//! session that runs before capturing.

pub mod pixel;
pub mod frame;
pub mod args;
pub mod hotkey;
pub mod mouse;
pub mod session;
