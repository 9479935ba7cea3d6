//! Stashing and cycling of windows under a tiling window manager: the queue of
//! remembered windows, the decisions taken over it, and the wire format spoken
//! to the window manager.

pub mod cmd;
pub mod err;
pub mod numeral;
pub mod ops;
pub mod state;
pub mod yabai;
