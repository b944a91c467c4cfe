//! A countdown and alarm clock for the terminal: the alarm roster, the clock
//! state, the screen layout and the decisions of the event loop.

pub mod alarm;
pub mod buffer;
pub mod clock;
pub mod config;
pub mod consts;
pub mod cradle;
pub mod layout;
pub mod screen;
pub mod text;
pub mod timer;
