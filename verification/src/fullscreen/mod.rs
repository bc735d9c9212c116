//! The client that takes the whole screen.
pub mod approval;
pub mod content;
pub mod handle;
pub mod keys;
pub mod line;
pub mod pickers;
pub mod screen;
pub mod state;
