//! The client that leaves the transcript in the scrollback and keeps a pane at the bottom.
pub mod flush;
pub mod keys;
pub mod state;
