//! A terminal client that shows a conversation with an assistant: the transcript and how it is built
//! up, stored transcripts and how they are replayed, prompts and approvals, pickers and overlays, and
//! what all of it looks like on a screen.
//!
//! Everything here takes plain values and gives plain values back. Talking to the server, reading
//! files and drawing on the terminal are left to the program around it.
pub mod app;
pub mod artifacts;
pub mod bottom_pane;
pub mod client;
pub mod clock;
pub mod completion;
pub mod composer;
pub mod cursor;
pub mod diff_view;
pub mod draw;
pub mod edit;
pub mod exec_render;
pub mod fullscreen;
pub mod history_cell;
pub mod human_time;
pub mod ids;
pub mod inline_tui;
pub mod json;
pub mod keys;
pub mod labels;
pub mod markdown_stream;
pub mod overlay;
pub mod paths;
pub mod picker;
pub mod prompts;
pub mod protocol;
pub mod render;
pub mod renderer;
pub mod restore;
pub mod session;
pub mod skills;
pub mod startup_banner;
pub mod styled;
pub mod text;
pub mod threads;
pub mod transcript;
pub mod ui;
pub mod width;
pub mod wrapping;
