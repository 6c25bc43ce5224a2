//! Verified core of the YAL launcher: themes, the display/space/window
//! inventory, window classification, the palette's commands, focus and
//! space-switching decisions, and the services that plugins use (key-value
//! store, HTTP options and limits, sockets, base64, prompts), all of them
//! the decisions that sit between the macOS-, Lua- and network-facing edges.

pub mod text;
pub mod lexical;
pub mod theme;
pub mod seqs;
pub mod sky;
pub mod tree;
pub mod json;
pub mod command;
pub mod prompt;
pub mod shortcut;
pub mod paths;
pub mod focus;
pub mod kv;
pub mod db;
pub mod apps;
pub mod plugin;
pub mod http;
pub mod settings;
pub mod events;
pub mod b64;
pub mod socket;
pub mod requests;
