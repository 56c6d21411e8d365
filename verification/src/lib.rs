//! CodeWarp's application core: the state of the desktop coding assistant and the
//! rules by which it reacts to user input, model-provider replies and runtime
//! events, together with the text and path helpers those rules rely on.
pub mod attach;
pub mod blocks;
pub mod bytes;
pub mod chat;
pub mod chunks;
pub mod diff;
pub mod engine;
pub mod file_tree;
pub mod hf_download;
pub mod inference;
pub mod laws;
pub mod lifecycle;
pub mod mcp_servers;
pub mod mention;
pub mod model;
pub mod palette;
pub mod paths;
pub mod provider;
pub mod runtime;
pub mod selection;
pub mod send;
pub mod seqs;
pub mod sessions;
pub mod start;
pub mod state;
pub mod summary;
pub mod tabbyapi;
pub mod text;
pub mod tool_rounds;
pub mod tree_walk;
pub mod ui_events;
pub mod workspace;
