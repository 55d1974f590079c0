//! Coordinator core for a fleet of remote plugins: hierarchical identifiers,
//! topology, vocabulary and directive stores, the session registry and the
//! decisions of the plugin protocol, the administrator store, the
//! privileged-action gate, the ring of recent log lines, and what a key press
//! does to the administrator console.

pub mod auth;
pub mod config;
pub mod config_manager;
pub mod console;
pub mod dictionary;
pub mod dictionary_manager;
pub mod directives;
pub mod engine;
pub mod keyed;
pub mod logging;
pub mod security;
pub mod service;
pub mod session;
pub mod state;
pub mod text;
pub mod tree;
pub mod vocabulary;
