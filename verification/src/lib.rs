//! Core of a language server: protocol replies, request bookkeeping, a
//! versioned virtual file system and the decisions of the event loop.

pub mod config;
pub mod decode;
pub mod event;
pub mod flake;
pub mod laws;
pub mod order;
pub mod protocol;
pub mod queue;
pub mod route;
pub mod server;
pub mod ty;
pub mod vfs;
