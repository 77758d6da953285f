//! Core of an LSP (Language Server Protocol) proxy that lets many editor
//! connections share a pool of language-server processes, at most one
//! process per workspace.
//!
//! The crate holds the decision logic of the proxy: configuration value
//! validation, request-id translation between clients and a shared server,
//! the instance registry with its lifecycle rules, the garbage collector's
//! eligibility test, and the control-plane handshake. All I/O (sockets,
//! process spawning, serialization) lives outside, driven by the actions
//! these functions return.

pub mod config;
pub mod error;
pub mod handshake;
pub mod instance;
pub mod jsonrpc;
pub mod key;
pub mod laws;
pub mod lsp;
pub mod registry;
pub mod session;
pub mod status;
