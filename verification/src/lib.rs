//! Turns git history (a commit or a working-tree diff) into prompts for a
//! remote text-generation backend, and parses the backend's streamed reply.
//!
//! The crate holds the pure core: provider request construction, stream-chunk
//! parsing, fragment aggregation, prompt building and command validation.
//! Network and terminal I/O live outside it.

pub mod aggregate;
pub mod command;
pub mod conversation;
pub mod error;
pub mod git_entity;
pub mod json;
pub mod prompt;
pub mod provider;
pub mod stream;
pub mod text;

pub use error::LumenError;
