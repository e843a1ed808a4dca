//! Turns a plain-English task description into a prompt for a language-model
//! provider, and the provider's reply into source text.
//!
//! The crate holds the rules of that pipeline: prompt templates, provider
//! request shapes, reply clean-up, configuration profiles and the order of the
//! steps of one compilation. Reading files and talking to the network are left
//! to the caller.

pub mod compiler;
pub mod config;
pub mod error;
pub mod paths;
pub mod profile;
pub mod prompt;
pub mod provider;
pub mod sanitize;
pub mod sanitize_laws;
pub mod scaffold;
pub mod session;
pub mod text;
