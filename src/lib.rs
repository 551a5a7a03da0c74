//! Reconciles a user's configuration files with declared source
//! repositories: enumerating items, classifying what is at each target, and
//! planning the filesystem operations that link, copy, render or unlink them.
pub mod strategy;
pub mod text;
pub mod paths;
pub mod manifest;
pub mod vars;
pub mod config;
pub mod import;
pub mod repo;
pub mod linker;
pub mod template;
pub mod status;
pub mod laws;
pub mod order;
