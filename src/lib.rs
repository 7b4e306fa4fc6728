//! Manifest and source transformation engine for multi-package chain projects.

pub mod text;
pub mod util;
pub mod extract;
pub mod manifest;
pub mod workspace;
pub mod add;
pub mod config;
pub mod inject;
pub mod errors;
pub mod new;
pub mod rename;
pub mod ops;
