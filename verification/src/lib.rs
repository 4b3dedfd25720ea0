//! Walnut: the rules of a personal knowledge-management tool that scaffolds
//! directory-based repositories and keeps a registry of them.

pub mod clock;
pub mod config;
pub mod error;
pub mod new;
pub mod path;
pub mod registry;
pub mod repo;
pub mod select;
pub mod text;
