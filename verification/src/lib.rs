//! A command-line tool orchestrator: it discovers command definitions
//! scattered across a repository tree, merges them with built-in commands and
//! a project-level configuration, detects naming collisions, and resolves a
//! single invocation to the handler that should run it.
//!
//! The crate is organised as a verified core: path filtering, content
//! probing, registry building, collision detection and dispatch resolution
//! are all specified and proved.  Process spawning, file reading and
//! terminal output live outside the library and consume the decisions this
//! crate produces.

pub mod configuration;
pub mod devkit;
pub mod dispatch;
pub mod executables;
pub mod executor;
pub mod external_commands;
pub mod interfaces;
pub mod internal_commands;
pub mod internal_filesystem;
pub mod logger;
pub mod repokit;
pub mod text;
pub mod validations;
