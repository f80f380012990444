//! The tool's built-in commands and their shared help renderer.

pub mod help;
pub mod internal_registry;
pub mod list_commands;
pub mod list_owners;
pub mod locate_command;
pub mod onboarder;
pub mod register_command;
pub mod typescript_command;
pub mod upgrade_devkit;
pub mod upgrade_repokit;
