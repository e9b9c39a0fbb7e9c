//! The decisions behind the tool's commands.
pub mod build_command;
pub mod config_command;
pub mod create_command;
pub mod diagnostics_command;
pub mod engine_command;
pub mod project_command;
pub mod update_command;

pub use self::build_command as build;
pub use self::config_command as config;
pub use self::create_command as create;
pub use self::diagnostics_command as diagnostics;
pub use self::engine_command as engine;
pub use self::project_command as project;
pub use self::update_command as update;
