//! Verified core of the BornEngine command-line tool.
pub mod build_artifacts;
pub mod cli;
pub mod commands;
pub mod config;
pub mod engine;
pub mod engine_package;
pub mod error;
pub mod json;
pub mod package_manager;
pub mod paths;
pub mod platform;
pub mod process;
pub mod project;
pub mod string_set;
pub mod text;
pub mod ui;
pub mod versions;
