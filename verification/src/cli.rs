//! The commands the tool accepts, as plain values; reading them from the
//! command line is the binary's work.
use crate::package_manager::PackageManager;
use vstd::prelude::*;

verus! {

/// A parsed command line: how often `--verbose` was given, and the command.
#[derive(Debug)]
pub struct Cli {
    pub verbose: u8,
    pub command: Commands,
}

impl Cli {
    /// Detailed output was asked for at least once.
    pub fn is_verbose(&self) -> (r: bool)
        ensures
            r == (self.verbose > 0),
    {
        self.verbose > 0
    }
}

/// The top-level commands.
#[derive(Debug)]
pub enum Commands {
    /// Create a new game project in a new directory.
    New {
        project_name: String,
        package_manager: Option<PackageManager>,
        engine_version: Option<String>,
        engine_path: Option<String>,
    },
    /// Initialize a game in the current directory.
    Init {
        package_manager: Option<PackageManager>,
        engine_version: Option<String>,
        engine_path: Option<String>,
    },
    /// Compile a game for a platform.
    Build {
        entry_file: String,
        name: Option<String>,
        os: Option<String>,
        target: Option<String>,
    },
    /// Compile and run a game for the current host.
    Run {
        entry_file: String,
        name: Option<String>,
        os: Option<String>,
        target: Option<String>,
        program_args: Vec<String>,
    },
    /// Build and run a game, optionally restarting it when files change.
    Dev {
        entry_file: String,
        name: Option<String>,
        os: Option<String>,
        target: Option<String>,
        watch: bool,
    },
    /// Remove the recorded build files.
    Clean,
    /// Check the development environment.
    Doctor,
    /// Show the current project and toolchain.
    Info,
    /// Show the installed version.
    Version,
    /// Manage the engine dependency of the current project.
    Engine { command: EngineCommands },
    /// Upgrade the engine dependency of the current project.
    Upgrade { version: Option<String>, latest: bool },
    /// Check how to install a newer release of the tool.
    Update,
    /// Read or change the global configuration.
    Config { command: ConfigCommands },
    /// Check TypeScript compatibility without building a binary.
    Check { entry_file: String, os: Option<String>, target: Option<String> },
    /// Create a new game project interactively.
    Create,
}

/// The `engine` subcommands.
#[derive(Debug)]
pub enum EngineCommands {
    Current,
    Install { version: Option<String> },
    List,
    Update,
    Remove { version: Option<String> },
    Use { source: String },
}

/// The `config` subcommands.
#[derive(Debug)]
pub enum ConfigCommands {
    SetValue { key: String, value: String },
    Get { key: String },
    List,
}

/// The project options shared by `new` and `init`.
#[derive(Debug)]
pub struct ProjectOptions {
    pub package_manager: Option<PackageManager>,
    pub engine_version: Option<String>,
    pub engine_path: Option<String>,
}

} // verus!
