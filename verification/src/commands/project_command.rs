//! Choices made when a project is created or initialized.
use crate::config::Config;
use crate::engine::{EngineDependency, EngineRelease};
use crate::error::{error_view, CliError, ErrorKind};
use crate::package_manager::{manager_label, manager_named, PackageManager};
use crate::paths::{file_name, path_file_name};
use crate::project::ProjectSpec;
use crate::text::{copy_string, string_from};
use vstd::prelude::*;

verus! {

/// The explicit package manager, else the configured one.
pub fn select_package_manager(explicit: Option<PackageManager>, config: &Config) -> (r: Result<
    PackageManager,
    CliError,
>)
    ensures
        explicit matches Some(m) ==> r matches Ok(x) && x == m,
        explicit is None ==> match manager_named(config.package_manager@) {
            Some(m) => r matches Ok(x) && x == m,
            None => (r matches Err(e) && e@ == crate::error::subject_error(
                ErrorKind::UnsupportedPackageManager,
                config.package_manager@,
            )),
        },
{
    match explicit {
        Some(manager) => Ok(manager),
        None => PackageManager::parse(config.package_manager.as_str()),
    }
}

pub open spec fn install_hint(m: PackageManager) -> Seq<char> {
    match m {
        PackageManager::Pnpm => "install Node.js, then run `npm install --global pnpm`"@,
        PackageManager::Npm => "install Node.js from https://nodejs.org/"@,
        PackageManager::Yarn => "install Node.js, then run `corepack enable`"@,
    }
}

pub fn install_instruction(manager: PackageManager) -> (r: &'static str)
    ensures
        r@ == install_hint(manager),
{
    match manager {
        PackageManager::Pnpm => "install Node.js, then run `npm install --global pnpm`",
        PackageManager::Npm => "install Node.js from https://nodejs.org/",
        PackageManager::Yarn => "install Node.js, then run `corepack enable`",
    }
}

/// Fails, with how to install it, when the package manager's program is not
/// on the search path (`found` tells whether it is).
pub fn ensure_manager(manager: PackageManager, found: bool) -> (r: Result<(), CliError>)
    ensures
        r is Ok <==> found,
        r matches Err(e) ==> e@ == error_view(
            ErrorKind::PackageManagerMissing,
            manager_label(manager),
            install_hint(manager),
        ),
{
    if found {
        return Ok(());
    }
    Err(
        CliError::with_detail(
            ErrorKind::PackageManagerMissing,
            manager.as_str(),
            install_instruction(manager),
        ),
    )
}

/// The engine version a new project asks for: the explicit one, else the
/// configured one.
pub fn requested_engine_version(explicit: Option<&str>, config: &Config) -> (r: String)
    ensures
        explicit matches Some(v) ==> r@ == v@,
        explicit is None ==> r@ == config.engine_version@,
{
    match explicit {
        Some(v) => string_from(v),
        None => copy_string(&config.engine_version),
    }
}

pub fn spec_from_release(release: EngineRelease) -> (r: ProjectSpec)
    ensures
        r.engine_package == release.package_name,
        r.engine_spec == release.version,
{
    ProjectSpec { engine_package: release.package_name, engine_spec: release.version }
}

pub fn spec_from_dependency(dependency: EngineDependency) -> (r: ProjectSpec)
    ensures
        r.engine_package == dependency.package_name,
        r.engine_spec == dependency.spec,
{
    ProjectSpec { engine_package: dependency.package_name, engine_spec: dependency.spec }
}

/// How a project directory is shown in the next-steps hint: its name, or `.`.
pub fn display_path(path: &str) -> (r: String)
    ensures
        file_name(path@) matches Some(n) ==> r@ == n,
        file_name(path@) is None ==> r@ == "."@,
{
    match path_file_name(path) {
        Some(n) => n,
        None => string_from("."),
    }
}

/// Where a new project's engine comes from.
#[derive(Debug, PartialEq, Eq)]
pub enum SpecSource {
    /// A local checkout at this path.
    LocalPath(String),
    /// The registry release for this request.
    Registry(String),
}

/// The engine of a new project: an explicit local path first, then the path
/// in `BORNENGINE_PATH`, then the registry release for the explicit version
/// or, without one, the configured version.
pub fn project_spec_source(
    explicit_version: Option<&str>,
    explicit_path: Option<&str>,
    environment_path: Option<&str>,
    config: &Config,
) -> (r: SpecSource)
    ensures
        explicit_path matches Some(p) ==> (r matches SpecSource::LocalPath(x) && x@ == p@),
        explicit_path is None ==> (environment_path matches Some(p) ==> (r matches SpecSource::LocalPath(
            x,
        ) && x@ == p@)),
        explicit_path is None && environment_path is None ==> (r matches SpecSource::Registry(v)
            && v@ == (match explicit_version {
            Some(e) => e@,
            None => config.engine_version@,
        })),
{
    match explicit_path {
        Some(p) => SpecSource::LocalPath(string_from(p)),
        None => match environment_path {
            Some(p) => SpecSource::LocalPath(string_from(p)),
            None => SpecSource::Registry(requested_engine_version(explicit_version, config)),
        },
    }
}

} // verus!
