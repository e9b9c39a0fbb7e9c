//! The interactive `create` wizard: what it asks, what it offers by default,
//! and what the answers select.
use crate::config::Config;
use crate::engine::EngineRelease;
use crate::error::{plain_error, subject_error, CliError, ErrorKind};
use crate::project::{valid_project_name, validate_project_name};
use crate::package_manager::{manager_label, manager_named, PackageManager};
use crate::string_set::string_views;
use crate::text::{append_str, copy_string, str_equal, string_from};
use vstd::prelude::*;

verus! {

/// Fails when no interactive terminal is available.
pub fn require_interactive(available: bool) -> (r: Result<(), CliError>)
    ensures
        r is Ok <==> available,
        r matches Err(e) ==> e@ == plain_error(ErrorKind::NotInteractive),
{
    if !available {
        return Err(CliError::new(ErrorKind::NotInteractive));
    }
    Ok(())
}

/// Fails when there is no release to offer; the wizard asks nothing then.
pub fn check_releases(releases: &Vec<EngineRelease>) -> (r: Result<(), CliError>)
    ensures
        r is Ok <==> releases@.len() > 0,
        r matches Err(e) ==> e@ == plain_error(ErrorKind::NoReleasesAvailable),
{
    if releases.len() == 0 {
        return Err(CliError::new(ErrorKind::NoReleasesAvailable));
    }
    Ok(())
}

/// A selection the wizard shows: its title, the options and the one selected
/// at first.
#[derive(Clone, Debug, PartialEq, Eq)]
pub struct Prompt {
    pub title: String,
    pub options: Vec<String>,
    pub default: usize,
}

/// What the wizard collected.
#[derive(Clone, Debug, PartialEq, Eq)]
pub struct CreateChoices {
    pub project_name: String,
    pub package_manager: PackageManager,
    pub engine_release: EngineRelease,
}

pub open spec fn manager_at(i: int) -> PackageManager {
    if i == 0 {
        PackageManager::Pnpm
    } else if i == 1 {
        PackageManager::Npm
    } else {
        PackageManager::Yarn
    }
}

pub open spec fn manager_index(m: PackageManager) -> int {
    match m {
        PackageManager::Pnpm => 0,
        PackageManager::Npm => 1,
        PackageManager::Yarn => 2,
    }
}

/// The package-manager selection for a configuration: pnpm, npm and yarn,
/// the configured one selected at first.
pub open spec fn is_manager_prompt(config: Config, p: Prompt) -> bool {
    manager_named(config.package_manager@) matches Some(m) && p.title@ == "Package manager"@
        && string_views(p.options@) == seq!["pnpm"@, "npm"@, "yarn"@] && p.default
        == manager_index(m)
}

/// The package-manager selection: pnpm, npm and yarn, the configured one
/// selected at first.
pub fn manager_prompt(config: &Config) -> (r: Result<Prompt, CliError>)
    ensures
        r matches Ok(p) ==> is_manager_prompt(*config, p),
        r matches Err(e) ==> manager_named(config.package_manager@) is None && e@
            == crate::error::subject_error(
            ErrorKind::UnsupportedPackageManager,
            config.package_manager@,
        ),
{
    let configured = PackageManager::parse(config.package_manager.as_str())?;
    let mut options: Vec<String> = Vec::new();
    options.push(string_from("pnpm"));
    options.push(string_from("npm"));
    options.push(string_from("yarn"));
    assert(string_views(options@) =~= seq!["pnpm"@, "npm"@, "yarn"@]);
    let default = match configured {
        PackageManager::Pnpm => 0,
        PackageManager::Npm => 1,
        PackageManager::Yarn => 2,
    };
    Ok(Prompt { title: string_from("Package manager"), options, default })
}

/// The package manager at a selected position.
pub fn manager_choice(index: usize) -> (r: Result<PackageManager, CliError>)
    ensures
        index < 3 ==> (r matches Ok(m) && m == manager_at(index as int)),
        index >= 3 ==> (r matches Err(e) && e@ == plain_error(
            ErrorKind::ManagerSelectionOutOfRange,
        )),
{
    if index == 0 {
        Ok(PackageManager::Pnpm)
    } else if index == 1 {
        Ok(PackageManager::Npm)
    } else if index == 2 {
        Ok(PackageManager::Yarn)
    } else {
        Err(CliError::new(ErrorKind::ManagerSelectionOutOfRange))
    }
}

/// How a release is offered; the first, newest, is marked as the latest.
pub open spec fn release_option(r: EngineRelease, first: bool) -> Seq<char> {
    r.version@ + " ("@ + r.package_name@ + ")"@ + (if first {
        " \u{2014} latest"@
    } else {
        Seq::empty()
    })
}

/// The position of the first release with the configured version, else 0.
pub open spec fn configured_release_from(rs: Seq<EngineRelease>, v: Seq<char>, i: int) -> int
    decreases rs.len() - i,
{
    if i < 0 || i >= rs.len() {
        0
    } else if rs[i].version@ == v {
        i
    } else {
        configured_release_from(rs, v, i + 1)
    }
}

/// The version selection for a configuration: every release, the configured
/// version selected at first (the newest when it is not offered).
pub open spec fn is_version_prompt(config: Config, releases: Seq<EngineRelease>, p: Prompt) -> bool {
    &&& p.title@ == "BornEngine version"@
    &&& p.options@.len() == releases.len()
    &&& forall|i: int|
        0 <= i < releases.len() ==> #[trigger] p.options@[i]@ == release_option(
            releases[i],
            i == 0,
        )
    &&& p.default == configured_release_from(releases, config.engine_version@, 0)
}

/// The version selection: every release, the configured version selected at
/// first (the newest when it is not offered).
pub fn version_prompt(config: &Config, releases: &Vec<EngineRelease>) -> (r: Prompt)
    ensures
        is_version_prompt(*config, releases@, r),
{
    let mut options: Vec<String> = Vec::new();
    let mut i: usize = 0;
    while i < releases.len()
        invariant
            i <= releases.len(),
            options@.len() == i,
            forall|j: int|
                0 <= j < i ==> #[trigger] options@[j]@ == release_option(releases@[j], j == 0),
        decreases releases.len() - i,
    {
        let mut text = copy_string(&releases[i].version);
        append_str(&mut text, " (");
        append_str(&mut text, releases[i].package_name.as_str());
        append_str(&mut text, ")");
        if i == 0 {
            append_str(&mut text, " \u{2014} latest");
        }
        options.push(text);
        i = i + 1;
    }
    let mut default: usize = 0;
    let mut k: usize = 0;
    let mut found = false;
    while k < releases.len() && !found
        invariant
            k <= releases.len(),
            found ==> default == configured_release_from(releases@, config.engine_version@, 0),
            !found ==> default == 0,
            !found ==> configured_release_from(releases@, config.engine_version@, 0)
                == configured_release_from(releases@, config.engine_version@, k as int),
        decreases releases.len() - k + (if found { 0int } else { 1int }),
    {
        if str_equal(releases[k].version.as_str(), config.engine_version.as_str()) {
            default = k;
            found = true;
        } else {
            k = k + 1;
        }
    }
    Prompt { title: string_from("BornEngine version"), options, default }
}

/// The release at a selected position.
pub fn version_choice(releases: &Vec<EngineRelease>, index: usize) -> (r: Result<
    EngineRelease,
    CliError,
>)
    ensures
        index < releases@.len() ==> (r matches Ok(x) && x.package_name@
            == releases@[index as int].package_name@ && x.version@
            == releases@[index as int].version@),
        index >= releases@.len() ==> (r matches Err(e) && e@ == plain_error(
            ErrorKind::VersionSelectionOutOfRange,
        )),
{
    if index >= releases.len() {
        return Err(CliError::new(ErrorKind::VersionSelectionOutOfRange));
    }
    Ok(
        EngineRelease {
            package_name: copy_string(&releases[index].package_name),
            version: copy_string(&releases[index].version),
        },
    )
}

/// Where the wizard stands: what it waits for, and what it collected.
#[derive(Debug)]
pub enum WizardState {
    /// Waits for the project name.
    NeedName,
    /// Waits for the package-manager selection.
    NeedManager { project_name: String },
    /// Waits for the version selection.
    NeedVersion { project_name: String, package_manager: PackageManager },
    /// Has collected every choice.
    Finished,
}

/// An answer to the wizard's last request.
#[derive(Debug)]
pub enum WizardAnswer {
    Text(String),
    Selected(usize),
}

/// What the wizard asks next, or what it collected.
#[derive(Debug)]
pub enum WizardRequest {
    /// Ask for text under this prompt.
    AskText(String),
    /// Show this selection.
    Select(Prompt),
    /// Every choice is made.
    Done(CreateChoices),
}

/// Starts the wizard: with releases to offer, it asks for the project name;
/// without any it fails before asking anything.
pub fn start_wizard(releases: &Vec<EngineRelease>) -> (r: Result<
    (WizardState, WizardRequest),
    CliError,
>)
    ensures
        r is Ok <==> releases@.len() > 0,
        r matches Ok((s, q)) ==> s is NeedName && (q matches WizardRequest::AskText(t) && t@
            == "Project name"@),
        r matches Err(e) ==> e@ == plain_error(ErrorKind::NoReleasesAvailable),
{
    check_releases(releases)?;
    Ok((WizardState::NeedName, WizardRequest::AskText(string_from("Project name"))))
}

/// One step of the wizard: the answer to its last request gives the next
/// state and request. A name is checked before any selection is shown; the
/// selections are those of `manager_prompt` and `version_prompt`; the choices
/// are those selected. An answer of the wrong kind for the state is refused.
pub fn wizard_step(
    state: WizardState,
    answer: WizardAnswer,
    config: &Config,
    releases: &Vec<EngineRelease>,
) -> (r: Result<(WizardState, WizardRequest), CliError>)
    ensures
        match (state, answer) {
            (WizardState::NeedName, WizardAnswer::Text(name)) => if !valid_project_name(name@) {
                r matches Err(e) && e@ == plain_error(ErrorKind::InvalidProjectName)
            } else if manager_named(config.package_manager@) is None {
                r matches Err(e) && e@ == subject_error(
                    ErrorKind::UnsupportedPackageManager,
                    config.package_manager@,
                )
            } else {
                r matches Ok((WizardState::NeedManager { project_name }, WizardRequest::Select(p)))
                    && project_name@ == name@ && is_manager_prompt(*config, p)
            },
            (WizardState::NeedManager { project_name }, WizardAnswer::Selected(i)) => if i < 3 {
                r matches Ok(
                    (
                        WizardState::NeedVersion { project_name: n, package_manager: m },
                        WizardRequest::Select(p),
                    ),
                ) && n@ == project_name@ && m == manager_at(i as int) && is_version_prompt(
                    *config,
                    releases@,
                    p,
                )
            } else {
                r matches Err(e) && e@ == plain_error(ErrorKind::ManagerSelectionOutOfRange)
            },
            (
                WizardState::NeedVersion { project_name, package_manager },
                WizardAnswer::Selected(i),
            ) => if i < releases@.len() {
                r matches Ok((WizardState::Finished, WizardRequest::Done(c))) && c.project_name@
                    == project_name@ && c.package_manager == package_manager
                    && c.engine_release.package_name@ == releases@[i as int].package_name@
                    && c.engine_release.version@ == releases@[i as int].version@
            } else {
                r matches Err(e) && e@ == plain_error(ErrorKind::VersionSelectionOutOfRange)
            },
            _ => r matches Err(e) && e@ == plain_error(ErrorKind::UnexpectedAnswer),
        },
{
    match (state, answer) {
        (WizardState::NeedName, WizardAnswer::Text(name)) => {
            validate_project_name(name.as_str())?;
            let p = manager_prompt(config)?;
            Ok((WizardState::NeedManager { project_name: name }, WizardRequest::Select(p)))
        },
        (WizardState::NeedManager { project_name }, WizardAnswer::Selected(i)) => {
            let m = manager_choice(i)?;
            let p = version_prompt(config, releases);
            Ok(
                (
                    WizardState::NeedVersion { project_name, package_manager: m },
                    WizardRequest::Select(p),
                ),
            )
        },
        (WizardState::NeedVersion { project_name, package_manager }, WizardAnswer::Selected(i)) => {
            let engine_release = version_choice(releases, i)?;
            Ok(
                (
                    WizardState::Finished,
                    WizardRequest::Done(CreateChoices { project_name, package_manager, engine_release }),
                ),
            )
        },
        _ => Err(CliError::new(ErrorKind::UnexpectedAnswer)),
    }
}

} // verus!
