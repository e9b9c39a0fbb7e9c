//! Choices made by the `engine` and `upgrade` commands.
use crate::config::Config;
use crate::engine::{EngineDependency, EngineRelease};
use crate::error::{error_view, CliError, ErrorKind};
use crate::json::{member, string_value, JsonValue};
use crate::package_manager::{manager_named, PackageManager};
use crate::text::{
    chars_of, copy_string, find_char, find_char_from, has_prefix, lemma_find_char_from,
    starts_with, str_equal, string_from, string_of, subvec,
};
use vstd::prelude::*;

verus! {

pub open spec fn source_kind(spec: Seq<char>) -> Seq<char> {
    if has_prefix(spec, "link:"@) || has_prefix(spec, "file:"@) {
        "local path"@
    } else if has_prefix(spec, "github:"@) || has_prefix(spec, "git+"@) {
        "GitHub/Git"@
    } else {
        "npm registry"@
    }
}

/// Where a dependency specification takes the engine from.
pub fn dependency_source(spec: &str) -> (r: &'static str)
    ensures
        r@ == source_kind(spec@),
{
    let s = chars_of(spec);
    if starts_with(s.as_slice(), chars_of("link:").as_slice()) || starts_with(
        s.as_slice(),
        chars_of("file:").as_slice(),
    ) {
        "local path"
    } else if starts_with(s.as_slice(), chars_of("github:").as_slice()) || starts_with(
        s.as_slice(),
        chars_of("git+").as_slice(),
    ) {
        "GitHub/Git"
    } else {
        "npm registry"
    }
}

/// Which lockfiles a project directory holds.
#[derive(Clone, Copy, Debug, PartialEq, Eq)]
pub struct Lockfiles {
    /// `pnpm-lock.yaml`
    pub pnpm: bool,
    /// `package-lock.json`
    pub npm: bool,
    /// `yarn.lock`
    pub yarn: bool,
}

/// The part of `packageManager` before the first `@` (`pnpm@9.1.0` names pnpm).
pub open spec fn manager_field_name(v: Seq<char>) -> Seq<char> {
    match find_char_from(v, '@', 0) {
        Some(k) => v.take(k),
        None => v,
    }
}

/// The package manager of a project: the one its `packageManager` field
/// names, else the one whose lockfile it holds (pnpm, npm, yarn in turn),
/// else the configured one.
pub open spec fn project_manager(
    package: crate::json::JsonView,
    lockfiles: Lockfiles,
    configured: Seq<char>,
) -> Option<Seq<char>> {
    match string_value(member(package, "packageManager"@)) {
        Some(v) => Some(manager_field_name(v)),
        None => if lockfiles.pnpm {
            None
        } else if lockfiles.npm {
            None
        } else if lockfiles.yarn {
            None
        } else {
            Some(configured)
        },
    }
}

/// The manager's name in a `packageManager` field is the text before the
/// field's first `@`, or the whole field when it holds no `@`.
pub proof fn lemma_manager_field_name_before_at(v: Seq<char>, k: int)
    requires
        0 <= k <= v.len(),
        forall|j: int| 0 <= j < k ==> v[j] != '@',
        k == v.len() || v[k] == '@',
    ensures
        manager_field_name(v) == v.take(k),
{
    lemma_find_char_from(v, '@', 0);
    match find_char_from(v, '@', 0) {
        Some(i) => {
            assert(i == k);
        },
        None => {
            assert(k == v.len());
            assert(v.take(k) =~= v);
        },
    }
}

/// A `packageManager` string field decides a project's package manager, by
/// the text before the field's first `@`, whatever lockfiles the project
/// holds and whatever manager is configured.
pub proof fn lemma_manager_field_decides(
    package: crate::json::JsonView,
    lockfiles: Lockfiles,
    configured: Seq<char>,
    v: Seq<char>,
    k: int,
)
    requires
        string_value(member(package, "packageManager"@)) == Some(v),
        0 <= k <= v.len(),
        forall|j: int| 0 <= j < k ==> v[j] != '@',
        k == v.len() || v[k] == '@',
    ensures
        project_manager(package, lockfiles, configured) == Some(v.take(k)),
{
    lemma_manager_field_name_before_at(v, k);
}

pub fn project_package_manager(package: &JsonValue, lockfiles: Lockfiles, config: &Config) -> (r:
    Result<PackageManager, CliError>)
    ensures
        match project_manager(package@, lockfiles, config.package_manager@) {
            Some(name) => match manager_named(name) {
                Some(m) => r matches Ok(x) && x == m,
                None => (r matches Err(e) && e@ == crate::error::subject_error(
                    ErrorKind::UnsupportedPackageManager,
                    name,
                )),
            },
            None => if lockfiles.pnpm {
                r matches Ok(PackageManager::Pnpm)
            } else if lockfiles.npm {
                r matches Ok(PackageManager::Npm)
            } else {
                r matches Ok(PackageManager::Yarn)
            },
        },
        string_value(member(package@, "packageManager"@)) matches Some(v) ==> ((r matches Ok(m)
            ==> manager_named(manager_field_name(v)) == Some(m)) && (r is Err <==> manager_named(
            manager_field_name(v),
        ) is None)),
{
    let field = match package.get("packageManager") {
        Some(v) => v.as_str(),
        None => None,
    };
    match field {
        Some(value) => {
            let v = chars_of(value.as_str());
            let name = match find_char(v.as_slice(), '@', 0) {
                Some(k) => {
                    proof {
                        lemma_find_char_from(v@, '@', 0);
                    }
                    let n = subvec(v.as_slice(), 0, k);
                    assert(n@ =~= v@.take(k as int));
                    n
                },
                None => v,
            };
            let text = string_of(name.as_slice());
            return PackageManager::parse(text.as_str());
        },
        None => {},
    }
    if lockfiles.pnpm {
        return Ok(PackageManager::Pnpm);
    }
    if lockfiles.npm {
        return Ok(PackageManager::Npm);
    }
    if lockfiles.yarn {
        return Ok(PackageManager::Yarn);
    }
    PackageManager::parse(config.package_manager.as_str())
}

/// The release an upgrade asks for: `latest`, or the given version.
pub fn upgrade_request(version: Option<&str>, latest: bool) -> (r: String)
    ensures
        r@ == (if latest {
            "latest"@
        } else {
            match version {
                Some(v) => v@,
                None => "latest"@,
            }
        }),
{
    if latest {
        string_from("latest")
    } else {
        match version {
            Some(v) => string_from(v),
            None => string_from("latest"),
        }
    }
}

pub fn dependency_from_release(release: EngineRelease) -> (r: EngineDependency)
    ensures
        r.package_name == release.package_name,
        r.spec == release.version,
{
    EngineDependency { package_name: release.package_name, spec: release.version }
}

/// What setting an engine dependency changes.
#[derive(Clone, Copy, Debug, PartialEq, Eq, Structural)]
pub enum DependencyChange {
    /// The project already has exactly this dependency.
    Unchanged,
    /// It replaces another engine dependency.
    Updated,
    /// The project had none.
    Added,
}

pub fn dependency_change(previous: &Option<EngineDependency>, next: &EngineDependency) -> (r:
    DependencyChange)
    ensures
        previous is None ==> r == DependencyChange::Added,
        previous matches Some(p) ==> (r == DependencyChange::Unchanged <==> (p.package_name@
            == next.package_name@ && p.spec@ == next.spec@)),
        previous matches Some(p) ==> r != DependencyChange::Added,
{
    match previous {
        None => DependencyChange::Added,
        Some(p) => {
            if str_equal(p.package_name.as_str(), next.package_name.as_str()) && str_equal(
                p.spec.as_str(),
                next.spec.as_str(),
            ) {
                DependencyChange::Unchanged
            } else {
                DependencyChange::Updated
            }
        },
    }
}

/// Refuses to remove the engine dependency when a version is given that is
/// not the current specification.
pub fn check_removal(current: &EngineDependency, version: Option<&str>) -> (r: Result<(), CliError>)
    ensures
        r is Ok <==> (version matches Some(v) ==> v@ == current.spec@),
        r matches Err(e) ==> version matches Some(v) && e@ == error_view(
            ErrorKind::RemoveVersionMismatch,
            current.spec@,
            v@,
        ),
{
    match version {
        Some(v) => {
            if !str_equal(v, current.spec.as_str()) {
                return Err(
                    CliError::with_detail(ErrorKind::RemoveVersionMismatch, current.spec.as_str(), v),
                );
            }
            Ok(())
        },
        None => Ok(()),
    }
}

} // verus!
