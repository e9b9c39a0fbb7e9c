//! The package managers a project can use.
use crate::error::{subject_error, CliError, ErrorKind};
use crate::text::{chars_equal, chars_of, lower_chars, lower_seq};
use vstd::prelude::*;

verus! {

#[derive(Clone, Copy, Debug, PartialEq, Eq, Structural)]
pub enum PackageManager {
    Pnpm,
    Npm,
    Yarn,
}

pub open spec fn manager_label(m: PackageManager) -> Seq<char> {
    match m {
        PackageManager::Pnpm => "pnpm"@,
        PackageManager::Npm => "npm"@,
        PackageManager::Yarn => "yarn"@,
    }
}

/// The package manager a name denotes, ignoring ASCII case.
pub open spec fn manager_named(value: Seq<char>) -> Option<PackageManager> {
    let l = lower_seq(value);
    if l == "pnpm"@ {
        Some(PackageManager::Pnpm)
    } else if l == "npm"@ {
        Some(PackageManager::Npm)
    } else if l == "yarn"@ {
        Some(PackageManager::Yarn)
    } else {
        None
    }
}

impl PackageManager {
    pub fn parse(value: &str) -> (r: Result<PackageManager, CliError>)
        ensures
            r matches Ok(m) ==> manager_named(value@) == Some(m),
            r matches Err(e) ==> manager_named(value@) is None && e@ == subject_error(
                ErrorKind::UnsupportedPackageManager,
                value@,
            ),
    {
        let l = lower_chars(chars_of(value).as_slice());
        if chars_equal(l.as_slice(), chars_of("pnpm").as_slice()) {
            Ok(PackageManager::Pnpm)
        } else if chars_equal(l.as_slice(), chars_of("npm").as_slice()) {
            Ok(PackageManager::Npm)
        } else if chars_equal(l.as_slice(), chars_of("yarn").as_slice()) {
            Ok(PackageManager::Yarn)
        } else {
            Err(CliError::about(ErrorKind::UnsupportedPackageManager, value))
        }
    }

    pub fn as_str(self) -> (r: &'static str)
        ensures
            r@ == manager_label(self),
    {
        match self {
            PackageManager::Pnpm => "pnpm",
            PackageManager::Npm => "npm",
            PackageManager::Yarn => "yarn",
        }
    }

    /// The program that runs the package manager.
    pub fn executable(self) -> (r: &'static str)
        ensures
            r@ == manager_label(self),
    {
        self.as_str()
    }

    /// The arguments that install a project's dependencies.
    pub fn install_args(self) -> (r: Vec<&'static str>)
        ensures
            r@.len() == 1,
            r@[0]@ == "install"@,
    {
        let mut r: Vec<&'static str> = Vec::new();
        r.push("install");
        r
    }
}

/// Every package manager's own name parses back to it.
pub proof fn lemma_manager_name_round_trip(m: PackageManager)
    ensures
        manager_named(manager_label(m)) == Some(m),
{
    reveal_strlit("pnpm");
    reveal_strlit("npm");
    reveal_strlit("yarn");
    assert(lower_seq("pnpm"@) =~= "pnpm"@);
    assert(lower_seq("npm"@) =~= "npm"@);
    assert(lower_seq("yarn"@) =~= "yarn"@);
    assert("npm"@ != "pnpm"@) by {
        assert("npm"@.len() != "pnpm"@.len());
    }
    assert("yarn"@ != "pnpm"@) by {
        assert("yarn"@[0] != "pnpm"@[0]);
    }
    assert("yarn"@ != "npm"@) by {
        assert("yarn"@.len() != "npm"@.len());
    }
}

} // verus!
