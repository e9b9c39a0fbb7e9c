//! The global settings: the default package manager and engine version.
use crate::error::{subject_error, CliError, ErrorKind, ErrorView};
use crate::package_manager::{manager_label, manager_named, PackageManager};
use crate::text::{str_equal, string_from};
use crate::versions::{is_stable, semver_parse, validate_engine_version};
use vstd::prelude::*;

verus! {

#[derive(Clone, Debug, PartialEq, Eq)]
pub struct Config {
    pub package_manager: String,
    pub engine_version: String,
}

impl Default for Config {
    fn default() -> (c: Config)
        ensures
            c.package_manager@ == "pnpm"@,
            c.engine_version@ == "latest"@,
    {
        Config {
            package_manager: string_from(PackageManager::Pnpm.as_str()),
            engine_version: string_from("latest"),
        }
    }
}

pub open spec fn is_manager_key(key: Seq<char>) -> bool {
    key == "package-manager"@ || key == "package_manager"@
}

pub open spec fn is_version_key(key: Seq<char>) -> bool {
    key == "engine-version"@ || key == "engine_version"@
}

/// No name is both a package-manager key and an engine-version key.
pub proof fn lemma_keys_distinct(key: Seq<char>)
    ensures
        !(is_manager_key(key) && is_version_key(key)),
{
    reveal_strlit("package-manager");
    reveal_strlit("package_manager");
    reveal_strlit("engine-version");
    reveal_strlit("engine_version");
    if is_manager_key(key) {
        assert(key[0] == 'p');
        assert("engine-version"@[0] == 'e');
        assert("engine_version"@[0] == 'e');
    }
}

/// A valid engine version setting: `latest` or a release version.
pub open spec fn valid_engine_version(v: Seq<char>) -> bool {
    v == "latest"@ || (semver_parse(v) is Some && is_stable(semver_parse(v).unwrap()))
}

/// A valid configuration: a known package manager and a valid engine version.
pub open spec fn valid_config(c: Config) -> bool {
    manager_named(c.package_manager@) is Some && valid_engine_version(c.engine_version@)
}

/// The two settings as text: package manager, engine version.
pub open spec fn config_fields(c: Config) -> (Seq<char>, Seq<char>) {
    (c.package_manager@, c.engine_version@)
}

/// The setting stored under `key`, if `key` names one.
pub open spec fn setting_in(fields: (Seq<char>, Seq<char>), key: Seq<char>) -> Option<Seq<char>> {
    if is_manager_key(key) {
        Some(fields.0)
    } else if is_version_key(key) {
        Some(fields.1)
    } else {
        None
    }
}

/// The settings after `set(key, value)`, or `None` where it is refused: a
/// package manager is stored under its own name, an engine version as given.
pub open spec fn set_outcome(c: Config, key: Seq<char>, value: Seq<char>) -> Option<
    (Seq<char>, Seq<char>),
> {
    if is_manager_key(key) {
        match manager_named(value) {
            Some(m) => Some((manager_label(m), c.engine_version@)),
            None => None,
        }
    } else if is_version_key(key) {
        if valid_engine_version(value) {
            Some((c.package_manager@, value))
        } else {
            None
        }
    } else {
        None
    }
}

/// What `get(key)` reads after `set(key, value)` was accepted.
pub open spec fn stored_setting(key: Seq<char>, value: Seq<char>) -> Seq<char> {
    if is_manager_key(key) {
        manager_label(manager_named(value).unwrap())
    } else {
        value
    }
}

/// Two keys that name the same setting.
pub open spec fn same_setting(a: Seq<char>, b: Seq<char>) -> bool {
    (is_manager_key(a) && is_manager_key(b)) || (is_version_key(a) && is_version_key(b))
}

/// A setting that `set` accepted is what `get` reads back under any name of
/// that setting, and the other setting keeps its value.
pub proof fn lemma_set_then_get(c: Config, key: Seq<char>, value: Seq<char>, other: Seq<char>)
    requires
        set_outcome(c, key, value) is Some,
    ensures
        same_setting(key, other) ==> setting_in(set_outcome(c, key, value).unwrap(), other)
            == Some(stored_setting(key, value)),
        (is_manager_key(other) || is_version_key(other)) && !same_setting(key, other)
            ==> setting_in(set_outcome(c, key, value).unwrap(), other) == setting_in(
            config_fields(c),
            other,
        ),
{
    lemma_keys_distinct(key);
    lemma_keys_distinct(other);
}

/// A valid configuration stays valid under every `set` that is accepted.
pub proof fn lemma_set_keeps_valid(c: Config, key: Seq<char>, value: Seq<char>)
    requires
        valid_config(c),
        set_outcome(c, key, value) is Some,
    ensures
        manager_named(set_outcome(c, key, value).unwrap().0) is Some,
        valid_engine_version(set_outcome(c, key, value).unwrap().1),
{
    lemma_keys_distinct(key);
    if is_manager_key(key) {
        crate::package_manager::lemma_manager_name_round_trip(manager_named(value).unwrap());
    }
}

impl Config {
    /// The value of a setting, under its dashed or underscored name.
    pub fn get(&self, key: &str) -> (r: Option<String>)
        ensures
            crate::text::opt_view(r) == setting_in(config_fields(*self), key@),
            is_manager_key(key@) ==> (r matches Some(v) && v@ == self.package_manager@),
            is_version_key(key@) ==> (r matches Some(v) && v@ == self.engine_version@),
            !is_manager_key(key@) && !is_version_key(key@) ==> r is None,
    {
        proof {
            lemma_keys_distinct(key@);
        }
        if str_equal(key, "package-manager") || str_equal(key, "package_manager") {
            Some(crate::text::copy_string(&self.package_manager))
        } else if str_equal(key, "engine-version") || str_equal(key, "engine_version") {
            Some(crate::text::copy_string(&self.engine_version))
        } else {
            None
        }
    }

    /// Changes a setting. A package manager is stored under its own name; an
    /// engine version must be `latest` or a release version. On an error the
    /// configuration is unchanged.
    pub fn set(&mut self, key: &str, value: &str) -> (r: Result<(), CliError>)
        ensures
            is_manager_key(key@) ==> match manager_named(value@) {
                Some(m) => r is Ok && final(self).package_manager@ == manager_label(m)
                    && final(self).engine_version == old(self).engine_version,
                None => (r matches Err(e) && e@ == subject_error(
                    ErrorKind::UnsupportedPackageManager,
                    value@,
                )) && *final(self) == *old(self),
            },
            is_version_key(key@) ==> if valid_engine_version(value@) {
                r is Ok && final(self).engine_version@ == value@ && final(self).package_manager
                    == old(self).package_manager
            } else {
                r is Err && *final(self) == *old(self)
            },
            !is_manager_key(key@) && !is_version_key(key@) ==> (r matches Err(e) && e@
                == subject_error(ErrorKind::UnsupportedConfigKey, key@)) && *final(self) == *old(
                self,
            ),
            valid_config(*old(self)) ==> valid_config(*final(self)),
            r is Ok <==> set_outcome(*old(self), key@, value@) is Some,
            r is Ok ==> config_fields(*final(self)) == set_outcome(*old(self), key@, value@).unwrap(),
    {
        proof {
            lemma_keys_distinct(key@);
        }
        if str_equal(key, "package-manager") || str_equal(key, "package_manager") {
            let manager = PackageManager::parse(value)?;
            self.package_manager = string_from(manager.as_str());
            proof {
                crate::package_manager::lemma_manager_name_round_trip(manager);
            }
            Ok(())
        } else if str_equal(key, "engine-version") || str_equal(key, "engine_version") {
            validate_engine_version(value)?;
            self.engine_version = string_from(value);
            Ok(())
        } else {
            Err(CliError::about(ErrorKind::UnsupportedConfigKey, key))
        }
    }

    /// The settings under their dashed names.
    pub fn entries(&self) -> (r: [(&'static str, &str); 2])
        ensures
            r[0].0@ == "package-manager"@,
            r[0].1@ == self.package_manager@,
            r[1].0@ == "engine-version"@,
            r[1].1@ == self.engine_version@,
    {
        [("package-manager", self.package_manager.as_str()), ("engine-version", self.engine_version.as_str())]
    }

    /// Checks a configuration read from disk or about to be written.
    pub fn validate(&self) -> (r: Result<(), CliError>)
        ensures
            r is Ok <==> valid_config(*self),
            manager_named(self.package_manager@) is None ==> (r matches Err(e) && e@
                == subject_error(ErrorKind::UnsupportedPackageManager, self.package_manager@)),
    {
        PackageManager::parse(self.package_manager.as_str())?;
        validate_engine_version(self.engine_version.as_str())?;
        Ok(())
    }
}

} // verus!
