//! The `config` command: what it changes in the settings and what it reports.
use crate::cli::ConfigCommands;
use crate::config::{config_fields, is_manager_key, is_version_key, set_outcome, setting_in, Config};
use crate::error::{subject_error, CliError, ErrorKind};
use crate::string_set::string_views;
use crate::text::{append_str, string_from};
use vstd::prelude::*;

verus! {

/// What a `config` command prints, and whether the settings must be saved.
#[derive(Debug)]
pub struct ConfigReport {
    pub lines: Vec<String>,
    pub save: bool,
}

/// `key = value`.
pub open spec fn setting_line(key: Seq<char>, value: Seq<char>) -> Seq<char> {
    key + " = "@ + value
}

fn line_of(key: &str, value: &str) -> (r: String)
    ensures
        r@ == setting_line(key@, value@),
{
    let mut s = string_from(key);
    append_str(&mut s, " = ");
    append_str(&mut s, value);
    s
}

/// Runs a `config` command on the settings read from disk. `set` changes them
/// as `Config::set` does and asks for them to be saved; `get` reports one
/// value, or fails on an unknown key; `list` reports both settings.
pub fn execute(command: &ConfigCommands, config: &mut Config) -> (r: Result<ConfigReport, CliError>)
    ensures
        match command {
            ConfigCommands::SetValue { key, value } => match set_outcome(*old(config), key@, value@) {
                Some(f) => (r matches Ok(rep) && rep.save && string_views(rep.lines@) == seq![
                    "Set "@ + setting_line(key@, value@),
                ]) && config_fields(*final(config)) == f,
                None => {
                    &&& r is Err
                    &&& *final(config) == *old(config)
                    &&& !is_manager_key(key@) && !is_version_key(key@) ==> (r matches Err(e) && e@
                        == subject_error(ErrorKind::UnsupportedConfigKey, key@))
                    &&& is_manager_key(key@) ==> (r matches Err(e) && e@ == subject_error(
                        ErrorKind::UnsupportedPackageManager,
                        value@,
                    ))
                },
            },
            ConfigCommands::Get { key } => {
                &&& *final(config) == *old(config)
                &&& match setting_in(config_fields(*old(config)), key@) {
                    Some(v) => (r matches Ok(rep) && !rep.save && string_views(rep.lines@)
                        == seq![v]),
                    None => (r matches Err(e) && e@ == subject_error(
                        ErrorKind::UnsupportedConfigKey,
                        key@,
                    )),
                }
            },
            ConfigCommands::List => {
                &&& *final(config) == *old(config)
                &&& r matches Ok(rep) && !rep.save && string_views(rep.lines@) == seq![
                    setting_line("package-manager"@, old(config).package_manager@),
                    setting_line("engine-version"@, old(config).engine_version@),
                ]
            },
        },
{
    match command {
        ConfigCommands::SetValue { key, value } => {
            config.set(key.as_str(), value.as_str())?;
            let mut line = string_from("Set ");
            append_str(&mut line, line_of(key.as_str(), value.as_str()).as_str());
            let mut lines: Vec<String> = Vec::new();
            lines.push(line);
            assert(string_views(lines@) =~= seq!["Set "@ + setting_line(key@, value@)]);
            Ok(ConfigReport { lines, save: true })
        },
        ConfigCommands::Get { key } => {
            proof {
                crate::config::lemma_keys_distinct(key@);
            }
            match config.get(key.as_str()) {
                Some(v) => {
                    let mut lines: Vec<String> = Vec::new();
                    let ghost vv = v@;
                    lines.push(v);
                    assert(string_views(lines@) =~= seq![vv]);
                    Ok(ConfigReport { lines, save: false })
                },
                None => Err(CliError::about(ErrorKind::UnsupportedConfigKey, key.as_str())),
            }
        },
        ConfigCommands::List => {
            let entries = config.entries();
            let mut lines: Vec<String> = Vec::new();
            lines.push(line_of(entries[0].0, entries[0].1));
            lines.push(line_of(entries[1].0, entries[1].1));
            assert(string_views(lines@) =~= seq![
                setting_line("package-manager"@, config.package_manager@),
                setting_line("engine-version"@, config.engine_version@),
            ]);
            Ok(ConfigReport { lines, save: false })
        },
    }
}

} // verus!
