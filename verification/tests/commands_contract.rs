use bornengine_cli::commands::build::{
    compiler_objects, derive_output_name, is_perry_object_name, new_compiler_objects,
    sanitize_output_name, target_label, validate_run_target,
};
use bornengine_cli::commands::config::execute as config_execute;
use bornengine_cli::commands::create::{
    require_interactive, start_wizard, wizard_step, CreateChoices, Prompt, WizardAnswer,
    WizardRequest, WizardState,
};
use bornengine_cli::cli::ConfigCommands;
use bornengine_cli::config::Config;
use bornengine_cli::engine::EngineRelease;
use bornengine_cli::error::CliError;
use bornengine_cli::json::JsonValue;
use bornengine_cli::package_manager::PackageManager;
use bornengine_cli::platform::{BuildTarget, HostPlatform, ResolvedTarget};
use bornengine_cli::string_set::StringSet;
use bornengine_cli::ui::{paint_with_colors, paint_with_colors_for_stderr, Tone};

fn object(entries: Vec<(&str, JsonValue)>) -> JsonValue {
    JsonValue::Object(
        entries
            .into_iter()
            .map(|(key, value)| (key.to_owned(), value))
            .collect(),
    )
}

#[test]
fn output_name_prefers_explicit_then_project_then_entry_name() {
    let entry = "/tmp/project/src/main.ts";
    let package = object(vec![("name", JsonValue::Str("game-project".to_owned()))]);

    assert_eq!(
        derive_output_name(Some("custom-build"), &package, entry).unwrap(),
        "custom-build"
    );
    assert_eq!(derive_output_name(None, &package, entry).unwrap(), "game-project");
    assert_eq!(derive_output_name(None, &object(vec![]), entry).unwrap(), "main");
}

#[test]
fn output_name_rejects_paths_and_empty_names() {
    let entry = "main.ts";
    assert!(derive_output_name(Some("../outside"), &object(vec![]), entry).is_err());
    assert!(derive_output_name(Some(""), &object(vec![]), entry).is_err());
}

#[test]
fn run_validation_rejects_non_host_targets_before_process_execution() {
    let target = ResolvedTarget {
        target: BuildTarget::Windows,
        perry_target: Some("windows".to_owned()),
    };
    assert!(validate_run_target(&target, HostPlatform::Linux).is_err());
    assert!(validate_run_target(&target, HostPlatform::Windows).is_ok());
}

#[test]
fn run_refusal_names_the_target_and_the_host() {
    let target = ResolvedTarget {
        target: BuildTarget::Web,
        perry_target: None,
    };
    assert_eq!(
        validate_run_target(&target, HostPlatform::Linux).unwrap_err().message(),
        "target `web` cannot be run on the current `linux` host"
    );
    assert_eq!(target_label(&target), "web");
}

#[test]
fn project_names_become_lowercase_output_names() {
    assert_eq!(sanitize_output_name("My Great Game!"), "my-great-game");
    assert_eq!(sanitize_output_name("--Space..Race--"), "space..race");
    assert_eq!(sanitize_output_name("***"), "");
    let package = object(vec![("name", JsonValue::Str("@scope/Fancy Name".to_owned()))]);
    assert_eq!(derive_output_name(None, &package, "main.ts").unwrap(), "scope-fancy-name");
}

#[test]
fn identifies_only_perry_compiled_typescript_object_names() {
    assert!(is_perry_object_name("main_ts.o"));
    assert!(is_perry_object_name("module_tsx.o"));
    assert!(!is_perry_object_name("custom.o"));
    assert!(!is_perry_object_name("main.ts"));
}

#[test]
fn only_new_perry_objects_are_moved_after_a_watched_build() {
    let before = compiler_objects(&vec![
        "old_ts.o".to_owned(),
        "notes.txt".to_owned(),
        "lib.o".to_owned(),
    ]);
    assert_eq!(before.to_vec(), ["old_ts.o"]);
    let after = vec![
        "old_ts.o".to_owned(),
        "main_ts.o".to_owned(),
        "ui_tsx.o".to_owned(),
        "helper.o".to_owned(),
    ];
    assert_eq!(new_compiler_objects(&after, &before), ["main_ts.o", "ui_tsx.o"]);
    assert_eq!(new_compiler_objects(&after, &StringSet::new()).len(), 3);
}

#[test]
fn config_command_sets_gets_and_lists() {
    let mut config = Config::default();
    let report = config_execute(
        &ConfigCommands::SetValue {
            key: "package-manager".to_owned(),
            value: "yarn".to_owned(),
        },
        &mut config,
    )
    .unwrap();
    assert!(report.save);
    assert_eq!(report.lines, ["Set package-manager = yarn"]);
    let got = config_execute(
        &ConfigCommands::Get {
            key: "package_manager".to_owned(),
        },
        &mut config,
    )
    .unwrap();
    assert!(!got.save);
    assert_eq!(got.lines, ["yarn"]);
    let listed = config_execute(&ConfigCommands::List, &mut config).unwrap();
    assert_eq!(
        listed.lines,
        ["package-manager = yarn", "engine-version = latest"]
    );
    let unknown = config_execute(
        &ConfigCommands::Get {
            key: "theme".to_owned(),
        },
        &mut config,
    )
    .unwrap_err();
    assert_eq!(unknown.message(), "unsupported configuration key `theme`");
}

#[test]
fn styling_can_be_disabled_for_plain_terminal_output() {
    assert_eq!(paint_with_colors("Done", Tone::Success, false), "Done");
}

#[test]
fn semantic_styles_preserve_text_and_can_emit_terminal_colors() {
    let rendered = paint_with_colors("Build completed", Tone::Success, true);

    assert!(rendered.contains("\u{1b}["));
    assert_eq!(console::strip_ansi_codes(&rendered), "Build completed");
}

#[test]
fn stderr_styles_are_applied_to_the_stderr_stream() {
    let rendered = paint_with_colors_for_stderr("Failure", Tone::Error, true);

    assert!(rendered.contains("\u{1b}["));
    assert_eq!(console::strip_ansi_codes(&rendered), "Failure");
}

#[test]
fn each_tone_has_its_escape_sequences() {
    assert_eq!(
        paint_with_colors("Title", Tone::Heading, true),
        "\u{1b}[36m\u{1b}[1mTitle\u{1b}[0m"
    );
    assert_eq!(
        paint_with_colors("careful", Tone::Warning, true),
        "\u{1b}[33mcareful\u{1b}[0m"
    );
    assert_eq!(
        paint_with_colors_for_stderr("x", Tone::Accent, true),
        "\u{1b}[34m\u{1b}[1mx\u{1b}[0m"
    );
    assert_eq!(paint_with_colors_for_stderr("x", Tone::Info, false), "x");
}

// The wizard, driven by scripted answers.

struct SelectionCall {
    prompt: String,
    options: Vec<String>,
    default: usize,
}

struct FakePrompts {
    name: String,
    selections: Vec<usize>,
    calls: Vec<SelectionCall>,
}

fn collect_choices(
    config: &Config,
    releases: &Vec<EngineRelease>,
    prompts: &mut FakePrompts,
) -> Result<CreateChoices, CliError> {
    let (mut state, mut request) = start_wizard(releases)?;
    loop {
        let answer = match request {
            WizardRequest::AskText(_) => WizardAnswer::Text(prompts.name.clone()),
            WizardRequest::Select(Prompt {
                title,
                options,
                default,
            }) => {
                prompts.calls.push(SelectionCall {
                    prompt: title,
                    options,
                    default,
                });
                WizardAnswer::Selected(prompts.selections.remove(0))
            }
            WizardRequest::Done(choices) => return Ok(choices),
        };
        let (next_state, next_request) = wizard_step(state, answer, config, releases)?;
        state = next_state;
        request = next_request;
    }
}

fn releases() -> Vec<EngineRelease> {
    vec![
        EngineRelease {
            package_name: "@bornengine/engine".to_owned(),
            version: "0.4.16".to_owned(),
        },
        EngineRelease {
            package_name: "@bornengine/engine".to_owned(),
            version: "0.4.15".to_owned(),
        },
    ]
}

#[test]
fn wizard_uses_configured_defaults_and_returns_the_selected_release() {
    let config = Config {
        package_manager: "npm".to_owned(),
        engine_version: "0.4.15".to_owned(),
    };
    let releases = releases();
    let mut prompts = FakePrompts {
        name: "MyGame".to_owned(),
        selections: vec![2, 0],
        calls: Vec::new(),
    };

    let choices = collect_choices(&config, &releases, &mut prompts).unwrap();

    assert_eq!(choices.project_name, "MyGame");
    assert_eq!(choices.package_manager, PackageManager::Yarn);
    assert_eq!(choices.engine_release, releases[0]);
    assert_eq!(prompts.calls[0].prompt, "Package manager");
    assert_eq!(prompts.calls[0].options, ["pnpm", "npm", "yarn"]);
    assert_eq!(prompts.calls[0].default, 1);
    assert_eq!(prompts.calls[1].prompt, "BornEngine version");
    assert!(prompts.calls[1].options[0].contains("0.4.16"));
    assert!(prompts.calls[1].options[1].contains("0.4.15"));
    assert_eq!(prompts.calls[1].default, 1);
}

#[test]
fn unavailable_configured_version_defaults_to_the_first_published_release() {
    let config = Config {
        package_manager: "pnpm".to_owned(),
        engine_version: "0.1.0".to_owned(),
    };
    let mut prompts = FakePrompts {
        name: "MyGame".to_owned(),
        selections: vec![0, 0],
        calls: Vec::new(),
    };

    collect_choices(&config, &releases(), &mut prompts).unwrap();

    assert_eq!(prompts.calls[0].default, 0);
    assert_eq!(prompts.calls[1].default, 0);
}

#[test]
fn invalid_project_name_is_rejected_before_showing_selectors() {
    let mut prompts = FakePrompts {
        name: "../escape".to_owned(),
        selections: Vec::new(),
        calls: Vec::new(),
    };

    let error = collect_choices(&Config::default(), &releases(), &mut prompts).unwrap_err();

    assert!(error.message().contains("single directory name"));
    assert!(prompts.calls.is_empty());
}

#[test]
fn empty_release_list_fails_before_prompting() {
    let mut prompts = FakePrompts {
        name: "MyGame".to_owned(),
        selections: Vec::new(),
        calls: Vec::new(),
    };

    let error = collect_choices(&Config::default(), &Vec::new(), &mut prompts).unwrap_err();

    assert!(error.message().contains("stable BornEngine releases"));
    assert!(prompts.calls.is_empty());
}

#[test]
fn create_requires_a_terminal_and_points_to_the_noninteractive_command() {
    let error = require_interactive(false).unwrap_err();

    assert!(error.message().contains("bornengine new"));
}

#[test]
fn wizard_marks_the_newest_release_and_refuses_out_of_range_selections() {
    let config = Config::default();
    let releases = releases();
    let (state, _) = start_wizard(&releases).unwrap();
    let (state, _) =
        wizard_step(state, WizardAnswer::Text("Game".to_owned()), &config, &releases).unwrap();
    assert!(matches!(state, WizardState::NeedManager { .. }));
    let error = wizard_step(state, WizardAnswer::Selected(3), &config, &releases).unwrap_err();
    assert_eq!(
        error.message(),
        "package-manager selection is outside the available options"
    );
    let (state, request) = wizard_step(
        WizardState::NeedManager {
            project_name: "Game".to_owned(),
        },
        WizardAnswer::Selected(0),
        &config,
        &releases,
    )
    .unwrap();
    match request {
        WizardRequest::Select(prompt) => assert_eq!(
            prompt.options,
            [
                "0.4.16 (@bornengine/engine) \u{2014} latest",
                "0.4.15 (@bornengine/engine)"
            ]
        ),
        _ => panic!("expected the version selection"),
    }
    let error = wizard_step(state, WizardAnswer::Selected(2), &config, &releases).unwrap_err();
    assert!(error.message().contains("version selection is outside"));
    assert!(wizard_step(WizardState::Finished, WizardAnswer::Selected(0), &config, &releases).is_err());
}
