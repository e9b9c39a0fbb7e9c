use bornengine_cli::package_manager::PackageManager;
use bornengine_cli::platform::{resolve_target, HostPlatform, PerryCapabilities, TargetRequest};
use bornengine_cli::process::{
    display_command, ensure_success, perry_check_args, perry_compile_args, perry_dev_args,
};

#[test]
fn package_manager_aliases_parse_without_requiring_installation() {
    assert_eq!(PackageManager::parse("pnpm").unwrap(), PackageManager::Pnpm);
    assert_eq!(PackageManager::parse("npm").unwrap(), PackageManager::Npm);
    assert_eq!(PackageManager::parse("yarn").unwrap(), PackageManager::Yarn);
    assert_eq!(
        PackageManager::parse("PM").unwrap_err().message(),
        "unsupported package manager `PM`"
    );
}

#[test]
fn package_manager_install_commands_are_argument_arrays() {
    assert_eq!(PackageManager::Pnpm.install_args(), ["install"]);
    assert_eq!(PackageManager::Npm.install_args(), ["install"]);
    assert_eq!(PackageManager::Yarn.install_args(), ["install"]);
}

#[test]
fn compile_args_use_perrys_long_output_flag_and_target() {
    let target = resolve_target(
        &TargetRequest {
            os: Some("windows".to_owned()),
            target: None,
        },
        &PerryCapabilities::from_compile_help("Target platform: windows (default: native)"),
        HostPlatform::Linux,
    )
    .unwrap();
    let args = perry_compile_args("main.ts", ".bornengine/builds/my-game.exe", &target, false);

    assert_eq!(
        args,
        [
            "compile",
            "main.ts",
            "--output",
            ".bornengine/builds/my-game.exe",
            "--target",
            "windows"
        ]
    );
}

#[test]
fn macos_compile_uses_perrys_native_host_target() {
    let target = resolve_target(
        &TargetRequest {
            os: None,
            target: None,
        },
        &PerryCapabilities::default(),
        HostPlatform::MacOS,
    )
    .unwrap();
    let args = perry_compile_args("main.ts", ".bornengine/builds/game", &target, false);

    assert_eq!(
        args,
        ["compile", "main.ts", "--output", ".bornengine/builds/game"]
    );
}

#[test]
fn compile_args_preserve_an_exact_target_not_known_to_the_cli() {
    let target = resolve_target(
        &TargetRequest {
            os: None,
            target: Some("android-arm64".to_owned()),
        },
        &PerryCapabilities::from_compile_help("Target platform: android-arm64 (default: native)"),
        HostPlatform::Linux,
    )
    .unwrap();
    let args = perry_compile_args("main.ts", "build/game", &target, false);

    assert_eq!(
        args,
        [
            "compile",
            "main.ts",
            "--output",
            "build/game",
            "--target",
            "android-arm64"
        ]
    );
}

#[test]
fn check_and_dev_arguments_keep_entry_and_output_separate() {
    assert_eq!(
        perry_check_args("src/main.ts", Some("web"), false),
        ["check", "src/main.ts", "--target", "web"]
    );
    assert_eq!(
        perry_dev_args("main.ts", ".bornengine/builds/game", false),
        ["dev", "main.ts", "--output", ".bornengine/builds/game"]
    );
}

#[test]
fn package_manager_names_round_trip() {
    for manager in [PackageManager::Pnpm, PackageManager::Npm, PackageManager::Yarn] {
        assert_eq!(PackageManager::parse(manager.as_str()).unwrap(), manager);
        assert_eq!(manager.executable(), manager.as_str());
    }
}

#[test]
fn verbose_perry_commands_end_with_the_verbose_flag() {
    assert_eq!(
        perry_dev_args("main.ts", "out/game", true),
        ["dev", "main.ts", "--output", "out/game", "-v"]
    );
    assert_eq!(perry_check_args("main.ts", None, true), ["check", "main.ts", "-v"]);
}

#[test]
fn displayed_commands_quote_arguments_with_spaces() {
    let args = vec![
        "compile".to_owned(),
        "my game/main.ts".to_owned(),
        "say \"hi\" now".to_owned(),
    ];
    assert_eq!(
        display_command("perry", &args),
        "perry compile \"my game/main.ts\" \"say \\\"hi\\\" now\""
    );
    assert_eq!(display_command("perry", &Vec::new()), "perry");
}

#[test]
fn failed_commands_report_stderr_then_stdout_then_status() {
    assert!(ensure_success("perry compile", true, "", "", "exit status: 0").is_ok());
    assert_eq!(
        ensure_success("perry compile", false, "out", "  broken  \n", "exit status: 1")
            .unwrap_err()
            .message(),
        "`perry compile` failed: broken"
    );
    assert_eq!(
        ensure_success("perry compile", false, " only out ", "", "exit status: 1")
            .unwrap_err()
            .message(),
        "`perry compile` failed: only out"
    );
    assert_eq!(
        ensure_success("perry compile", false, "", " ", "exit status: 2")
            .unwrap_err()
            .message(),
        "`perry compile` exited with status exit status: 2"
    );
}
