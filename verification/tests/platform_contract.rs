use bornengine_cli::platform::{
    resolve_target, BuildTarget, HostPlatform, PerryCapabilities, ResolvedTarget, TargetRequest,
};

fn capabilities() -> PerryCapabilities {
    PerryCapabilities::from_compile_help(
        "--target <TARGET>\nTarget platform: ios-simulator, ios, visionos, android, web, wasm, windows, linux (default: native host)",
    )
}

#[test]
fn parses_targets_advertised_by_perry() {
    let selected = resolve_target(
        &TargetRequest {
            os: None,
            target: Some("ios-simulator".to_owned()),
        },
        &capabilities(),
        HostPlatform::Linux,
    )
    .unwrap();

    assert_eq!(selected.target, BuildTarget::IosSimulator);
    assert_eq!(selected.perry_target.as_deref(), Some("ios-simulator"));
}

#[test]
fn defaults_to_host_and_maps_friendly_linux_option() {
    let caps = capabilities();
    let implicit = resolve_target(&TargetRequest::default(), &caps, HostPlatform::Linux).unwrap();
    let explicit = resolve_target(
        &TargetRequest {
            os: Some("linux".to_owned()),
            target: None,
        },
        &caps,
        HostPlatform::Linux,
    )
    .unwrap();

    assert_eq!(implicit.target, BuildTarget::Linux);
    assert_eq!(implicit.perry_target, None);
    assert_eq!(explicit.target, BuildTarget::Linux);
    assert_eq!(explicit.perry_target.as_deref(), Some("linux"));
}

#[test]
fn implicit_host_build_does_not_require_a_named_cross_target() {
    let implicit = resolve_target(
        &TargetRequest::default(),
        &PerryCapabilities::default(),
        HostPlatform::Linux,
    )
    .unwrap();

    assert_eq!(implicit.target, BuildTarget::Linux);
    assert_eq!(implicit.perry_target, None);
}

#[test]
fn macos_uses_native_perry_target() {
    let selected = resolve_target(
        &TargetRequest {
            os: Some("macos".to_owned()),
            target: None,
        },
        &capabilities(),
        HostPlatform::MacOS,
    )
    .unwrap();

    assert_eq!(selected.target, BuildTarget::MacOS);
    assert_eq!(selected.perry_target, None);
}

#[test]
fn rejects_targets_not_advertised_by_installed_perry() {
    let result = resolve_target(
        &TargetRequest {
            os: Some("tvos".to_owned()),
            target: None,
        },
        &capabilities(),
        HostPlatform::Linux,
    );

    assert!(result.unwrap_err().message().contains("does not advertise"));
}

#[test]
fn accepts_new_exact_targets_only_when_advertised_by_perry() {
    let capabilities = PerryCapabilities::from_compile_help(
        "Target platform: android, android-arm64, linux (default: native)",
    );

    let exact = resolve_target(
        &TargetRequest {
            os: None,
            target: Some("android-arm64".to_owned()),
        },
        &capabilities,
        HostPlatform::Linux,
    )
    .unwrap();

    assert_eq!(exact.target, BuildTarget::Android);
    assert_eq!(exact.perry_target.as_deref(), Some("android-arm64"));
}

#[test]
fn rejects_cross_os_run_requests() {
    let selected = resolve_target(
        &TargetRequest {
            os: Some("windows".to_owned()),
            target: None,
        },
        &capabilities(),
        HostPlatform::Linux,
    )
    .unwrap();

    assert!(!selected.can_run_on(HostPlatform::Linux));
}

#[test]
fn output_extensions_match_perry_output_formats() {
    assert_eq!(BuildTarget::Windows.output_extension(), Some("exe"));
    assert_eq!(BuildTarget::Web.output_extension(), Some("html"));
    assert_eq!(BuildTarget::Linux.output_extension(), None);
}

#[test]
fn parses_host_operating_system_names() {
    assert_eq!(HostPlatform::parse("linux"), HostPlatform::Linux);
    assert_eq!(HostPlatform::parse("windows"), HostPlatform::Windows);
    assert_eq!(HostPlatform::parse("darwin"), HostPlatform::MacOS);
}

#[test]
fn advertised_targets_are_listed_sorted_without_duplicates() {
    let caps = PerryCapabilities::from_compile_help(
        "Target platform: web, linux, web, android (default: native)",
    );
    assert_eq!(caps.supported_targets(), ["android", "linux", "web"]);
    assert!(caps.supports("web"));
    assert!(!caps.supports("ios"));
    assert!(PerryCapabilities::from_compile_help("no targets here").supported_targets().is_empty());
}

#[test]
fn both_os_and_target_are_refused() {
    let error = resolve_target(
        &TargetRequest {
            os: Some("linux".to_owned()),
            target: Some("linux".to_owned()),
        },
        &capabilities(),
        HostPlatform::Linux,
    )
    .unwrap_err();
    assert_eq!(error.message(), "choose either `--os` or `--target`, not both");
}

#[test]
fn macos_builds_need_a_macos_host() {
    let error = resolve_target(
        &TargetRequest {
            os: Some("Darwin".to_owned()),
            target: None,
        },
        &capabilities(),
        HostPlatform::Linux,
    )
    .unwrap_err();
    assert!(error.message().contains("require a macOS host"));
}

#[test]
fn unknown_operating_systems_and_hosts_are_refused() {
    let error = resolve_target(
        &TargetRequest {
            os: Some("Plan9".to_owned()),
            target: None,
        },
        &capabilities(),
        HostPlatform::Linux,
    )
    .unwrap_err();
    assert_eq!(error.message(), "unsupported operating system `plan9`");
    let host = resolve_target(&TargetRequest::default(), &capabilities(), HostPlatform::Other)
        .unwrap_err();
    assert_eq!(host.message(), "the current host platform is not supported");
}

#[test]
fn unadvertised_exact_target_lists_what_perry_offers() {
    let caps = PerryCapabilities::from_compile_help("Target platform: web, linux (default: x)");
    let error = resolve_target(
        &TargetRequest {
            os: None,
            target: Some("tvos".to_owned()),
        },
        &caps,
        HostPlatform::Linux,
    )
    .unwrap_err();
    assert_eq!(
        error.message(),
        "installed Perry does not advertise target `tvos`; supported targets: linux, web"
    );
}

#[test]
fn perry_target_names_map_back_to_targets() {
    assert_eq!(BuildTarget::from_perry_target("ios-simulator").unwrap(), BuildTarget::IosSimulator);
    assert_eq!(BuildTarget::from_perry_target("android-arm64").unwrap(), BuildTarget::Android);
    assert_eq!(BuildTarget::from_perry_target("riscv-board").unwrap(), BuildTarget::Other);
    assert!(BuildTarget::from_perry_target("").is_err());
    assert_eq!(BuildTarget::Wasm.perry_target(), Some("wasm"));
    assert_eq!(BuildTarget::MacOS.perry_target(), None);
    assert_eq!(
        BuildTarget::from_perry_target(BuildTarget::TvOSSimulator.perry_target().unwrap()).unwrap(),
        BuildTarget::TvOSSimulator
    );
}

#[test]
fn only_native_host_builds_can_run() {
    assert!(BuildTarget::Linux.can_run_on(HostPlatform::Linux));
    assert!(BuildTarget::MacOS.can_run_on(HostPlatform::MacOS));
    assert!(!BuildTarget::Web.can_run_on(HostPlatform::Linux));
    let resolved = ResolvedTarget {
        target: BuildTarget::Windows,
        perry_target: Some("windows".to_owned()),
    };
    assert!(resolved.can_run_on(HostPlatform::Windows));
    assert_eq!(BuildTarget::Wasm.output_extension(), Some("html"));
}

#[test]
fn exact_targets_are_accepted_exactly_when_advertised() {
    let caps = capabilities();
    for name in ["wasm", "ios", "tvos", "", "android-arm64"] {
        let result = resolve_target(
            &TargetRequest {
                os: None,
                target: Some(name.to_owned()),
            },
            &caps,
            HostPlatform::Linux,
        );
        assert_eq!(result.is_ok(), caps.supports(name), "{name}");
        if let Ok(resolved) = result {
            assert_eq!(resolved.perry_target.as_deref(), Some(name));
        }
    }
}
