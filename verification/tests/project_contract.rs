use bornengine_cli::project::{package_json_text, read_package_json};
use bornengine_cli::commands::project::{project_spec_source, SpecSource};
use bornengine_cli::config::Config;
use bornengine_cli::json::JsonValue;
use bornengine_cli::project::{
    is_bornengine_project, generated_file_names, npm_project_name, project_files, project_name,
    validate_project_name, validate_spec, ProjectSpec,
};

fn release_spec() -> ProjectSpec {
    ProjectSpec {
        engine_package: "@bloomengine/engine".to_owned(),
        engine_spec: "0.4.16".to_owned(),
    }
}

fn text(value: &str) -> JsonValue {
    JsonValue::Str(value.to_owned())
}

fn object(entries: Vec<(&str, JsonValue)>) -> JsonValue {
    JsonValue::Object(
        entries
            .into_iter()
            .map(|(key, value)| (key.to_owned(), value))
            .collect(),
    )
}

#[test]
fn new_project_files_pin_the_engine_and_allow_its_native_library() {
    let files = project_files("MyGame", &release_spec()).unwrap();
    let package = &files.package;
    assert_eq!(package.get("name").unwrap().as_str().unwrap(), "my-game");
    assert_eq!(
        package
            .get("dependencies")
            .unwrap()
            .get("@bloomengine/engine")
            .unwrap()
            .as_str()
            .unwrap(),
        "0.4.16"
    );
    let allow = package
        .get("perry")
        .unwrap()
        .get("allow")
        .unwrap()
        .get("nativeLibrary")
        .unwrap();
    assert_eq!(allow, &JsonValue::Array(vec![text("@bloomengine/engine/*")]));
    assert!(files.main_ts.contains("@bloomengine/engine/core"));
    assert!(files.main_ts.contains("@bloomengine/engine/shapes"));
    assert!(files.readme.starts_with("# MyGame\n"));
    assert!(files.gitignore.contains(".bornengine/"));
    assert!(is_bornengine_project(package));
    assert_eq!(
        generated_file_names(),
        ["package.json", "main.ts", ".gitignore", "README.md"]
    );
}

#[test]
fn local_engine_spec_is_kept_in_the_generated_package() {
    let files = project_files(
        "LocalGame",
        &ProjectSpec {
            engine_package: "@bornengine/engine".to_owned(),
            engine_spec: "link:../BornEngine".to_owned(),
        },
    )
    .unwrap();
    assert_eq!(
        files
            .package
            .get("dependencies")
            .unwrap()
            .get("@bornengine/engine")
            .unwrap()
            .as_str()
            .unwrap(),
        "link:../BornEngine"
    );
    assert!(files.main_ts.contains("@bornengine/engine/core"));
}

#[test]
fn project_names_must_be_one_directory_name() {
    for name in ["MyGame", "game_2", "Space Race", "a.b"] {
        assert!(validate_project_name(name).is_ok(), "{name}");
    }
    for name in [
        "", ".", "..", "../outside", "a/b", "a\\b", "trailing.", "trailing ", "CON", "lpt1",
        "com9.txt", "what?", "tab\tname",
    ] {
        let error = validate_project_name(name).unwrap_err();
        assert!(error.message().contains("single directory name"), "{name}");
    }
    assert!(validate_project_name("com0").is_ok());
    assert!(project_files("../outside", &release_spec()).is_err());
}

#[test]
fn npm_names_are_kebab_case() {
    assert_eq!(npm_project_name("MyGame").unwrap(), "my-game");
    assert_eq!(npm_project_name("Space Race 2").unwrap(), "space-race-2");
    assert_eq!(npm_project_name("my_game").unwrap(), "my_game");
    assert!(npm_project_name("!!!").is_err());
}

#[test]
fn engine_specs_must_name_the_engine_and_a_version() {
    assert!(validate_spec(&release_spec()).is_ok());
    let other = ProjectSpec {
        engine_package: "left-pad".to_owned(),
        engine_spec: "1.0.0".to_owned(),
    };
    assert_eq!(
        validate_spec(&other).unwrap_err().message(),
        "unsupported BornEngine package name `left-pad`"
    );
    let blank = ProjectSpec {
        engine_package: "@bornengine/engine".to_owned(),
        engine_spec: "  ".to_owned(),
    };
    assert_eq!(
        validate_spec(&blank).unwrap_err().message(),
        "engine dependency specification cannot be empty"
    );
}

#[test]
fn does_not_treat_an_unrelated_package_as_a_bornengine_project() {
    let package = object(vec![
        ("name", text("other-tool")),
        ("dependencies", object(vec![("left-pad", text("1.0.0"))])),
    ]);
    assert!(!is_bornengine_project(&package));
    assert_eq!(project_name(&package).as_deref(), Some("other-tool"));
}

#[test]
fn projects_are_recognized_by_dependency_or_perry_settings() {
    let dev = object(vec![(
        "devDependencies",
        object(vec![("@bornengine/engine", text("0.5.0"))]),
    )]);
    assert!(is_bornengine_project(&dev));
    let module = object(vec![(
        "perry",
        object(vec![(
            "nativeLibrary",
            object(vec![("module", text("@bloomengine/engine"))]),
        )]),
    )]);
    assert!(is_bornengine_project(&module));
    let allow = object(vec![(
        "perry",
        object(vec![(
            "allow",
            object(vec![(
                "nativeLibrary",
                JsonValue::Array(vec![text("other/*"), text("@bornengine/engine/*")]),
            )]),
        )]),
    )]);
    assert!(is_bornengine_project(&allow));
    assert_eq!(project_name(&allow), None);
}

#[test]
fn rejects_project_names_that_can_escape_the_parent_directory() {
    let error = project_files("../outside", &release_spec()).unwrap_err();

    assert!(error.message().contains("single directory name"));
}

#[test]
fn existing_project_files_are_found_before_writing() {
    let mut existing = bornengine_cli::string_set::StringSet::new();
    existing.insert("notes.txt".to_owned());
    assert_eq!(bornengine_cli::project::existing_generated_file(&existing), None);
    existing.insert("README.md".to_owned());
    existing.insert("main.ts".to_owned());
    assert_eq!(
        bornengine_cli::project::existing_generated_file(&existing),
        Some("main.ts")
    );
}

#[test]
fn malformed_project_metadata_is_reported_instead_of_being_silently_skipped() {
    let error = bornengine_cli::project::read_package_json("/work/game/package.json", "{not json")
        .unwrap_err();

    assert!(error.message().contains("invalid JSON"));
}

#[test]
fn package_json_text_is_read_and_written() {
    let package = read_package_json(
        "package.json",
        r#"{"name":"game","version":"0.1.0","count":12,"dependencies":{"@bornengine/engine":"0.5.0"}}"#,
    )
    .unwrap();
    assert_eq!(package.get("name").unwrap().as_str().unwrap(), "game");
    assert_eq!(package.get("count").unwrap(), &JsonValue::Number("12".to_owned()));
    let written = package_json_text("package.json", &package).unwrap();
    assert!(written.starts_with("{\n  \""));
    assert!(written.ends_with("}\n"));
    assert!(written.contains("\"@bornengine/engine\": \"0.5.0\""));
    assert_eq!(
        read_package_json("package.json", &written).unwrap(),
        package
    );
    let bad = object(vec![("n", JsonValue::Number("twelve".to_owned()))]);
    assert_eq!(
        package_json_text("package.json", &bad).unwrap_err().message(),
        "a number in package.json is not a valid JSON number"
    );
}

#[test]
fn a_new_project_takes_its_engine_from_a_path_before_the_registry() {
    let config = Config::default();
    assert_eq!(
        project_spec_source(Some("0.5.0"), Some("../Engine"), Some("/env/Engine"), &config),
        SpecSource::LocalPath("../Engine".to_owned())
    );
    assert_eq!(
        project_spec_source(Some("0.5.0"), None, Some("/env/Engine"), &config),
        SpecSource::LocalPath("/env/Engine".to_owned())
    );
    assert_eq!(
        project_spec_source(Some("0.5.0"), None, None, &config),
        SpecSource::Registry("0.5.0".to_owned())
    );
    assert_eq!(
        project_spec_source(None, None, None, &config),
        SpecSource::Registry("latest".to_owned())
    );
}
