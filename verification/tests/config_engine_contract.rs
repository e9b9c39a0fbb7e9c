use bornengine_cli::engine::registry_metadata;
use bornengine_cli::json::read_json_document;
use bornengine_cli::config::Config;
use bornengine_cli::engine::{
    local_engine_dependency, engine_dependency, engine_package_from_manifest, remove_engine_dependency,
    select_engine_release, set_engine_dependency, stable_releases, EngineDependency,
    EngineRelease, RegistryMetadata,
};
use bornengine_cli::json::JsonValue;
use bornengine_cli::package_manager::PackageManager;

fn text(value: &str) -> JsonValue {
    JsonValue::Str(value.to_owned())
}

fn object(entries: Vec<(&str, JsonValue)>) -> JsonValue {
    JsonValue::Object(
        entries
            .into_iter()
            .map(|(key, value)| (key.to_owned(), value))
            .collect(),
    )
}

fn metadata(versions: &[&str], latest: Option<&str>) -> RegistryMetadata {
    RegistryMetadata {
        versions: Some(versions.iter().map(|v| (*v).to_owned()).collect()),
        latest_tag: latest.map(str::to_owned),
    }
}

fn member<'a>(value: &'a JsonValue, key: &str) -> Option<&'a JsonValue> {
    value.get(key)
}

#[test]
fn config_defaults_to_pnpm_and_latest_engine() {
    assert_eq!(Config::default().package_manager, "pnpm");
    assert_eq!(Config::default().engine_version, "latest");
}

#[test]
fn rejects_unknown_config_keys_and_invalid_package_managers() {
    let mut config = Config::default();
    assert!(config.set("other", "value").is_err());
    assert!(config.set("package-manager", "bun").is_err());
}

#[test]
fn config_values_that_are_set_are_read_back() {
    let mut config = Config::default();
    config.set("package-manager", "npm").unwrap();
    config.set("engine_version", "0.5.0").unwrap();
    assert_eq!(config.get("package-manager").as_deref(), Some("npm"));
    assert_eq!(config.get("package_manager").as_deref(), Some("npm"));
    assert_eq!(config.get("engine-version").as_deref(), Some("0.5.0"));
    assert_eq!(config.get("colour"), None);
    let entries = config.entries();
    assert_eq!(entries, [("package-manager", "npm"), ("engine-version", "0.5.0")]);
    assert!(config.validate().is_ok());
}

#[test]
fn config_refuses_unstable_or_malformed_engine_versions_and_keeps_its_values() {
    let mut config = Config::default();
    assert_eq!(
        config.set("engine-version", "0.6.0-rc.1").unwrap_err().message(),
        "engine version must be a stable release without prerelease or build metadata"
    );
    assert_eq!(
        config.set("engine-version", "soon").unwrap_err().message(),
        "engine version must be `latest` or an exact semantic version, got `soon`"
    );
    assert_eq!(config, Config::default());
    config.set("engine-version", "latest").unwrap();
    assert_eq!(config.engine_version, "latest");
}

#[test]
fn selects_latest_stable_release_and_prefers_the_new_namespace() {
    // Registry documents list `versions` in key order.
    let bornengine = metadata(&["0.10.0", "0.9.0", "1.0.0-beta.1"], Some("1.0.0-beta.1"));
    let legacy = metadata(&["0.8.0"], Some("0.8.0"));

    let release = select_engine_release(Some(&bornengine), Some(&legacy), None).unwrap();

    assert_eq!(
        release,
        EngineRelease {
            package_name: "@bornengine/engine".to_owned(),
            version: "0.10.0".to_owned()
        }
    );
}

#[test]
fn falls_back_to_legacy_package_when_new_namespace_is_unpublished() {
    let legacy = metadata(&["0.4.16"], Some("0.4.16"));

    let release = select_engine_release(None, Some(&legacy), None).unwrap();

    assert_eq!(release.package_name, "@bloomengine/engine");
    assert_eq!(release.version, "0.4.16");
}

#[test]
fn selects_exact_stable_version_only_if_it_exists() {
    let metadata = metadata(&["0.5.0", "0.6.0-rc.1"], None);
    let release = select_engine_release(Some(&metadata), None, Some("0.5.0")).unwrap();
    assert_eq!(release.version, "0.5.0");
    assert_eq!(
        select_engine_release(Some(&metadata), None, Some("latest"))
            .unwrap()
            .version,
        "0.5.0"
    );
    assert!(select_engine_release(Some(&metadata), None, Some("0.6.0-rc.1")).is_err());
}

#[test]
fn recognizes_only_current_or_legacy_engine_package_names() {
    assert_eq!(
        engine_package_from_manifest(&object(vec![("name", text("@bornengine/engine"))])).unwrap(),
        "@bornengine/engine"
    );
    assert_eq!(
        engine_package_from_manifest(&object(vec![("name", text("@bloomengine/engine"))])).unwrap(),
        "@bloomengine/engine"
    );
    assert!(engine_package_from_manifest(&object(vec![("name", text("other"))])).is_err());
}

#[test]
fn missing_engine_metadata_has_an_actionable_registry_error() {
    let error = select_engine_release(None, None, None).unwrap_err();
    assert!(error.message().contains("npm registry"));
}

#[test]
fn local_checkout_uses_the_package_name_and_package_manager_path_protocol() {
    let manifest = object(vec![
        ("name", text("@bornengine/engine")),
        ("version", text("0.5.0")),
    ]);
    let project = "/work/games/TestGame";
    let engine = "/work/games/BornEngine";

    let pnpm = local_engine_dependency(&manifest, engine, project, PackageManager::Pnpm).unwrap();
    let npm = local_engine_dependency(&manifest, engine, project, PackageManager::Npm).unwrap();
    let yarn = local_engine_dependency(&manifest, engine, project, PackageManager::Yarn).unwrap();

    assert_eq!(pnpm.package_name, "@bornengine/engine");
    assert_eq!(pnpm.spec, "link:../BornEngine");
    assert_eq!(npm.spec, "file:../BornEngine");
    assert_eq!(yarn.spec, "file:../BornEngine");
}

#[test]
fn local_checkout_inside_the_project_and_on_other_roots() {
    let manifest = object(vec![("name", text("@bloomengine/engine"))]);
    let inside =
        local_engine_dependency(&manifest, "/work/Game/vendor/engine", "/work/Game", PackageManager::Npm)
            .unwrap();
    assert_eq!(inside.spec, "file:vendor/engine");
    let cousin =
        local_engine_dependency(&manifest, "/a/x/y", "/a/b/c", PackageManager::Pnpm).unwrap();
    assert_eq!(cousin.spec, "link:../../x/y");
    let same = local_engine_dependency(&manifest, "/a/b", "/a/b", PackageManager::Yarn).unwrap();
    assert_eq!(same.spec, "file:.");
    let unnamed = object(vec![("version", text("1.0.0"))]);
    assert_eq!(
        local_engine_dependency(&unnamed, "/a", "/b", PackageManager::Npm)
            .unwrap_err()
            .message(),
        "engine package.json is missing a string `name`"
    );
}

#[test]
fn engine_dependency_update_preserves_other_dependencies_and_remove_is_scoped() {
    let mut package = object(vec![
        (
            "dependencies",
            object(vec![
                ("@bloomengine/engine", text("0.4.16")),
                ("left-pad", text("1.3.0")),
            ]),
        ),
        ("devDependencies", object(vec![("test-tool", text("2.0.0"))])),
    ]);

    set_engine_dependency(
        &mut package,
        &EngineDependency {
            package_name: "@bornengine/engine".to_owned(),
            spec: "0.5.0".to_owned(),
        },
    )
    .unwrap();
    let dependencies = member(&package, "dependencies").unwrap();
    assert_eq!(
        member(dependencies, "@bornengine/engine").unwrap().as_str().unwrap(),
        "0.5.0"
    );
    assert!(member(dependencies, "@bloomengine/engine").is_none());
    assert_eq!(member(dependencies, "left-pad").unwrap().as_str().unwrap(), "1.3.0");

    let removed = remove_engine_dependency(&mut package).unwrap().unwrap();
    assert_eq!(removed.package_name, "@bornengine/engine");
    let dependencies = member(&package, "dependencies").unwrap();
    assert!(member(dependencies, "@bornengine/engine").is_none());
    assert_eq!(member(dependencies, "left-pad").unwrap().as_str().unwrap(), "1.3.0");
    assert_eq!(
        member(member(&package, "devDependencies").unwrap(), "test-tool")
            .unwrap()
            .as_str()
            .unwrap(),
        "2.0.0"
    );
}

#[test]
fn a_dependency_that_was_set_is_read_back() {
    let mut package = object(vec![("name", text("game"))]);
    set_engine_dependency(
        &mut package,
        &EngineDependency {
            package_name: "@bornengine/engine".to_owned(),
            spec: "link:../BornEngine".to_owned(),
        },
    )
    .unwrap();
    let declared = engine_dependency(&package).unwrap().unwrap();
    assert_eq!(declared.package_name, "@bornengine/engine");
    assert_eq!(declared.spec, "link:../BornEngine");
    assert_eq!(remove_engine_dependency(&mut package).unwrap().unwrap(), declared);
    assert_eq!(engine_dependency(&package).unwrap(), None);
    assert_eq!(remove_engine_dependency(&mut package).unwrap(), None);
}

#[test]
fn engine_dependency_values_must_be_strings() {
    let package = object(vec![(
        "devDependencies",
        object(vec![("@bornengine/engine", JsonValue::Bool(true))]),
    )]);
    assert_eq!(
        engine_dependency(&package).unwrap_err().message(),
        "engine dependency `@bornengine/engine` must have a string value"
    );
}

#[test]
fn stable_releases_are_listed_newest_first() {
    let releases = stable_releases(
        &metadata(&["0.10.0", "0.9.0", "1.0.0-beta.1", "0.9.1"], None),
        "@bornengine/engine",
    )
    .unwrap();
    let versions: Vec<&str> = releases.iter().map(|r| r.version.as_str()).collect();
    assert_eq!(versions, ["0.10.0", "0.9.1", "0.9.0"]);
    assert!(stable_releases(
        &RegistryMetadata {
            versions: None,
            latest_tag: None
        },
        "@bornengine/engine"
    )
    .is_err());
}

#[test]
fn registry_documents_give_versions_and_the_latest_tag() {
    let document = read_json_document(
        "registry",
        r#"{"name":"@bornengine/engine","dist-tags":{"latest":"0.9.0"},"versions":{"0.9.0":{},"0.10.0":{}}}"#,
    )
    .unwrap();
    let metadata = registry_metadata(&document);
    assert_eq!(metadata.latest_tag.as_deref(), Some("0.9.0"));
    assert_eq!(metadata.versions.unwrap(), ["0.10.0", "0.9.0"]);
    let bare = registry_metadata(&object(vec![("versions", text("none"))]));
    assert_eq!(bare.versions, None);
    assert_eq!(bare.latest_tag, None);
}
