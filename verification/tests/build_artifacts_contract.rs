use bornengine_cli::build_artifacts::{
    build_directory_name, clean_action, clean_step, directories_to_prune, CleanAction, EntryKind,
};
use bornengine_cli::build_artifacts::{
    check_manifest_format, managed_area_root, merge_recorded_files, output_file_name, plan_build,
    plan_dev_build, validate_managed_project_path, validate_manifest_paths,
    validate_relative_path, validate_segment, BuildManifest, ManagedArea,
};

fn strings(values: &[&str]) -> Vec<String> {
    values.iter().map(|v| (*v).to_owned()).collect()
}

#[test]
fn builds_are_planned_inside_the_cli_managed_directory() {
    let plan = plan_build("linux", "sample", None).unwrap();
    assert_eq!(plan.directories, [".bornengine", "builds", "linux", "sample"]);
    assert_eq!(plan.file_name, "sample");
    let windows = plan_build("windows", "game", Some("exe")).unwrap();
    assert_eq!(windows.file_name, "game.exe");
    let dev = plan_dev_build("sample", Some(".html")).unwrap();
    assert_eq!(dev.directories, [".perry-dev", "sample"]);
    assert_eq!(dev.file_name, "sample.html");
}

#[test]
fn build_segments_must_be_simple_names() {
    assert_eq!(
        plan_build("../linux", "sample", None).unwrap_err().message(),
        "target must be a simple file or directory name"
    );
    assert_eq!(
        plan_build("linux", "a/b", None).unwrap_err().message(),
        "output name must be a simple file or directory name"
    );
    assert!(plan_dev_build("..", None).is_err());
    assert!(validate_segment("", "target").is_err());
    assert_eq!(validate_segment("ios-simulator", "target").unwrap(), "ios-simulator");
}

#[test]
fn output_extensions_are_added_once_ignoring_case() {
    assert_eq!(output_file_name("Game.EXE", Some("exe")), "Game.EXE");
    assert_eq!(output_file_name("game", Some("..exe")), "game.exe");
    assert_eq!(output_file_name("game", None), "game");
}

#[test]
fn recorded_paths_that_escape_the_build_root_are_refused() {
    let error = validate_manifest_paths(&strings(&["../../outside.txt"])).unwrap_err();
    assert_eq!(
        error.message(),
        "build manifest contains an unsafe path: ../../outside.txt"
    );
    let outside = validate_manifest_paths(&strings(&["src/main.ts"])).unwrap_err();
    assert_eq!(
        outside.message(),
        "build manifest path is outside CLI-managed build areas: src/main.ts"
    );
    assert!(validate_manifest_paths(&strings(&[
        ".bornengine/builds/linux/sample/1-2-0/sample",
        ".perry-dev/sample/3-4-0/sample"
    ]))
    .is_ok());
    assert!(validate_manifest_paths(&strings(&["/etc/passwd"])).is_err());
}

#[test]
fn recorded_paths_are_relative_and_managed() {
    assert!(validate_relative_path("a/b").is_ok());
    assert!(validate_relative_path("a/../b").is_err());
    assert!(validate_relative_path("").is_err());
    assert!(validate_managed_project_path(".bornengine/builds/linux").is_ok());
    assert!(validate_managed_project_path(".bornengine/builds").is_err());
    assert_eq!(managed_area_root(".perry-dev/x").unwrap(), ManagedArea::PerryDev);
    assert_eq!(managed_area_root(".bornengine/builds/x").unwrap(), ManagedArea::Builds);
    assert!(managed_area_root("src").is_err());
}

#[test]
fn manifests_have_a_format_and_records_are_merged_sorted() {
    let manifest = BuildManifest::default();
    assert!(check_manifest_format(&manifest, "builds/record.json").is_ok());
    let other = BuildManifest {
        format: "v0".to_owned(),
        files: Vec::new(),
    };
    assert_eq!(
        check_manifest_format(&other, "builds/record.json").unwrap_err().message(),
        "unrecognized build manifest format in builds/record.json"
    );
    let merged = merge_recorded_files(
        &strings(&[".perry-dev/b", ".bornengine/builds/x/a"]),
        &strings(&[".perry-dev/b", ".perry-dev/a"]),
    );
    assert_eq!(
        merged,
        [".bornengine/builds/x/a", ".perry-dev/a", ".perry-dev/b"]
    );
}

#[test]
fn cleaning_removes_files_and_links_and_refuses_anything_else() {
    assert_eq!(clean_action(EntryKind::File), CleanAction::Remove);
    assert_eq!(clean_action(EntryKind::Symlink), CleanAction::Remove);
    assert_eq!(clean_action(EntryKind::Missing), CleanAction::Skip);
    assert_eq!(clean_action(EntryKind::Directory), CleanAction::Refuse);
    assert_eq!(clean_action(EntryKind::Other), CleanAction::Refuse);
}

#[test]
fn cleaning_prunes_directories_down_to_the_managed_root() {
    assert_eq!(
        directories_to_prune(".bornengine/builds/linux/sample/1-2-0/sample").unwrap(),
        [
            ".bornengine/builds/linux/sample/1-2-0",
            ".bornengine/builds/linux/sample",
            ".bornengine/builds/linux"
        ]
    );
    assert_eq!(
        directories_to_prune(".perry-dev/sample/3/game").unwrap(),
        [".perry-dev/sample/3", ".perry-dev/sample"]
    );
    assert!(directories_to_prune(".perry-dev/game").unwrap().is_empty());
    assert!(directories_to_prune("src/main.ts").is_err());
}

#[test]
fn clean_steps_count_removed_files() {
    let step = clean_step(4, ".perry-dev/sample/3/game", EntryKind::File).unwrap();
    assert_eq!(step.action, CleanAction::Remove);
    assert_eq!(step.removed, 5);
    assert_eq!(step.prune, [".perry-dev/sample/3", ".perry-dev/sample"]);
    let missing = clean_step(4, ".perry-dev/sample/3/gone", EntryKind::Missing).unwrap();
    assert_eq!(missing.removed, 4);
    assert!(missing.prune.is_empty());
    assert_eq!(
        clean_step(0, ".perry-dev/sample/3/dir", EntryKind::Directory).unwrap().action,
        CleanAction::Refuse
    );
}

#[test]
fn build_directories_are_named_by_time_process_and_attempt() {
    assert_eq!(build_directory_name(1700000000123456789, 4242, 0), "1700000000123456789-4242-0");
    assert_eq!(build_directory_name(0, 7, 12), "0-7-12");
}
