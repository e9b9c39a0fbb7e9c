use bornengine_cli::commands::update::release_tag;
use bornengine_cli::json::read_json_document;
use bornengine_cli::commands::diagnostics::doctor_verdict;
use bornengine_cli::commands::update::{update_advice, UpdateAdvice};
use bornengine_cli::versions::{compare_versions, validate_engine_version};
use std::cmp::Ordering;

#[test]
fn versions_compare_by_semantic_precedence() {
    assert_eq!(compare_versions("1.2.0", "1.10.0").unwrap(), Ordering::Less);
    assert_eq!(compare_versions("2.0.0", "1.99.99").unwrap(), Ordering::Greater);
    assert_eq!(compare_versions("1.0.0", "1.0.0").unwrap(), Ordering::Equal);
    assert_eq!(compare_versions("1.0.0-rc.1", "1.0.0").unwrap(), Ordering::Less);
    assert_eq!(
        compare_versions("one", "1.0.0").unwrap_err().message(),
        "invalid semantic version `one`"
    );
    assert_eq!(
        compare_versions("1.0.0", "v2").unwrap_err().message(),
        "invalid semantic version `v2`"
    );
}

#[test]
fn engine_versions_are_latest_or_stable_releases() {
    assert!(validate_engine_version("latest").is_ok());
    assert!(validate_engine_version("0.4.17").is_ok());
    assert!(validate_engine_version("0.4.17+build.5").is_err());
    assert!(validate_engine_version("0.4").is_err());
}

#[test]
fn update_advice_follows_the_published_tag() {
    assert_eq!(
        update_advice(Some("v0.2.0"), "0.1.0").unwrap(),
        UpdateAdvice::Available("0.2.0".to_owned())
    );
    assert_eq!(
        update_advice(Some("0.10.0-beta.2"), "0.9.0").unwrap(),
        UpdateAdvice::Available("0.10.0-beta.2".to_owned())
    );
    assert_eq!(update_advice(Some("v0.1.0"), "0.1.0").unwrap(), UpdateAdvice::UpToDate);
    assert_eq!(update_advice(Some("v0.0.9"), "0.1.0").unwrap(), UpdateAdvice::UpToDate);
    assert_eq!(update_advice(Some("release-7"), "0.1.0").unwrap(), UpdateAdvice::InvalidTag);
    assert_eq!(update_advice(None, "0.1.0").unwrap(), UpdateAdvice::NoTag);
    assert!(update_advice(Some("v1.0.0"), "dev").is_err());
}

#[test]
fn release_tags_are_read_from_release_documents() {
    let release = read_json_document("release", r#"{"tag_name":"v0.3.1","draft":false}"#).unwrap();
    assert_eq!(release_tag(&release).as_deref(), Some("v0.3.1"));
    let untagged = read_json_document("release", r#"{"tag_name":3}"#).unwrap();
    assert_eq!(release_tag(&untagged), None);
}

#[test]
fn doctor_passes_only_when_every_check_passes() {
    assert_eq!(doctor_verdict(&vec![true, true, true]), 0);
    assert_eq!(doctor_verdict(&vec![true, false, true]), 1);
    assert_eq!(doctor_verdict(&Vec::new()), 0);
}
