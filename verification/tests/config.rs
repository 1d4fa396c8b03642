use cxprof::config::{verify_codex_config, ProfileMarker, CODEX_CONFIG, SCHEMA_VERSION};
use cxprof::error::AppError;

#[test]
fn config_can_contain_other_codex_settings() {
    verify_codex_config(
        "work",
        "model = \"example\"\ncli_auth_credentials_store = \"file\"\n",
    )
    .unwrap();
}

#[test]
fn config_rejects_non_file_storage() {
    let error =
        verify_codex_config("work", "cli_auth_credentials_store = \"keyring\"\n").unwrap_err();

    assert!(error.message().contains("expected \"file\""));
}

#[test]
fn the_written_config_passes_its_own_check() {
    verify_codex_config("work", CODEX_CONFIG).unwrap();
}

#[test]
fn config_without_the_store_setting_is_refused() {
    let error = verify_codex_config("work", "model = \"x\"\n").unwrap_err();
    assert_eq!(
        error.message(),
        "profile \"work\" does not enforce file-backed Codex credentials: config.toml is missing cli_auth_credentials_store = \"file\""
    );
}

#[test]
fn config_that_is_not_toml_is_refused() {
    let error = verify_codex_config("work", "not valid toml = [").unwrap_err();
    assert!(error
        .message()
        .contains("does not enforce file-backed Codex credentials: config.toml is invalid TOML: "));
}

#[test]
fn a_non_string_store_is_refused_with_its_rendering() {
    let error = verify_codex_config("work", "cli_auth_credentials_store = 1\n").unwrap_err();
    assert!(error.message().ends_with("cli_auth_credentials_store is 1, expected \"file\""));
}

fn marker(schema_version: u32, name: &str, version: &str) -> ProfileMarker {
    ProfileMarker {
        schema_version,
        name: name.to_owned(),
        created_by_version: version.to_owned(),
    }
}

fn refusal(name: &str, m: ProfileMarker) -> String {
    match ProfileMarker::validate(name, m) {
        Err(AppError::InvalidMarker { reason, .. }) => reason,
        other => panic!("unexpected {other:?}"),
    }
}

#[test]
fn new_marker_validates_for_its_profile() {
    let checked = ProfileMarker::validate("work", ProfileMarker::new("work")).unwrap();
    assert_eq!(checked.name, "work");
    assert_eq!(checked.schema_version, SCHEMA_VERSION);
}

#[test]
fn marker_of_another_schema_is_refused() {
    assert_eq!(
        refusal("work", marker(2, "work", "0.1.0")),
        "unsupported schema version 2 (expected 1)"
    );
}

#[test]
fn marker_naming_another_profile_is_refused() {
    assert_eq!(
        refusal("work", marker(1, "home", "0.1.0")),
        "marker names profile \"home\""
    );
}

#[test]
fn marker_without_a_version_is_refused() {
    assert_eq!(
        refusal("work", marker(1, "work", " \t")),
        "created_by_version is empty"
    );
}
