use cxprof::config::{ProfileMarker, CREATED_BY_VERSION};
use cxprof::error::AppError;
use cxprof::paths::parse_path;
use cxprof::profile::{sort_by_name, validate_profile_name, Profile};

#[test]
fn validates_portable_profile_names() {
    for valid in ["work", "Personal_2", "client-one"] {
        validate_profile_name(valid).unwrap();
    }

    for invalid in ["", "../work", "with space", "é", "CON", "com1"] {
        assert!(validate_profile_name(invalid).is_err(), "{invalid}");
    }
}

fn reason(name: &str) -> String {
    match validate_profile_name(name) {
        Err(AppError::InvalidProfileName { reason, .. }) => reason.to_owned(),
        other => panic!("{name:?} gave {other:?}"),
    }
}

#[test]
fn name_refusals_give_their_reason() {
    assert_eq!(reason(""), "use between 1 and 64 ASCII characters");
    assert_eq!(reason(&"a".repeat(65)), "use between 1 and 64 ASCII characters");
    assert_eq!(reason("-work"), "the first character must be a letter or digit");
    assert_eq!(reason("é"), "the first character must be a letter or digit");
    assert_eq!(reason("aé"), "use only ASCII letters, digits, underscores, and hyphens");
    assert_eq!(reason("a.b"), "use only ASCII letters, digits, underscores, and hyphens");
    assert_eq!(reason("nul"), "the name is reserved by Windows");
    assert_eq!(reason("LPT9"), "the name is reserved by Windows");
}

#[test]
fn name_length_limit_is_sixty_four_bytes() {
    validate_profile_name(&"a".repeat(64)).unwrap();
    validate_profile_name("x").unwrap();
}

#[test]
fn reserved_device_names_need_a_digit_from_one() {
    validate_profile_name("COM0").unwrap();
    validate_profile_name("COM10").unwrap();
    validate_profile_name("console").unwrap();
    assert!(validate_profile_name("Aux").is_err());
    assert!(validate_profile_name("com1").is_err());
}

#[test]
fn invalid_name_message_quotes_the_name() {
    let error = validate_profile_name("with space").unwrap_err();
    assert_eq!(
        error.message(),
        "profile name \"with space\" is invalid: use only ASCII letters, digits, underscores, and hyphens"
    );
}

fn profile(name: &str) -> Profile {
    Profile {
        name: name.to_owned(),
        path: parse_path("/p").join_str(name),
        marker: ProfileMarker::new(name),
    }
}

#[test]
fn profiles_sort_by_name_in_code_point_order() {
    let sorted = sort_by_name(vec![profile("b"), profile("a2"), profile("B"), profile("a")]);
    let names: Vec<&str> = sorted.iter().map(|p| p.name.as_str()).collect();
    assert_eq!(names, vec!["B", "a", "a2", "b"]);
}

#[test]
fn new_marker_records_this_version() {
    let marker = ProfileMarker::new("work");
    assert_eq!(marker.schema_version, 1);
    assert_eq!(marker.name, "work");
    assert_eq!(marker.created_by_version, CREATED_BY_VERSION);
}
