use cxprof::codex::{
    exit_status_code, version_text, Codex, ProbeEvent, ProbeRequest, ProbeStep, SearchPath,
};
use cxprof::config::{ProfileMarker, CODEX_CONFIG_FILE, MARKER_FILE};
use cxprof::error::AppError;
use cxprof::paths::parse_path;
use cxprof::permissions::{private_mode, Metadata};
use cxprof::profile::{Profile, ProfileListing};
use cxprof::report::{
    answer_confirmation, authentication_line, confirm_removal, creation_message,
    ignored_warnings, permission_paths, profile_lines, removal_message, Confirmation, Doctor,
};

fn profile(name: &str) -> Profile {
    Profile {
        name: name.to_owned(),
        path: parse_path("/state/profiles").join_str(name),
        marker: ProfileMarker::new(name),
    }
}

fn metadata(mode: u32, dir: bool) -> Metadata {
    Metadata { is_symlink: false, is_dir: dir, is_file: !dir, mode }
}

#[test]
fn path_labels_are_stable() {
    assert_eq!(
        std::path::Path::new(MARKER_FILE).file_name().unwrap(),
        MARKER_FILE
    );
}

#[test]
fn yes_skips_confirmation() {
    let profile = profile("work");

    assert!(matches!(
        confirm_removal(&profile, true, false).unwrap(),
        Confirmation::Granted
    ));
}

#[test]
fn noninteractive_removal_requires_yes() {
    let error = confirm_removal(&profile("work"), false, false).unwrap_err();
    assert!(matches!(error, AppError::NonInteractiveConfirmation));
    assert!(error.message().contains("rerun with --yes"));
}

#[test]
fn interactive_removal_asks_first() {
    match confirm_removal(&profile("work"), false, true).unwrap() {
        Confirmation::Ask(question) => assert_eq!(
            question,
            "Permanently remove profile \"work\" and all Codex state at /state/profiles/work? [y/N] "
        ),
        Confirmation::Granted => panic!("removal granted without asking"),
    }
}

#[test]
fn only_yes_answers_agree() {
    for answer in ["y\n", "Y", "yes", " YeS \r\n", "\tyes"] {
        answer_confirmation(answer).unwrap();
    }
    for answer in ["", "\n", "n", "no", "yess", "y es", "ye"] {
        let error = answer_confirmation(answer).unwrap_err();
        assert!(matches!(error, AppError::RemovalCancelled), "{answer:?}");
    }
}

#[test]
fn profile_permissions_are_private() {
    let profile = profile("work");
    let mut doctor = Doctor::new(None, true);

    assert!(doctor.check_profile_permissions(
        &profile,
        Ok(metadata(0o40700, true)),
        Ok(metadata(0o100600, false)),
        Ok(metadata(0o100600, false)),
    ));
    assert_eq!(doctor.exit_code(), 0);
    assert_eq!(
        doctor.lines(),
        vec![
            "[ok] profile directory permissions are private",
            "[ok] ownership marker permissions are private",
            "[ok] Codex config permissions are private",
        ]
    );
}

#[test]
fn broader_permissions_fail_the_health_check() {
    let profile = profile("work");
    let mut doctor = Doctor::new(None, true);
    let missing = std::io::Error::new(std::io::ErrorKind::NotFound, "no such file");

    assert!(!doctor.check_profile_permissions(
        &profile,
        Ok(metadata(0o755, true)),
        Ok(metadata(0o600, false)),
        Err(missing),
    ));
    assert_eq!(doctor.exit_code(), 1);
    let lines = doctor.lines();
    assert_eq!(lines[0], "[fail] profile directory permissions are broader than expected");
    assert_eq!(lines[1], "[ok] ownership marker permissions are private");
    assert!(lines[2].starts_with("[fail] could not inspect /state/profiles/work/config.toml: "));
}

#[test]
fn permission_paths_are_the_directory_marker_and_config() {
    let (directory, marker, config) = permission_paths(&profile("work"));
    assert_eq!(directory.display(), "/state/profiles/work");
    assert_eq!(marker.display(), format!("/state/profiles/work/{MARKER_FILE}"));
    assert_eq!(config.display(), format!("/state/profiles/work/{CODEX_CONFIG_FILE}"));
}

#[test]
fn doctor_reports_the_root() {
    let home = Some(parse_path("/home/me"));
    let root = parse_path("/home/me/.local/state/codex-profile-switcher/profiles");

    let mut fresh = Doctor::new(Some(parse_path("/home/me")), true);
    fresh.check_root(&root, None);
    assert_eq!(
        fresh.lines(),
        vec!["[ok] profile root ~/.local/state/codex-profile-switcher/profiles has not been created yet"]
    );
    assert_eq!(fresh.exit_code(), 0);

    let mut private = Doctor::new(Some(parse_path("/home/me")), true);
    private.check_root(&root, Some(Ok(metadata(0o700, true))));
    assert_eq!(
        private.lines(),
        vec!["[ok] profile root ~/.local/state/codex-profile-switcher/profiles is private"]
    );

    let mut open = Doctor::new(home, true);
    open.check_root(&root, Some(Ok(metadata(0o750, true))));
    assert_eq!(
        open.lines(),
        vec!["[fail] profile root ~/.local/state/codex-profile-switcher/profiles has broader permissions than expected"]
    );
    assert_eq!(open.exit_code(), 1);
}

#[test]
fn doctor_reports_codex_and_the_profile() {
    let mut doctor = Doctor::new(None, true);
    doctor.check_codex(Err(AppError::CodexNotFound));
    doctor.check_profile(&Ok(profile("work")));
    doctor.check_profile(&Err(AppError::ProfileMissing("home".to_owned())));
    assert_eq!(
        doctor.lines(),
        vec![
            "[fail] Codex CLI was not found; install `codex` or pass --codex-bin PATH",
            "[ok] profile \"work\" has valid ownership metadata (created by 0.1.0)",
            "[fail] profile \"home\" does not exist",
        ]
    );
    assert_eq!(doctor.exit_code(), 1);
}

#[test]
fn listing_lines_name_each_profile_or_say_none() {
    let empty = ProfileListing { profiles: vec![], ignored: vec![] };
    assert_eq!(profile_lines(&empty), vec!["No profiles found."]);

    let listing = ProfileListing {
        profiles: vec![profile("personal"), profile("work")],
        ignored: vec![("stray".to_owned(), "profile \"stray\" does not exist".to_owned())],
    };
    assert_eq!(profile_lines(&listing), vec!["personal", "work"]);
    assert_eq!(
        ignored_warnings(&listing),
        vec!["warning: ignored unowned or invalid entry \"stray\": profile \"stray\" does not exist"]
    );
}

#[test]
fn authentication_lines_show_the_exit_status() {
    assert_eq!(authentication_line("work", 0), "work\tauthenticated");
    assert_eq!(authentication_line("work", 1), "work\tnot authenticated (exit 1)");
    assert_eq!(authentication_line("x", -2), "x\tnot authenticated (exit -2)");
    assert_eq!(
        authentication_line("x", i32::MIN),
        "x\tnot authenticated (exit -2147483648)"
    );
}

#[test]
fn created_and_removed_messages() {
    assert_eq!(
        creation_message(&profile("work")),
        "Created profile \"work\" at /state/profiles/work"
    );
    assert_eq!(
        removal_message("work", &parse_path("/state/profiles/work")),
        "Removed profile \"work\" at /state/profiles/work"
    );
}

#[test]
fn version_is_trimmed_output_or_the_exit_code() {
    assert_eq!(version_text(Some(0), b"codex-cli 0.test\n"), "codex-cli 0.test");
    assert_eq!(version_text(Some(0), b"  v\xff1 \n"), "v\u{fffd}1");
    assert_eq!(version_text(Some(3), b"codex-cli 0.test\n"), "unknown (exit 3)");
    assert_eq!(version_text(None, b""), "unknown (exit 1)");
}

#[test]
fn missing_exit_code_counts_as_one() {
    assert_eq!(exit_status_code(Some(23)), 23);
    assert_eq!(exit_status_code(Some(0)), 0);
    assert_eq!(exit_status_code(None), 1);
}

fn unix_search(dirs: &[&str]) -> SearchPath {
    SearchPath {
        directories: Some(dirs.iter().map(|d| parse_path(d)).collect()),
        windows: false,
        extensions: None,
    }
}

#[test]
fn login_and_status_are_delegated_to_codex() {
    let codex_home = parse_path("/state/profiles/work");
    let codex = found_codex("/usr/bin/codex");

    let login = codex.login(&codex_home, true);
    assert_eq!(login.program.display(), "/usr/bin/codex");
    assert_eq!(login.arguments, vec!["login", "--device-auth"]);
    assert_eq!(login.codex_home.display(), "/state/profiles/work");
    assert!(!login.quiet);

    let plain = codex.login(&codex_home, false);
    assert_eq!(plain.arguments, vec!["login"]);

    let status = codex.login_status(&codex_home, true);
    assert_eq!(status.arguments, vec!["login", "status"]);
    assert!(status.quiet);
}

#[test]
fn run_overrides_codex_home_forwards_arguments_and_exit_code() {
    let codex = found_codex("/usr/bin/codex");
    let injection_argument = "$(touch /tmp/shell-was-used)";
    let launch = codex.run(
        &parse_path("/state/profiles/work"),
        vec!["exec", "--model", "gpt-test", "argument with spaces", "*", injection_argument],
    );
    assert_eq!(launch.program.display(), "/usr/bin/codex");
    assert_eq!(launch.codex_home.display(), "/state/profiles/work");
    assert_eq!(
        launch.arguments,
        vec!["exec", "--model", "gpt-test", "argument with spaces", "*", injection_argument]
    );
    assert!(!launch.quiet);
    assert_eq!(exit_status_code(Some(23)), 23);
}

#[test]
fn separate_profiles_can_run_concurrently() {
    let codex = found_codex("/usr/bin/codex");
    let work = codex.run(&profile("work").path, Vec::<String>::new());
    let personal = codex.run(&profile("personal").path, Vec::<String>::new());
    assert_eq!(work.codex_home.display(), "/state/profiles/work");
    assert_eq!(personal.codex_home.display(), "/state/profiles/personal");
}

#[test]
fn preserves_non_utf8_codex_arguments() {
    let codex = found_codex("/usr/bin/codex");
    let argument: Vec<u8> = vec![b'f', 0x80, b'o'];
    let launch = codex.run(&profile("work").path, vec![argument.clone()]);
    assert_eq!(launch.arguments, vec![argument]);
}

fn found_codex(path: &str) -> Codex {
    let mut resolution = Codex::resolve(Some(path.to_owned()), &unix_search(&[]));
    let mut event = ProbeEvent::Start;
    loop {
        match resolution.step(event) {
            ProbeStep::Ask(ProbeRequest::Metadata(_)) => {
                event = ProbeEvent::Metadata(Ok(metadata(0o755, false)))
            }
            ProbeStep::Ask(ProbeRequest::Canonicalize(p)) => event = ProbeEvent::Canonical(Ok(p)),
            ProbeStep::Ask(ProbeRequest::CurrentExe) => {
                event = ProbeEvent::CurrentExe(Ok(parse_path("/usr/bin/cxprof")))
            }
            ProbeStep::Finished(result) => return result.unwrap(),
        }
    }
}

#[test]
fn every_error_has_its_message() {
    let cases: Vec<(AppError, &str)> = vec![
        (AppError::HomeDirectoryUnavailable, "could not determine the current user's home directory; pass --root PATH"),
        (AppError::LocalAppDataUnavailable, "could not determine LOCALAPPDATA; pass --root PATH"),
        (AppError::ProfileExists("a".to_owned()), "profile \"a\" already exists"),
        (AppError::ProfileMissing("a\"b".to_owned()), "profile \"a\\\"b\" does not exist"),
        (
            AppError::UnsafeProfile { path: parse_path("/r/a"), reason: "why".to_owned() },
            "refusing unsafe profile at /r/a: why",
        ),
        (
            AppError::InsecurePermissions { path: parse_path("/r/a/config.toml"), kind: "Codex config", expected: 0o600 },
            "/r/a/config.toml has insecure permissions for Codex config; expected mode 600",
        ),
        (
            AppError::InvalidMarker { name: "a".to_owned(), reason: "why".to_owned() },
            "profile \"a\" has invalid ownership metadata: why",
        ),
        (
            AppError::UnsafeCredentialConfig { name: "a".to_owned(), reason: "why".to_owned() },
            "profile \"a\" does not enforce file-backed Codex credentials: why",
        ),
        (AppError::CodexNotFound, "Codex CLI was not found; install `codex` or pass --codex-bin PATH"),
        (
            AppError::RecursiveCodexExecutable,
            "the resolved Codex executable is this profile switcher; pass --codex-bin PATH to the real Codex CLI",
        ),
        (AppError::RemovalCancelled, "removal was cancelled"),
        (
            AppError::NonInteractiveConfirmation,
            "refusing to prompt on non-interactive stdin; rerun with --yes",
        ),
        (
            AppError::io(
                "could not list /r".to_owned(),
                std::io::Error::new(std::io::ErrorKind::Other, "broken pipe"),
            ),
            "could not list /r: broken pipe",
        ),
    ];
    for (error, message) in cases {
        assert_eq!(error.message(), message);
    }
}

#[test]
fn permission_bits_are_not_checked_off_unix() {

    let missing = std::io::Error::new(std::io::ErrorKind::NotFound, "missing");
    assert!(private_mode(&parse_path("/p/config.toml"), Err(missing), 0o600, false).unwrap());
    assert!(!private_mode(&parse_path("/p/config.toml"), Ok(metadata(0o644, false)), 0o600, true).unwrap());

    let mut doctor = Doctor::new(None, false);
    assert!(doctor.check_profile_permissions(
        &profile("work"),
        Ok(metadata(0o777, true)),
        Ok(metadata(0o666, false)),
        Ok(metadata(0o666, false)),
    ));
    doctor.check_root(&parse_path("/state/profiles"), Some(Ok(metadata(0o777, true))));
    assert_eq!(doctor.exit_code(), 0);
    assert_eq!(doctor.lines()[3], "[ok] profile root /state/profiles is private");
}
