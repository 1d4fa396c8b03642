use cxprof::error::AppError;
use cxprof::paths::{
    display_redacted, native_path, normalize_absolute, parse_path, Environment, FsPath, PathPart,
    StatePaths,
};
use cxprof::store::resolved_inside;

fn environment(current_dir: &str, state_home: Option<&str>, home: Option<&str>) -> Environment {
    Environment {
        current_dir: Ok(parse_path(current_dir)),
        state_home: state_home.map(parse_path),
        macos: false,
        home: home.map(parse_path),
        windows: false,
        local_app_data: None,
    }
}

#[test]
fn relative_override_becomes_absolute_and_normalized() {
    let paths = StatePaths::resolve(
        Some(parse_path("one/../profiles")),
        environment("/home/user/work", None, Some("/home/user")),
    )
    .unwrap();

    assert!(paths.root().is_absolute());
    let shown = paths.root().display();
    assert!(shown.ends_with("/profiles"));
    assert!(!shown.contains(".."));
    assert_eq!(shown, "/home/user/work/profiles");
}

#[test]
fn absolute_override_drops_current_and_parent_components() {
    let paths = StatePaths::resolve(
        Some(parse_path("/srv/./a/../profiles/")),
        environment("/elsewhere", None, None),
    )
    .unwrap();
    assert_eq!(paths.root().display(), "/srv/profiles");
}

#[test]
fn override_that_climbs_above_the_root_is_refused() {
    let error = StatePaths::resolve(Some(parse_path("/../x")), environment("/", None, None))
        .unwrap_err();
    assert!(matches!(error, AppError::UnsafeProfile { .. }));
    assert_eq!(
        error.message(),
        "refusing unsafe profile at /../x: path escapes the filesystem root"
    );
}

#[test]
fn relative_override_needs_the_current_directory() {
    let env = Environment {
        current_dir: Err(std::io::Error::new(std::io::ErrorKind::NotFound, "gone")),
        state_home: None,
        macos: false,
        home: None,
        windows: false,
        local_app_data: None,
    };
    let error = StatePaths::resolve(Some(parse_path("profiles")), env).unwrap_err();
    assert!(error
        .message()
        .starts_with("could not resolve the current directory: "));
}

#[test]
fn default_root_uses_an_absolute_state_home() {
    let paths = StatePaths::resolve(
        None,
        environment("/", Some("/var/state"), Some("/home/user")),
    )
    .unwrap();
    assert_eq!(paths.root().display(), "/var/state/codex-profile-switcher/profiles");
}

#[test]
fn default_root_ignores_a_relative_state_home() {
    let paths = StatePaths::resolve(None, environment("/", Some("state"), Some("/home/user")))
        .unwrap();
    assert_eq!(
        paths.root().display(),
        "/home/user/.local/state/codex-profile-switcher/profiles"
    );
}

#[test]
fn default_root_without_home_is_an_error() {
    let error = StatePaths::resolve(None, environment("/", None, None)).unwrap_err();
    assert!(matches!(error, AppError::HomeDirectoryUnavailable));
    let error = StatePaths::resolve(None, environment("/", None, Some(""))).unwrap_err();
    assert!(matches!(error, AppError::HomeDirectoryUnavailable));
}

#[test]
fn profile_directory_is_the_root_joined_with_the_name() {
    let paths = StatePaths::from_absolute(parse_path("/data/profiles"));
    assert_eq!(paths.profile("work").display(), "/data/profiles/work");
}

#[test]
fn home_is_shown_as_tilde() {
    let home = Some(parse_path("/home/user"));
    assert_eq!(display_redacted(&parse_path("/home/user"), &home), "~");
    assert_eq!(
        display_redacted(&parse_path("/home/user/.local/state"), &home),
        "~/.local/state"
    );
    assert_eq!(display_redacted(&parse_path("/home/username"), &home), "/home/username");
    assert_eq!(display_redacted(&parse_path("/opt/codex"), &None), "/opt/codex");
}

#[test]
fn paths_render_as_written_components() {
    assert_eq!(parse_path("a//b/./c").display(), "a/b/c");
    assert_eq!(parse_path("./a").display(), "./a");
    assert_eq!(parse_path("/").display(), "/");
    assert_eq!(parse_path("../x").display(), "../x");
}

#[test]
fn default_root_on_macos_is_under_application_support() {
    let env = Environment {
        current_dir: Ok(parse_path("/")),
        state_home: Some(parse_path("/var/state")),
        macos: true,
        home: Some(parse_path("/Users/me")),
        windows: false,
        local_app_data: None,
    };
    let paths = StatePaths::resolve(None, env).unwrap();
    assert_eq!(
        paths.root().display(),
        "/Users/me/Library/Application Support/codex-profile-switcher/profiles"
    );
}

#[test]
fn normalizing_twice_changes_nothing() {
    let once = normalize_absolute(&parse_path("/a/./b/../c/")).unwrap();
    assert_eq!(once.display(), "/a/c");
    let twice = normalize_absolute(&once).unwrap();
    assert_eq!(twice.display(), once.display());
    let relative = normalize_absolute(&parse_path("a/b")).unwrap_err();
    assert_eq!(
        relative.message(),
        "refusing unsafe profile at a/b: storage root must be absolute"
    );
}

#[test]
fn default_root_on_windows_is_under_local_app_data() {
    let env = |local: Option<&str>| Environment {
        current_dir: Ok(parse_path("/")),
        state_home: None,
        macos: false,
        home: Some(parse_path("/home/me")),
        windows: true,
        local_app_data: local.map(parse_path),
    };
    let paths = StatePaths::resolve(None, env(Some("/appdata/local"))).unwrap();
    assert_eq!(paths.root().display(), "/appdata/local/codex-profile-switcher/profiles");
    let local = native_path("C:\\Users\\me\\AppData\\Local", true);
    let windows_env = Environment {
        current_dir: Ok(native_path("C:\\work", true)),
        state_home: None,
        macos: false,
        home: None,
        windows: true,
        local_app_data: Some(local),
    };
    let paths = StatePaths::resolve(None, windows_env).unwrap();
    assert!(paths.root().is_absolute());
    assert_eq!(
        paths.root().display(),
        "C:\\Users\\me\\AppData\\Local\\codex-profile-switcher\\profiles"
    );
    let error = StatePaths::resolve(None, env(None)).unwrap_err();
    assert!(matches!(error, AppError::LocalAppDataUnavailable));
}

fn windows(text: &str) -> FsPath {
    native_path(text, true)
}

fn windows_env(current_dir: &str) -> Environment {
    Environment {
        current_dir: Ok(windows(current_dir)),
        state_home: None,
        macos: false,
        home: None,
        windows: true,
        local_app_data: Some(windows("C:\\Users\\me\\AppData\\Local")),
    }
}

#[test]
fn windows_drive_paths_are_absolute() {
    let path = windows("C:\\Users\\me");
    assert!(path.is_absolute());
    assert_eq!(path.len(), 4);
    assert!(matches!(&path.parts[0], PathPart::Prefix(p) if p == "C:"));
    assert!(matches!(path.parts[1], PathPart::Root));
    assert!(matches!(&path.parts[3], PathPart::Normal(n) if n == "me"));
    assert_eq!(path.display(), "C:\\Users\\me");
    assert_eq!(windows("C:/Users/me").display(), "C:\\Users\\me");
    assert!(!windows("C:Users").is_absolute());
    assert!(!windows("Users\\me").is_absolute());
    assert_eq!(windows("Users\\me").display(), "Users/me");
}

#[test]
fn windows_verbatim_and_unc_prefixes_are_kept_whole() {
    let verbatim = windows("\\\\?\\C:\\profiles\\work");
    assert!(verbatim.is_absolute());
    assert!(matches!(&verbatim.parts[0], PathPart::Prefix(p) if p == "\\\\?\\C:"));
    assert_eq!(verbatim.display(), "\\\\?\\C:\\profiles\\work");
    let unc = windows("\\\\server\\share\\dir");
    assert!(unc.is_absolute());
    assert!(matches!(&unc.parts[0], PathPart::Prefix(p) if p == "\\\\server\\share"));
    assert_eq!(unc.len(), 3);
}

#[test]
fn unix_paths_keep_backslashes_in_names() {
    let path = native_path("/a\\b", false);
    assert_eq!(path.len(), 2);
    assert!(matches!(&path.parts[1], PathPart::Normal(n) if n == "a\\b"));
}

#[test]
fn windows_override_is_normalized_under_its_drive() {
    let paths = StatePaths::resolve(
        Some(windows("D:\\data\\.\\old\\..\\profiles")),
        windows_env("C:\\work"),
    )
    .unwrap();
    assert!(paths.root().is_absolute());
    assert_eq!(paths.root().display(), "D:\\data\\profiles");
    let relative = StatePaths::resolve(Some(windows("store")), windows_env("C:\\work")).unwrap();
    assert_eq!(relative.root().display(), "C:\\work\\store");
    assert_eq!(relative.profile("work").display(), "C:\\work\\store\\work");
}

#[test]
fn windows_drive_relative_override_is_refused() {
    let error = StatePaths::resolve(Some(windows("C:store")), windows_env("C:\\work")).unwrap_err();
    assert_eq!(
        error.message(),
        "refusing unsafe profile at C:store: storage root must be absolute"
    );
    let error = StatePaths::resolve(Some(windows("C:\\..")), windows_env("C:\\work")).unwrap_err();
    assert_eq!(
        error.message(),
        "refusing unsafe profile at C:\\..: path escapes the filesystem root"
    );
}

#[test]
fn windows_canonical_profile_lies_inside_its_root() {
    let root = windows("\\\\?\\C:\\Users\\me\\profiles");
    assert!(resolved_inside(&root, &windows("\\\\?\\C:\\Users\\me\\profiles\\work")));
    assert!(!resolved_inside(&root, &windows("\\\\?\\C:\\Users\\me\\work")));
    assert!(!resolved_inside(&windows("\\\\?\\C:"), &windows("\\\\?\\C:\\")));
}

#[test]
fn windows_home_is_shown_as_tilde_with_backslashes() {
    let home = Some(windows("C:\\Users\\me"));
    assert_eq!(display_redacted(&windows("C:\\Users\\me"), &home), "~");
    assert_eq!(
        display_redacted(&windows("C:\\Users\\me\\AppData\\Local"), &home),
        "~\\AppData\\Local"
    );
    assert_eq!(display_redacted(&windows("D:\\other"), &home), "D:\\other");
}
