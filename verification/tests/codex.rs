use std::collections::BTreeMap;

use cxprof::codex::{
    candidates, executable_names, Codex, ProbeEvent, ProbeRequest, ProbeStep, SearchPath,
};
use cxprof::error::AppError;
use cxprof::paths::parse_path;
use cxprof::permissions::Metadata;

/// Files by path: their mode, and whether they are directories.
struct Disk {
    files: BTreeMap<String, (u32, bool)>,
    links: BTreeMap<String, String>,
    current_exe: String,
}

impl Disk {
    fn new(current_exe: &str) -> Disk {
        Disk { files: BTreeMap::new(), links: BTreeMap::new(), current_exe: current_exe.to_owned() }
    }

    fn file(mut self, path: &str, mode: u32) -> Disk {
        self.files.insert(path.to_owned(), (mode, false));
        self
    }

    fn dir(mut self, path: &str) -> Disk {
        self.files.insert(path.to_owned(), (0o755, true));
        self
    }

    fn link(mut self, path: &str, target: &str) -> Disk {
        self.links.insert(path.to_owned(), target.to_owned());
        self
    }

    fn target(&self, path: &str) -> String {
        self.links.get(path).cloned().unwrap_or_else(|| path.to_owned())
    }

    fn resolve(&self, requested: Option<&str>, search: &SearchPath) -> (Result<Codex, AppError>, Vec<String>) {
        let mut probed = Vec::new();
        let mut resolution = Codex::resolve(requested.map(|r| r.to_owned()), search);
        let mut event = ProbeEvent::Start;
        loop {
            match resolution.step(event) {
                ProbeStep::Ask(ProbeRequest::Metadata(p)) => {
                    let shown = p.display();
                    probed.push(shown.clone());
                    event = match self.files.get(&self.target(&shown)) {
                        Some(&(mode, dir)) => ProbeEvent::Metadata(Ok(Metadata {
                            is_symlink: false,
                            is_dir: dir,
                            is_file: !dir,
                            mode,
                        })),
                        None => ProbeEvent::Metadata(Err(std::io::Error::new(
                            std::io::ErrorKind::NotFound,
                            "missing",
                        ))),
                    };
                }
                ProbeStep::Ask(ProbeRequest::Canonicalize(p)) => {
                    event = ProbeEvent::Canonical(Ok(parse_path(&self.target(&p.display()))));
                }
                ProbeStep::Ask(ProbeRequest::CurrentExe) => {
                    event = ProbeEvent::CurrentExe(Ok(parse_path(&self.current_exe)));
                }
                ProbeStep::Finished(result) => return (result, probed),
            }
        }
    }
}

fn search(dirs: &[&str]) -> SearchPath {
    SearchPath {
        directories: Some(dirs.iter().map(|d| parse_path(d)).collect()),
        windows: false,
        extensions: None,
    }
}

#[test]
fn missing_explicit_executable_is_rejected() {
    let disk = Disk::new("/usr/bin/cxprof");
    let (result, probed) =
        disk.resolve(Some("/tmp/missing-codex-for-switcher-test"), &search(&["/usr/bin"]));
    assert!(result.is_err());
    assert!(matches!(result, Err(AppError::CodexNotFound)));
    assert_eq!(probed, vec!["/tmp/missing-codex-for-switcher-test"]);
}

#[test]
fn bare_name_is_searched_along_the_path_in_order() {
    let disk = Disk::new("/usr/bin/cxprof")
        .file("/opt/bin/codex", 0o644)
        .file("/usr/local/bin/codex", 0o755)
        .file("/usr/bin/codex", 0o755);
    let (result, probed) = disk.resolve(None, &search(&["/missing", "/opt/bin", "/usr/local/bin", "/usr/bin"]));
    assert_eq!(result.unwrap().path().display(), "/usr/local/bin/codex");
    assert_eq!(probed, vec!["/missing/codex", "/opt/bin/codex", "/usr/local/bin/codex"]);
}

#[test]
fn directories_are_not_executables() {
    let disk = Disk::new("/usr/bin/cxprof").dir("/a/codex").file("/b/codex", 0o700);
    let (result, _) = disk.resolve(Some("codex"), &search(&["/a", "/b"]));
    assert_eq!(result.unwrap().path().display(), "/b/codex");
}

#[test]
fn unset_path_finds_nothing() {
    let disk = Disk::new("/usr/bin/cxprof").file("/usr/bin/codex", 0o755);
    let unset = SearchPath { directories: None, windows: false, extensions: None };
    let (result, probed) = disk.resolve(None, &unset);
    assert!(matches!(result, Err(AppError::CodexNotFound)));
    assert!(probed.is_empty());
}

#[test]
fn resolving_to_this_program_is_refused() {
    let disk = Disk::new("/usr/bin/cxprof")
        .file("/usr/bin/cxprof", 0o755)
        .link("/home/me/bin/codex", "/usr/bin/cxprof");
    let (result, _) = disk.resolve(Some("/home/me/bin/codex"), &search(&[]));
    let error = result.unwrap_err();
    assert!(matches!(error, AppError::RecursiveCodexExecutable));
    assert!(error.message().contains("is this profile switcher"));
}

#[test]
fn resolved_path_is_canonical() {
    let disk = Disk::new("/usr/bin/cxprof")
        .file("/opt/codex/bin/codex", 0o755)
        .link("/usr/local/bin/codex", "/opt/codex/bin/codex");
    let (result, _) = disk.resolve(None, &search(&["/usr/local/bin"]));
    assert_eq!(result.unwrap().path().display(), "/opt/codex/bin/codex");
}

#[test]
fn candidates_follow_the_request() {
    let shown = |v: Vec<cxprof::paths::FsPath>| v.iter().map(|p| p.display()).collect::<Vec<_>>();
    let s = search(&["/a", "/b"]);
    assert_eq!(shown(candidates(&None, &s)), vec!["/a/codex", "/b/codex"]);
    assert_eq!(shown(candidates(&Some("my-codex".to_owned()), &s)), vec!["/a/my-codex", "/b/my-codex"]);
    assert_eq!(shown(candidates(&Some("./codex".to_owned()), &s)), vec!["./codex"]);
    assert_eq!(shown(candidates(&Some("bin/codex".to_owned()), &s)), vec!["bin/codex"]);
}

#[test]
fn windows_tries_each_executable_extension() {
    assert_eq!(executable_names("codex", false, None), vec!["codex"]);
    assert_eq!(
        executable_names("codex", true, None),
        vec!["codex.COM", "codex.EXE", "codex.BAT", "codex.CMD"]
    );
    assert_eq!(executable_names("codex", true, Some(";.exe;;.ps1;")), vec!["codex.exe", "codex.ps1"]);
    assert_eq!(executable_names("codex.exe", true, None), vec!["codex.exe"]);
    assert_eq!(executable_names(".codex", true, Some(".EXE")), vec![".codex.EXE"]);
    assert_eq!(executable_names("..", true, Some(".EXE")), vec!["...EXE"]);
}
