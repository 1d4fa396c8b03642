use std::collections::BTreeMap;

use cxprof::config::{ProfileMarker, CODEX_CONFIG, CODEX_CONFIG_FILE, MARKER_FILE};
use cxprof::error::AppError;
use cxprof::paths::{parse_path, FsPath, StatePaths};
use cxprof::permissions::{action_failure, Action, Metadata};
use cxprof::profile::{Profile, ProfileListing, ProfileStore};
use cxprof::listing::Listing;
use cxprof::store::{Creation, Event, OpenCheck, OwnedCheck, Removal, Request, Step};

#[derive(Clone, Debug)]
enum Node {
    Dir(u32),
    File(u32, String),
    Link(String),
}

/// A filesystem held in memory, keyed by displayed path.
struct MemFs {
    nodes: BTreeMap<String, Node>,
    reads: Vec<String>,
    writes: Vec<String>,
}

fn not_found() -> std::io::Error {
    std::io::Error::new(std::io::ErrorKind::NotFound, "No such file or directory")
}

fn parent_of(path: &str) -> Option<String> {
    let cut = path.rfind('/')?;
    if cut == 0 {
        Some("/".to_owned())
    } else {
        Some(path[..cut].to_owned())
    }
}

/// The marker in TOML, as the `toml` crate writes a table of its fields.
fn encode_marker(m: &ProfileMarker) -> String {
    let mut table = toml::Table::new();
    table.insert("schema_version".to_owned(), toml::Value::Integer(i64::from(m.schema_version)));
    table.insert("name".to_owned(), toml::Value::String(m.name.clone()));
    table.insert(
        "created_by_version".to_owned(),
        toml::Value::String(m.created_by_version.clone()),
    );
    toml::to_string(&table).unwrap()
}

/// The marker read back from TOML; unknown and missing fields are refused.
fn decode_marker(text: &str) -> Result<ProfileMarker, String> {
    let table: toml::Table = text.parse().map_err(|error: toml::de::Error| error.to_string())?;
    for key in table.keys() {
        if !["schema_version", "name", "created_by_version"].contains(&key.as_str()) {
            return Err(format!("unknown field `{key}`"));
        }
    }
    let field = |key: &str| table.get(key).ok_or_else(|| format!("missing field `{key}`"));
    let text_field = |key: &str| {
        field(key)?
            .as_str()
            .map(str::to_owned)
            .ok_or_else(|| format!("invalid type for `{key}`"))
    };
    let schema_version = field("schema_version")?
        .as_integer()
        .and_then(|v| u32::try_from(v).ok())
        .ok_or_else(|| "invalid type for `schema_version`".to_owned())?;
    Ok(ProfileMarker {
        schema_version,
        name: text_field("name")?,
        created_by_version: text_field("created_by_version")?,
    })
}

impl MemFs {
    fn new() -> MemFs {
        let mut nodes = BTreeMap::new();
        nodes.insert("/".to_owned(), Node::Dir(0o755));
        nodes.insert("/tmp".to_owned(), Node::Dir(0o777));
        MemFs { nodes, reads: Vec::new(), writes: Vec::new() }
    }

    fn follow(&self, path: &str) -> String {
        match self.nodes.get(path) {
            Some(Node::Link(target)) => target.clone(),
            _ => path.to_owned(),
        }
    }

    fn mkdir_all(&mut self, path: &str, mode: u32) {
        if let Some(parent) = parent_of(path) {
            if !self.nodes.contains_key(&parent) {
                self.mkdir_all(&parent, mode);
            }
        }
        self.nodes.entry(path.to_owned()).or_insert(Node::Dir(mode));
    }

    fn write(&mut self, path: &str, text: &str) {
        self.nodes.insert(path.to_owned(), Node::File(0o600, text.to_owned()));
    }

    fn holds(&self, path: &str) -> bool {
        self.nodes.contains_key(&self.follow(path))
    }

    fn children(&self, path: &str) -> Vec<String> {
        let prefix = format!("{path}/");
        self.nodes
            .keys()
            .filter_map(|k| k.strip_prefix(&prefix))
            .filter(|rest| !rest.contains('/'))
            .map(|rest| rest.to_owned())
            .collect()
    }

    fn remove_tree(&mut self, path: &str) {
        let prefix = format!("{path}/");
        self.nodes.retain(|k, _| k != path && !k.starts_with(&prefix));
    }

    fn new_entry(&mut self, path: &FsPath, node: Node) -> Event {
        let shown = path.display();
        self.writes.push(shown.clone());
        if self.nodes.contains_key(&shown) {
            let error = std::io::Error::new(std::io::ErrorKind::AlreadyExists, "File exists");
            return Event::Made(Err(action_failure(Action::Create, path, error)));
        }
        match parent_of(&shown) {
            Some(parent) if self.nodes.contains_key(&parent) => {
                self.nodes.insert(shown, node);
                Event::Made(Ok(()))
            }
            _ => Event::Made(Err(action_failure(Action::Create, path, not_found()))),
        }
    }

    fn perform(&mut self, request: Request) -> Event {
        match request {
            Request::Exists(p) => Event::Exists(self.holds(&p.display())),
            Request::Inspect(p) => Event::Inspected(match self.nodes.get(&p.display()) {
                None => Err(not_found()),
                Some(Node::Dir(mode)) => Ok(Metadata { is_symlink: false, is_dir: true, is_file: false, mode: 0o40000 | mode }),
                Some(Node::File(mode, _)) => Ok(Metadata { is_symlink: false, is_dir: false, is_file: true, mode: 0o100000 | mode }),
                Some(Node::Link(_)) => Ok(Metadata { is_symlink: true, is_dir: false, is_file: false, mode: 0o120777 }),
            }),
            Request::Canonicalize(p) => {
                let target = self.follow(&p.display());
                Event::Canonical(if self.nodes.contains_key(&target) {
                    Ok(parse_path(&target))
                } else {
                    Err(not_found())
                })
            }
            Request::ReadText(p) => {
                self.reads.push(p.display());
                Event::Text(match self.nodes.get(&self.follow(&p.display())) {
                Some(Node::File(_, text)) => Ok(text.clone()),
                _ => Err(not_found()),
            })
            }
            Request::DecodeMarker(text) => Event::Decoded(decode_marker(&text)),
            Request::CreateDirAll(p) => {
                self.mkdir_all(&p.display(), 0o700);
                Event::Made(Ok(()))
            }
            Request::CreateDir(p) => {
                let taken = self.nodes.contains_key(&p.display());
                match self.new_entry(&p, Node::Dir(0o700)) {
                    Event::Made(made) => Event::Created(made, taken),
                    other => other,
                }
            }
            Request::WriteMarker(p, m) => self.new_entry(&p, Node::File(0o600, encode_marker(&m))),
            Request::WriteConfig(p, text) => self.new_entry(&p, Node::File(0o600, text)),
            Request::Rename(from, to) => {
                let (from, to) = (from.display(), to.display());
                self.writes.push(to.clone());
                if self.nodes.contains_key(&to) {
                    return Event::Renamed(Err(std::io::Error::new(
                        std::io::ErrorKind::DirectoryNotEmpty,
                        "Directory not empty",
                    )));
                }
                let prefix = format!("{from}/");
                let moved: Vec<(String, Node)> = self
                    .nodes
                    .iter()
                    .filter(|(k, _)| **k == from || k.starts_with(&prefix))
                    .map(|(k, v)| (format!("{to}{}", &k[from.len()..]), v.clone()))
                    .collect();
                self.remove_tree(&from);
                self.nodes.extend(moved);
                Event::Renamed(Ok(()))
            }
            Request::RemoveAll(p) => {
                let shown = p.display();
                if self.nodes.contains_key(&shown) {
                    self.remove_tree(&shown);
                    Event::Removed(Ok(()))
                } else {
                    Event::Removed(Err(not_found()))
                }
            }
            Request::ReadDir(p) => {
                let shown = p.display();
                if self.nodes.contains_key(&shown) {
                    Event::Entries(Ok(self.children(&shown).into_iter().map(Ok).collect()))
                } else {
                    Event::Entries(Err(not_found()))
                }
            }
            Request::Discard(p) => {
                self.remove_tree(&p.display());
                Event::Discarded
            }
        }
    }
}

trait Procedure {
    type Output;
    fn advance(&mut self, event: Event) -> Step<Self::Output>;
}

impl Procedure for Creation {
    type Output = Profile;
    fn advance(&mut self, event: Event) -> Step<Profile> {
        self.step(event)
    }
}

impl Procedure for OpenCheck {
    type Output = Profile;
    fn advance(&mut self, event: Event) -> Step<Profile> {
        self.step(event)
    }
}

impl Procedure for OwnedCheck {
    type Output = Profile;
    fn advance(&mut self, event: Event) -> Step<Profile> {
        self.step(event)
    }
}

impl Procedure for Removal {
    type Output = FsPath;
    fn advance(&mut self, event: Event) -> Step<FsPath> {
        self.step(event)
    }
}

impl Procedure for Listing {
    type Output = ProfileListing;
    fn advance(&mut self, event: Event) -> Step<ProfileListing> {
        self.step(event)
    }
}

fn drive<P: Procedure>(fs: &mut MemFs, mut procedure: P) -> Result<P::Output, AppError> {
    let mut event = Event::Start;
    loop {
        match procedure.advance(event) {
            Step::Ask(request) => event = fs.perform(request),
            Step::Finished(result) => return result,
        }
    }
}

const ROOT: &str = "/tmp/t/profiles";

fn store() -> ProfileStore {
    ProfileStore::new(StatePaths::from_absolute(parse_path(ROOT)), true)
}

fn create(fs: &mut MemFs, name: &str) -> Result<Profile, AppError> {
    drive(fs, store().create(name, 4242))
}

fn list_names(fs: &mut MemFs) -> (Vec<String>, Vec<(String, String)>) {
    let listing = drive(fs, store().list()).unwrap();
    (listing.profiles.into_iter().map(|p| p.name).collect(), listing.ignored)
}

#[test]
fn creates_and_reopens_owned_profile() {
    let mut fs = MemFs::new();

    let created = create(&mut fs, "work").unwrap();
    let reopened = drive(&mut fs, store().open("work")).unwrap();

    assert_eq!(created.path.display(), reopened.path.display());
    assert_eq!(reopened.marker.name, "work");
    match fs.nodes.get(&format!("{ROOT}/work/{CODEX_CONFIG_FILE}")) {
        Some(Node::File(mode, text)) => {
            assert_eq!(text, CODEX_CONFIG);
            assert_eq!(*mode, 0o600);
        }
        other => panic!("config is {other:?}"),
    }
    assert!(matches!(fs.nodes.get(ROOT), Some(Node::Dir(0o700))));
}

#[test]
fn refuses_unowned_directory() {
    let mut fs = MemFs::new();
    fs.mkdir_all(&format!("{ROOT}/work"), 0o700);

    assert!(drive(&mut fs, store().open("work")).is_err());
    assert!(drive(&mut fs, store().remove("work")).is_err());
    assert!(fs.holds(&format!("{ROOT}/work")));
}

#[test]
fn profile_lifecycle_is_safe_and_visible() {
    let mut fs = MemFs::new();
    create(&mut fs, "work").unwrap();

    assert!(!fs.holds(&format!("{ROOT}/work/auth.json")));
    assert_eq!(list_names(&mut fs), (vec!["work".to_owned()], vec![]));

    let owned = drive(&mut fs, store().owned("work")).unwrap();
    assert_eq!(owned.path.display(), format!("{ROOT}/work"));

    let removed = drive(&mut fs, store().remove("work")).unwrap();
    assert_eq!(removed.display(), format!("{ROOT}/work"));
    assert!(!fs.holds(&format!("{ROOT}/work")));
    assert_eq!(list_names(&mut fs), (vec![], vec![]));
}

#[test]
fn rejects_traversal_reserved_names_and_duplicate_profiles() {
    let mut fs = MemFs::new();
    for name in ["../escape", "with space", "CON", "é"] {
        assert!(create(&mut fs, name).is_err(), "accepted {name:?}");
    }
    assert!(!fs.holds("/tmp/t/escape"));

    create(&mut fs, "work").unwrap();
    let duplicate = create(&mut fs, "work").unwrap_err();
    assert!(duplicate.message().contains("already exists"));
}

#[test]
fn refuses_to_remove_an_unowned_directory() {
    let mut fs = MemFs::new();
    fs.mkdir_all(&format!("{ROOT}/not-ours"), 0o700);
    fs.write(&format!("{ROOT}/not-ours/keep.txt"), "keep");

    assert!(drive(&mut fs, store().remove("not-ours")).is_err());
    assert!(fs.holds(&format!("{ROOT}/not-ours/keep.txt")));
}

#[test]
fn refuses_symlinked_profile() {
    let mut fs = MemFs::new();
    fs.mkdir_all(ROOT, 0o700);
    fs.mkdir_all("/tmp/t/outside", 0o700);
    fs.nodes.insert(format!("{ROOT}/work"), Node::Link("/tmp/t/outside".to_owned()));

    let error = drive(&mut fs, store().owned("work")).unwrap_err();
    assert!(error.message().contains("symbolic link"));
}

#[test]
fn owned_profile_can_be_listed_and_removed_when_codex_config_is_invalid() {
    let mut fs = MemFs::new();
    create(&mut fs, "work").unwrap();
    fs.write(&format!("{ROOT}/work/{CODEX_CONFIG_FILE}"), "not valid toml = [");

    assert_eq!(list_names(&mut fs).0, vec!["work".to_owned()]);
    assert!(drive(&mut fs, store().open("work")).is_err());
    drive(&mut fs, store().remove("work")).unwrap();
    assert!(!fs.holds(&format!("{ROOT}/work")));
}

#[test]
fn unsafe_credential_config_blocks_codex_launch() {
    let mut fs = MemFs::new();
    create(&mut fs, "work").unwrap();
    fs.write(&format!("{ROOT}/work/{CODEX_CONFIG_FILE}"), "cli_auth_credentials_store = \"keyring\"\n");

    let error = drive(&mut fs, store().open("work")).unwrap_err();
    assert!(error.message().contains("file-backed"));
}

#[test]
fn listing_sorts_and_explains_what_it_ignores() {
    let mut fs = MemFs::new();
    create(&mut fs, "zeta").unwrap();
    create(&mut fs, "alpha").unwrap();
    fs.mkdir_all(&format!("{ROOT}/stray"), 0o700);
    fs.mkdir_all(&format!("{ROOT}/.tmp-beta-1-0"), 0o700);
    fs.write(&format!("{ROOT}/notes.txt"), "x");

    let (profiles, ignored) = list_names(&mut fs);
    assert_eq!(profiles, vec!["alpha".to_owned(), "zeta".to_owned()]);
    let names: Vec<&str> = ignored.iter().map(|(n, _)| n.as_str()).collect();
    assert_eq!(names, vec!["notes.txt", "stray"]);
    assert!(ignored[1].1.contains("has invalid ownership metadata"));
}

#[test]
fn missing_root_lists_nothing() {
    let mut fs = MemFs::new();
    assert_eq!(list_names(&mut fs), (vec![], vec![]));
}

#[test]
fn a_root_open_to_others_is_refused() {
    let mut fs = MemFs::new();
    fs.mkdir_all(ROOT, 0o755);
    let error = drive(&mut fs, store().list()).unwrap_err();
    assert_eq!(
        error.message(),
        format!("{ROOT} has insecure permissions for profile storage root; expected mode 700")
    );
}

#[test]
fn marker_naming_another_profile_is_not_owned() {
    let mut fs = MemFs::new();
    create(&mut fs, "work").unwrap();
    let marker = ProfileMarker::new("home");
    fs.write(&format!("{ROOT}/work/{MARKER_FILE}"), &encode_marker(&marker));

    let error = drive(&mut fs, store().owned("work")).unwrap_err();
    assert_eq!(
        error.message(),
        "profile \"work\" has invalid ownership metadata: marker names profile \"home\""
    );
}

#[test]
fn missing_profile_is_reported() {
    let mut fs = MemFs::new();
    create(&mut fs, "work").unwrap();
    let error = drive(&mut fs, store().owned("home")).unwrap_err();
    assert_eq!(error.message(), "profile \"home\" does not exist");
}

#[test]
fn creation_skips_taken_temporary_names() {
    let mut fs = MemFs::new();
    fs.mkdir_all(ROOT, 0o700);
    fs.mkdir_all(&format!("{ROOT}/.tmp-work-4242-0"), 0o700);

    create(&mut fs, "work").unwrap();
    assert!(fs.holds(&format!("{ROOT}/work/{MARKER_FILE}")));
    assert!(fs.holds(&format!("{ROOT}/.tmp-work-4242-0")));
    assert!(!fs.holds(&format!("{ROOT}/.tmp-work-4242-1")));
}

#[test]
fn credentials_are_never_read() {
    let mut fs = MemFs::new();
    create(&mut fs, "work").unwrap();
    fs.write(&format!("{ROOT}/work/auth.json"), "{\"token\": \"secret\"}");
    drive(&mut fs, store().open("work")).unwrap();
    list_names(&mut fs);
    drive(&mut fs, store().remove("work")).unwrap();

    assert!(!fs.reads.is_empty());
    for read in &fs.reads {
        assert!(
            read.ends_with(MARKER_FILE) || read.ends_with(CODEX_CONFIG_FILE),
            "read {read}"
        );
    }
}

#[test]
fn creation_writes_only_directly_inside_the_root() {
    let mut fs = MemFs::new();
    create(&mut fs, "work").unwrap();
    assert_eq!(
        fs.writes,
        vec![
            format!("{ROOT}/.tmp-work-4242-0"),
            format!("{ROOT}/.tmp-work-4242-0/{MARKER_FILE}"),
            format!("{ROOT}/.tmp-work-4242-0/{CODEX_CONFIG_FILE}"),
            format!("{ROOT}/work"),
        ]
    );
}

#[test]
fn a_failed_write_leaves_no_temporary_directory() {
    let mut fs = MemFs::new();
    fs.mkdir_all(ROOT, 0o700);

    let mut creation = store().create("work", 4242);
    let mut event = Event::Start;
    let result = loop {
        match creation.step(event) {
            Step::Ask(Request::WriteConfig(p, _)) => {
                let error = std::io::Error::new(std::io::ErrorKind::Other, "disk full");
                event = Event::Made(Err(action_failure(Action::Write, &p, error)));
            }
            Step::Ask(request) => event = fs.perform(request),
            Step::Finished(result) => break result,
        }
    };
    let error = result.unwrap_err();
    assert!(error.message().starts_with(&format!(
        "could not write {ROOT}/.tmp-work-4242-0/{CODEX_CONFIG_FILE}: "
    )));
    assert!(!fs.holds(&format!("{ROOT}/.tmp-work-4242-0")));
    assert!(!fs.holds(&format!("{ROOT}/work")));
}

#[test]
fn a_profile_appearing_during_creation_is_reported_as_existing() {
    let mut fs = MemFs::new();
    let mut creation = store().create("work", 7);
    let mut event = Event::Start;
    let result = loop {
        match creation.step(event) {
            Step::Ask(Request::Rename(from, to)) => {
                fs.mkdir_all(&to.display(), 0o700);
                event = fs.perform(Request::Rename(from, to));
            }
            Step::Ask(request) => event = fs.perform(request),
            Step::Finished(result) => break result,
        }
    };
    assert_eq!(result.unwrap_err().message(), "profile \"work\" already exists");
    assert!(!fs.holds(&format!("{ROOT}/.tmp-work-7-0")));
}

#[test]
fn an_outcome_of_another_kind_asks_again() {
    let mut check = store().owned("work");
    let first = check.step(Event::Start);
    let again = check.step(Event::Discarded);
    match (first, again) {
        (Step::Ask(Request::Exists(a)), Step::Ask(Request::Exists(b))) => {
            assert_eq!(a.display(), format!("{ROOT}/work"));
            assert_eq!(b.display(), a.display());
        }
        other => panic!("unexpected {other:?}"),
    }
}

#[test]
fn marker_round_trips() {
    let marker = ProfileMarker::new("work");
    let serialized = encode_marker(&marker);
    assert!(serialized.contains("name = \"work\""));
    let parsed = ProfileMarker::validate("work", decode_marker(&serialized).unwrap()).unwrap();

    assert_eq!(parsed.name, "work");
    assert_eq!(parsed.schema_version, cxprof::config::SCHEMA_VERSION);
}

#[test]
fn open_passes_loose_permissions_off_unix() {
    let mut fs = MemFs::new();
    create(&mut fs, "work").unwrap();
    fs.nodes.insert(format!("{ROOT}/work/{CODEX_CONFIG_FILE}"), Node::File(0o666, CODEX_CONFIG.to_owned()));
    let unix_store = store();
    assert!(drive(&mut fs, unix_store.open("work")).is_err());
    let other = ProfileStore::new(StatePaths::from_absolute(parse_path(ROOT)), false);
    drive(&mut fs, other.open("work")).unwrap();
}

#[test]
fn a_temporary_directory_that_cannot_be_made_stops_creation() {
    let mut fs = MemFs::new();
    fs.mkdir_all(ROOT, 0o700);

    let mut creation = store().create("work", 4242);
    let mut event = Event::Start;
    let mut attempts = 0;
    let result = loop {
        match creation.step(event) {
            Step::Ask(Request::CreateDir(p)) => {
                attempts += 1;
                let error = std::io::Error::new(std::io::ErrorKind::PermissionDenied, "denied");
                event = Event::Created(Err(action_failure(Action::Create, &p, error)), false);
            }
            Step::Ask(request) => event = fs.perform(request),
            Step::Finished(result) => break result,
        }
    };
    assert_eq!(attempts, 1);
    let error = result.unwrap_err();
    assert!(error
        .message()
        .starts_with(&format!("could not create {ROOT}/.tmp-work-4242-0: ")));
    assert!(!fs.holds(&format!("{ROOT}/work")));
}

#[test]
fn creation_gives_up_when_every_temporary_name_is_taken() {
    let mut fs = MemFs::new();
    fs.mkdir_all(ROOT, 0o700);

    let mut creation = store().create("work", 4242);
    let mut event = Event::Start;
    let mut attempts = 0;
    let result = loop {
        match creation.step(event) {
            Step::Ask(Request::CreateDir(p)) => {
                attempts += 1;
                let error = std::io::Error::new(std::io::ErrorKind::AlreadyExists, "exists");
                event = Event::Created(Err(action_failure(Action::Create, &p, error)), true);
            }
            Step::Ask(request) => event = fs.perform(request),
            Step::Finished(result) => break result,
        }
    };
    assert_eq!(attempts, 100);
    assert_eq!(
        result.unwrap_err().message(),
        format!("refusing unsafe profile at {ROOT}: could not allocate a temporary profile directory")
    );
}
