//! The profile store's procedures. Each procedure decides which filesystem
//! request comes next from what the previous requests returned; the caller
//! performs the requests and reports their outcomes.

use vstd::prelude::*;

use crate::config::{
    config_rejection, is_config_refusal, is_marker_refusal, marker_rejection, toml_entry,
    verify_codex_config, ProfileMarker, CODEX_CONFIG_FILE, CREDENTIALS_STORE_KEY, CODEX_CONFIG, MARKER_FILE,
};
use crate::error::{io_error_text, is_unsafe_profile, AppError, Result};
use crate::paths::{join, parse, render, FsPath, PartView, PathPart};
use crate::permissions::{
    ensure_private_mode, ensure_private_mode_result, inspect_context, inspect_context_text,
    is_io_failure, mode_is, Metadata, DIRECTORY_MODE, FILE_MODE,
};
use crate::profile::{
    is_name_refusal, is_valid_name_text, join_valid_name, name_rejection, validate_profile_name,
    Profile, ProfileStore,
};
use crate::text::{debug_quoted, push_str, quote_debug};

verus! {

/// The reason given for a profile directory that is a symbolic link.
pub const SYMLINK_REASON: &'static str = "directory is a symbolic link";

/// The reason given for a profile path that is not a directory.
pub const NOT_DIRECTORY_REASON: &'static str = "path is not a directory";

/// The reason given for a profile whose resolved path leaves the root.
pub const ESCAPES_STORE_REASON: &'static str = "resolved path escapes the profile storage root";

/// Whether `s` begins with `prefix`.
pub open spec fn starts_with(s: Seq<char>, prefix: Seq<char>) -> bool {
    prefix.len() <= s.len() && s.take(prefix.len() as int) == prefix
}

/// The outcome of `ensure_real_directory`: `path` must be a directory and not
/// a symbolic link.
pub open spec fn real_directory_result(
    path: Seq<PartView>,
    observed: core::result::Result<Metadata, std::io::Error>,
    r: Result<()>,
) -> bool {
    match observed {
        Err(error) => r matches Err(e) && is_io_failure(e, inspect_context(path), error),
        Ok(m) => if m.is_symlink {
            r matches Err(e) && is_unsafe_profile(e, path, SYMLINK_REASON@)
        } else if !m.is_dir {
            r matches Err(e) && is_unsafe_profile(e, path, NOT_DIRECTORY_REASON@)
        } else {
            r is Ok
        },
    }
}

/// Insists that `path` is a real directory, judged on what
/// `fs::symlink_metadata(path)` returned.
pub fn ensure_real_directory(
    path: &FsPath,
    observed: core::result::Result<Metadata, std::io::Error>,
) -> (r: Result<()>)
    ensures
        real_directory_result(path@, observed, r),
{
    match observed {
        Err(error) => Err(AppError::io(inspect_context_text(path), error)),
        Ok(m) => {
            if m.is_symlink {
                Err(AppError::UnsafeProfile { path: path.copy(), reason: SYMLINK_REASON.to_owned() })
            } else if !m.is_dir {
                Err(
                    AppError::UnsafeProfile {
                        path: path.copy(),
                        reason: NOT_DIRECTORY_REASON.to_owned(),
                    },
                )
            } else {
                Ok(())
            }
        },
    }
}

/// `Path::parent`: the path without its last component, unless it is empty
/// or ends at its root or prefix.
pub open spec fn parent(p: Seq<PartView>) -> Option<Seq<PartView>> {
    if p.len() > 0 && p.last() != PartView::Root && !(p.last() is Prefix) {
        Some(p.drop_last())
    } else {
        None
    }
}

/// Whether the resolved profile path lies directly in the resolved root.
pub fn resolved_inside(root: &FsPath, profile: &FsPath) -> (b: bool)
    ensures
        b == (parent(profile@) == Some(root@)),
{
    let n = profile.len();
    if n == 0 {
        return false;
    }
    match &profile.parts[n - 1] {
        PathPart::Root => {
            return false;
        },
        PathPart::Prefix(_) => {
            return false;
        },
        _ => {},
    }
    let mut up = FsPath::empty();
    let mut i: usize = 0;
    while i + 1 < n
        invariant
            i + 1 <= n,
            n == profile@.len(),
            up@ == profile@.take(i as int),
        decreases n - i,
    {
        up.push(profile.parts[i].copy());
        i = i + 1;
        assert(up@ =~= profile@.take(i as int));
    }
    assert(up@ =~= profile@.drop_last());
    up.same(root)
}

/// The context of a failure to resolve `path`.
pub open spec fn resolve_context(path: Seq<PartView>) -> Seq<char> {
    "could not resolve "@ + render(path)
}

fn resolve_context_text(path: &FsPath) -> (s: String)
    ensures
        s@ == resolve_context(path@),
{
    let mut s = String::new();
    push_str(&mut s, "could not resolve ");
    push_str(&mut s, path.display().as_str());
    s
}

/// The reason of a refusal about the ownership marker (`marker`) or about the
/// Codex configuration (otherwise) of the profile `name`.
pub open spec fn file_refusal(e: AppError, marker: bool, name: Seq<char>) -> Option<Seq<char>> {
    if marker {
        match e {
            AppError::InvalidMarker { name: n, reason } => if n@ == name {
                Some(reason@)
            } else {
                None
            },
            _ => None,
        }
    } else {
        match e {
            AppError::UnsafeCredentialConfig { name: n, reason } => if n@ == name {
                Some(reason@)
            } else {
                None
            },
            _ => None,
        }
    }
}

fn file_error(name: &str, marker: bool, reason: String) -> (e: AppError)
    ensures
        file_refusal(e, marker, name@) == Some(reason@),
{
    if marker {
        AppError::InvalidMarker { name: name.to_owned(), reason }
    } else {
        AppError::UnsafeCredentialConfig { name: name.to_owned(), reason }
    }
}

/// The outcome of the first half of `read_regular_text_file`: the file must
/// be a regular file and not a symbolic link.
pub open spec fn regular_file_result(
    name: Seq<char>,
    path: Seq<PartView>,
    marker: bool,
    observed: core::result::Result<Metadata, std::io::Error>,
    r: Result<()>,
) -> bool {
    match observed {
        Err(_) => r matches Err(e) && file_refusal(e, marker, name) matches Some(reason)
            && starts_with(reason, "could not inspect "@ + render(path) + ": "@),
        Ok(m) => if m.is_symlink || !m.is_file {
            r matches Err(e) && file_refusal(e, marker, name) == Some(
                render(path) + " is not a regular file"@,
            )
        } else {
            r is Ok
        },
    }
}

/// Insists that `path`, the marker or the Codex configuration of the profile
/// `name`, is a regular file, judged on what `fs::symlink_metadata` returned.
pub fn check_regular_file(
    name: &str,
    path: &FsPath,
    marker: bool,
    observed: core::result::Result<Metadata, std::io::Error>,
) -> (r: Result<()>)
    ensures
        regular_file_result(name@, path@, marker, observed, r),
{
    match observed {
        Err(error) => {
            let mut reason = String::new();
            push_str(&mut reason, "could not inspect ");
            push_str(&mut reason, path.display().as_str());
            push_str(&mut reason, ": ");
            let ghost head = reason@;
            push_str(&mut reason, io_error_text(&error).as_str());
            assert(reason@.take(head.len() as int) =~= head);
            Err(file_error(name, marker, reason))
        },
        Ok(m) => {
            if m.is_symlink || !m.is_file {
                let mut reason = String::new();
                push_str(&mut reason, path.display().as_str());
                push_str(&mut reason, " is not a regular file");
                Err(file_error(name, marker, reason))
            } else {
                Ok(())
            }
        },
    }
}

/// The outcome of the second half of `read_regular_text_file`.
pub open spec fn file_text_result(
    name: Seq<char>,
    path: Seq<PartView>,
    marker: bool,
    read: core::result::Result<String, std::io::Error>,
    r: Result<String>,
) -> bool {
    match read {
        Err(_) => r matches Err(e) && file_refusal(e, marker, name) matches Some(reason)
            && starts_with(reason, "could not read "@ + render(path) + ": "@),
        Ok(text) => r == Ok::<String, AppError>(text),
    }
}

/// The text of the file `path`, or the refusal for a file that could not be
/// read, judged on what `fs::read_to_string` returned.
pub fn take_file_text(
    name: &str,
    path: &FsPath,
    marker: bool,
    read: core::result::Result<String, std::io::Error>,
) -> (r: Result<String>)
    ensures
        file_text_result(name@, path@, marker, read, r),
{
    match read {
        Err(error) => {
            let mut reason = String::new();
            push_str(&mut reason, "could not read ");
            push_str(&mut reason, path.display().as_str());
            push_str(&mut reason, ": ");
            let ghost head = reason@;
            push_str(&mut reason, io_error_text(&error).as_str());
            assert(reason@.take(head.len() as int) =~= head);
            Err(file_error(name, marker, reason))
        },
        Ok(text) => Ok(text),
    }
}

} // verus!

verus! {

/// A filesystem operation the store needs performed.
#[derive(Debug)]
pub enum Request {
    /// `Path::exists`.
    Exists(FsPath),
    /// `fs::symlink_metadata`.
    Inspect(FsPath),
    /// `fs::canonicalize`.
    Canonicalize(FsPath),
    /// `fs::read_to_string`.
    ReadText(FsPath),
    /// Decode the text of an ownership marker (TOML, unknown fields refused).
    DecodeMarker(String),
    /// Create a private directory and its missing parents.
    CreateDirAll(FsPath),
    /// Create one private directory.
    CreateDir(FsPath),
    /// Encode the marker and write it to a new private file.
    WriteMarker(FsPath, ProfileMarker),
    /// Write the Codex configuration, this text, to a new private file.
    WriteConfig(FsPath, String),
    /// `fs::rename`.
    Rename(FsPath, FsPath),
    /// `fs::remove_dir_all`.
    RemoveAll(FsPath),
    /// `fs::read_dir`, each entry's file name converted lossily to text.
    ReadDir(FsPath),
    /// Remove a directory, ignoring any failure.
    Discard(FsPath),
}

/// The mathematical value of a `Request`.
pub enum RequestView {
    Exists(Seq<PartView>),
    Inspect(Seq<PartView>),
    Canonicalize(Seq<PartView>),
    ReadText(Seq<PartView>),
    DecodeMarker(Seq<char>),
    CreateDirAll(Seq<PartView>),
    CreateDir(Seq<PartView>),
    WriteMarker(Seq<PartView>, u32, Seq<char>, Seq<char>),
    WriteConfig(Seq<PartView>, Seq<char>),
    Rename(Seq<PartView>, Seq<PartView>),
    RemoveAll(Seq<PartView>),
    ReadDir(Seq<PartView>),
    Discard(Seq<PartView>),
}

impl View for Request {
    type V = RequestView;

    open spec fn view(&self) -> RequestView {
        match self {
            Request::Exists(p) => RequestView::Exists(p@),
            Request::Inspect(p) => RequestView::Inspect(p@),
            Request::Canonicalize(p) => RequestView::Canonicalize(p@),
            Request::ReadText(p) => RequestView::ReadText(p@),
            Request::DecodeMarker(t) => RequestView::DecodeMarker(t@),
            Request::CreateDirAll(p) => RequestView::CreateDirAll(p@),
            Request::CreateDir(p) => RequestView::CreateDir(p@),
            Request::WriteMarker(p, m) => RequestView::WriteMarker(
                p@,
                m.schema_version,
                m.name@,
                m.created_by_version@,
            ),
            Request::WriteConfig(p, text) => RequestView::WriteConfig(p@, text@),
            Request::Rename(a, b) => RequestView::Rename(a@, b@),
            Request::RemoveAll(p) => RequestView::RemoveAll(p@),
            Request::ReadDir(p) => RequestView::ReadDir(p@),
            Request::Discard(p) => RequestView::Discard(p@),
        }
    }
}

/// The outcome of a request, or `Start` to begin a procedure.
#[derive(Debug)]
pub enum Event {
    Start,
    Exists(bool),
    Inspected(core::result::Result<Metadata, std::io::Error>),
    Canonical(core::result::Result<FsPath, std::io::Error>),
    Text(core::result::Result<String, std::io::Error>),
    /// The decoded marker, or the decoder's message.
    Decoded(core::result::Result<ProfileMarker, String>),
    /// The outcome of creating a directory or writing a file.
    Made(Result<()>),
    /// The outcome of creating one directory, and whether it failed because
    /// something already existed at its path (`ErrorKind::AlreadyExists`).
    Created(Result<()>, bool),
    Renamed(core::result::Result<(), std::io::Error>),
    Removed(core::result::Result<(), std::io::Error>),
    /// The entries' names, or the failure to open the directory.
    Entries(core::result::Result<Vec<core::result::Result<String, std::io::Error>>, std::io::Error>),
    Discarded,
}

/// What a procedure wants next: a request performed, or nothing more.
#[derive(Debug)]
pub enum Step<T> {
    Ask(Request),
    Finished(Result<T>),
}

/// A step read as a check: asking for more means the check passed.
pub open spec fn check_of<T>(s: Step<T>) -> Result<()> {
    match s {
        Step::Ask(_) => Ok(()),
        Step::Finished(Ok(_)) => Ok(()),
        Step::Finished(Err(e)) => Err(e),
    }
}

/// The stages of `ProfileStore::owned`, in order.
#[derive(Debug)]
pub enum OwnedStage {
    Begin,
    Exists,
    RootKind,
    RootMode,
    DirKind,
    CanonicalRoot,
    CanonicalProfile,
    MarkerKind,
    MarkerRead,
    MarkerDecode,
    Done,
}

pub open spec fn owned_rank(s: OwnedStage) -> int {
    match s {
        OwnedStage::Begin => 0,
        OwnedStage::Exists => 1,
        OwnedStage::RootKind => 2,
        OwnedStage::RootMode => 3,
        OwnedStage::DirKind => 4,
        OwnedStage::CanonicalRoot => 5,
        OwnedStage::CanonicalProfile => 6,
        OwnedStage::MarkerKind => 7,
        OwnedStage::MarkerRead => 8,
        OwnedStage::MarkerDecode => 9,
        OwnedStage::Done => 10,
    }
}

/// What the ownership check has seen so far.
pub struct OwnedEvidence {
    pub root_kind: Metadata,
    pub root_mode: Metadata,
    pub dir_kind: Metadata,
    pub canonical_root: Seq<PartView>,
    pub canonical_profile: Seq<PartView>,
    pub marker_kind: Metadata,
}

/// A real directory: not a symbolic link.
pub open spec fn is_real_directory(m: Metadata) -> bool {
    !m.is_symlink && m.is_dir
}

/// A regular file: not a symbolic link.
pub open spec fn is_regular_file(m: Metadata) -> bool {
    !m.is_symlink && m.is_file
}

/// Everything the ownership check demands: a real and private storage root, a
/// real profile directory whose resolved path lies directly in the resolved
/// root, and a regular marker file.
pub open spec fn owned_evidence(ev: OwnedEvidence, unix: bool) -> bool {
    &&& is_real_directory(ev.root_kind)
    &&& mode_is(ev.root_mode, DIRECTORY_MODE, unix)
    &&& is_real_directory(ev.dir_kind)
    &&& parent(ev.canonical_profile) == Some(ev.canonical_root)
    &&& is_regular_file(ev.marker_kind)
}

/// The ownership check of one profile (`ProfileStore::owned`): the name must
/// be valid, the directory must exist as a real directory directly inside a
/// real and private storage root, and it must hold a regular marker file that
/// names the profile.
pub struct OwnedCheck {
    name: String,
    root: FsPath,
    path: FsPath,
    marker_path: FsPath,
    unix: bool,
    stage: OwnedStage,
    canonical_root: FsPath,
    contents: String,
    evidence: Ghost<OwnedEvidence>,
}

/// The kind of outcome the ownership check waits for at stage `rank`.
pub open spec fn owned_awaits(rank: int, event: Event) -> bool {
    if rank == 0 {
        true
    } else if rank == 1 {
        event is Exists
    } else if rank == 2 || rank == 3 || rank == 4 || rank == 7 {
        event is Inspected
    } else if rank == 5 || rank == 6 {
        event is Canonical
    } else if rank == 8 {
        event is Text
    } else {
        event is Decoded
    }
}

/// The evidence after the stage `rank` accepted `event`: each stage that
/// inspects or resolves a path records what it observed.
pub open spec fn owned_evidence_after(rank: int, ev: OwnedEvidence, event: Event) -> OwnedEvidence {
    match event {
        Event::Inspected(Ok(m)) => if rank == 2 {
            OwnedEvidence { root_kind: m, ..ev }
        } else if rank == 3 {
            OwnedEvidence { root_mode: m, ..ev }
        } else if rank == 4 {
            OwnedEvidence { dir_kind: m, ..ev }
        } else if rank == 7 {
            OwnedEvidence { marker_kind: m, ..ev }
        } else {
            ev
        },
        Event::Canonical(Ok(c)) => if rank == 5 {
            OwnedEvidence { canonical_root: c@, ..ev }
        } else if rank == 6 {
            OwnedEvidence { canonical_profile: c@, ..ev }
        } else {
            ev
        },
        _ => ev,
    }
}

/// The request the ownership check waits on at stage `rank` (the marker's
/// text, waited on at stage 9, is named by the step that read it).
pub open spec fn owned_request_at(rank: int, c: OwnedCheck) -> Option<RequestView> {
    if rank == 1 {
        Some(RequestView::Exists(c.path()))
    } else if rank == 2 || rank == 3 {
        Some(RequestView::Inspect(c.root()))
    } else if rank == 4 {
        Some(RequestView::Inspect(c.path()))
    } else if rank == 5 {
        Some(RequestView::Canonicalize(c.root()))
    } else if rank == 6 {
        Some(RequestView::Canonicalize(c.path()))
    } else if rank == 7 {
        Some(RequestView::Inspect(c.marker_path()))
    } else if rank == 8 {
        Some(RequestView::ReadText(c.marker_path()))
    } else {
        None
    }
}

/// One step of the ownership check: `before`, given `event`, became `after`
/// and answered `s`. Each stage judges the outcome of its own request; an
/// outcome of another kind changes nothing and asks for the pending request
/// again.
pub open spec fn owned_step(before: OwnedCheck, event: Event, after: OwnedCheck, s: Step<Profile>) -> bool {
    &&& !owned_awaits(before.rank(), event) ==> after == before && (s matches Step::Ask(r) && Some(
        r@,
    ) == before.pending())
    &&& owned_awaits(before.rank(), event) && s is Ask ==> after.rank() == before.rank() + 1
    &&& s matches Step::Finished(Ok(_)) ==> before.rank() == 9
    &&& s matches Step::Ask(r) ==> after.rank() <= 8 ==> Some(r@) == owned_request_at(after.rank(), after)
    &&& after.evidence() == (if s is Ask {
        owned_evidence_after(before.rank(), before.evidence(), event)
    } else {
        before.evidence()
    })
    &&& after.wf()
    &&& after.name() == before.name()
    &&& after.root() == before.root()
    &&& after.unix() == before.unix()
    &&& after.path() == before.path()
    &&& after.marker_path() == before.marker_path()
    &&& match s {
        Step::Ask(req) => !after.is_done() && after.pending() == Some(req@),
        Step::Finished(Ok(p)) => {
            &&& after.is_done()
            &&& is_valid_name_text(before.name())
            &&& owned_evidence(after.evidence(), before.unix())
            &&& p.name@ == before.name()
            &&& p.path@ == before.path()
            &&& marker_rejection(
                p.name@,
                p.marker.schema_version,
                p.marker.name@,
                p.marker.created_by_version@,
            ) is None
        },
        Step::Finished(Err(_)) => after.is_done(),
    }
    &&& before.rank() == 0 ==> match name_rejection(
        before.name(),
        vstd::utf8::encode_utf8(before.name()).len(),
    ) {
        Some(reason) => s matches Step::Finished(Err(e)) && is_name_refusal(
            e,
            before.name(),
            reason,
        ),
        None => s is Ask,
    }
    &&& event matches Event::Exists(found) ==> before.rank() == 1 ==> {
        &&& (found <==> s is Ask)
        &&& !found ==> (s matches Step::Finished(Err(AppError::ProfileMissing(n))) && n@
            == before.name())
    }
    &&& event matches Event::Inspected(obs) ==> before.rank() == 2 ==> real_directory_result(
        before.root(),
        obs,
        check_of(s),
    )
    &&& event matches Event::Inspected(obs) ==> before.rank() == 3 ==> ensure_private_mode_result(
        before.root(),
        obs,
        DIRECTORY_MODE,
        "profile storage root",
        before.unix(),
        check_of(s),
    )
    &&& event matches Event::Inspected(obs) ==> before.rank() == 4 ==> real_directory_result(
        before.path(),
        obs,
        check_of(s),
    )
    &&& event matches Event::Canonical(res) ==> before.rank() == 5 ==> match res {
        Err(error) => s matches Step::Finished(Err(e)) && is_io_failure(
            e,
            resolve_context(before.root()),
            error,
        ),
        Ok(_) => s is Ask,
    }
    &&& event matches Event::Canonical(res) ==> before.rank() == 6 ==> match res {
        Err(error) => s matches Step::Finished(Err(e)) && is_io_failure(
            e,
            resolve_context(before.path()),
            error,
        ),
        Ok(c) => if parent(c@) == Some(before.evidence().canonical_root) {
            s is Ask
        } else {
            s matches Step::Finished(Err(e)) && is_unsafe_profile(
                e,
                before.path(),
                ESCAPES_STORE_REASON@,
            )
        },
    }
    &&& event matches Event::Inspected(obs) ==> before.rank() == 7 ==> regular_file_result(
        before.name(),
        before.marker_path(),
        true,
        obs,
        check_of(s),
    )
    &&& event matches Event::Text(read) ==> before.rank() == 8 ==> match read {
        Err(_) => s matches Step::Finished(Err(e)) && file_refusal(
            e,
            true,
            before.name(),
        ) matches Some(reason) && starts_with(
            reason,
            "could not read "@ + render(before.marker_path()) + ": "@,
        ),
        Ok(text) => s matches Step::Ask(req) && req@ == RequestView::DecodeMarker(text@),
    }
    &&& event matches Event::Decoded(decoded) ==> before.rank() == 9 ==> match decoded {
        Err(message) => s matches Step::Finished(Err(e)) && is_marker_refusal(
            e,
            before.name(),
            message@,
        ),
        Ok(m) => match marker_rejection(
            before.name(),
            m.schema_version,
            m.name@,
            m.created_by_version@,
        ) {
            Some(reason) => s matches Step::Finished(Err(e)) && is_marker_refusal(
                e,
                before.name(),
                reason,
            ),
            None => s matches Step::Finished(Ok(p)) && p.marker.schema_version
                == m.schema_version && p.marker.name@ == m.name@
                && p.marker.created_by_version@ == m.created_by_version@,
        },
    }
}

impl OwnedCheck {
    pub closed spec fn name(&self) -> Seq<char> {
        self.name@
    }

    pub closed spec fn root(&self) -> Seq<PartView> {
        self.root@
    }

    /// Whether permission bits are checked.
    pub closed spec fn unix(&self) -> bool {
        self.unix
    }

    /// The profile directory: the root joined with the name.
    pub closed spec fn path(&self) -> Seq<PartView> {
        self.path@
    }

    pub closed spec fn rank(&self) -> int {
        owned_rank(self.stage)
    }

    pub closed spec fn evidence(&self) -> OwnedEvidence {
        self.evidence@
    }

    /// The request whose outcome the check waits for.
    pub closed spec fn pending(&self) -> Option<RequestView> {
        match self.stage {
            OwnedStage::Exists => Some(RequestView::Exists(self.path@)),
            OwnedStage::RootKind => Some(RequestView::Inspect(self.root@)),
            OwnedStage::RootMode => Some(RequestView::Inspect(self.root@)),
            OwnedStage::DirKind => Some(RequestView::Inspect(self.path@)),
            OwnedStage::CanonicalRoot => Some(RequestView::Canonicalize(self.root@)),
            OwnedStage::CanonicalProfile => Some(RequestView::Canonicalize(self.path@)),
            OwnedStage::MarkerKind => Some(RequestView::Inspect(self.marker_path@)),
            OwnedStage::MarkerRead => Some(RequestView::ReadText(self.marker_path@)),
            OwnedStage::MarkerDecode => Some(RequestView::DecodeMarker(self.contents@)),
            _ => None,
        }
    }

    /// The marker file of the profile.
    pub closed spec fn marker_path(&self) -> Seq<PartView> {
        self.marker_path@
    }

    pub closed spec fn wf(&self) -> bool {
        &&& self.path@ == join(self.root@, parse(self.name@))
        &&& self.marker_path@ == self.path@.push(PartView::Normal(MARKER_FILE@))
        &&& self.rank() >= 1 && self.rank() < 10 ==> is_valid_name_text(self.name@)
        &&& self.rank() >= 3 && self.rank() < 10 ==> is_real_directory(self.evidence@.root_kind)
        &&& self.rank() >= 4 && self.rank() < 10 ==> mode_is(
            self.evidence@.root_mode,
            DIRECTORY_MODE,
            self.unix,
        )
        &&& self.rank() >= 5 && self.rank() < 10 ==> is_real_directory(self.evidence@.dir_kind)
        &&& self.rank() >= 6 && self.rank() < 10 ==> self.evidence@.canonical_root
            == self.canonical_root@
        &&& self.rank() >= 7 && self.rank() < 10 ==> parent(self.evidence@.canonical_profile)
            == Some(self.evidence@.canonical_root)
        &&& self.rank() >= 8 && self.rank() < 10 ==> is_regular_file(self.evidence@.marker_kind)
    }

    pub closed spec fn is_done(&self) -> bool {
        self.stage is Done
    }

    fn pending_request(&self) -> (r: Request)
        requires
            self.pending() is Some,
        ensures
            Some(r@) == self.pending(),
    {
        match self.stage {
            OwnedStage::Exists => Request::Exists(self.path.copy()),
            OwnedStage::RootKind => Request::Inspect(self.root.copy()),
            OwnedStage::RootMode => Request::Inspect(self.root.copy()),
            OwnedStage::DirKind => Request::Inspect(self.path.copy()),
            OwnedStage::CanonicalRoot => Request::Canonicalize(self.root.copy()),
            OwnedStage::CanonicalProfile => Request::Canonicalize(self.path.copy()),
            OwnedStage::MarkerKind => Request::Inspect(self.marker_path.copy()),
            OwnedStage::MarkerRead => Request::ReadText(self.marker_path.copy()),
            _ => Request::DecodeMarker(self.contents.clone()),
        }
    }

    fn finish(&mut self, r: Result<Profile>) -> (s: Step<Profile>)
        requires
            old(self).wf(),
            r is Err,
        ensures
            final(self).wf(),
            final(self).is_done(),
            s == Step::Finished(r),
            final(self).name() == old(self).name(),
            final(self).root() == old(self).root(),
            final(self).path() == old(self).path(),
            final(self).evidence() == old(self).evidence(),
            final(self).unix() == old(self).unix(),
    {
        self.stage = OwnedStage::Done;
        Step::Finished(r)
    }

    /// Advances the check with the outcome of the pending request (or
    /// `Start`).
    #[verifier::rlimit(100)]
    pub fn step(&mut self, event: Event) -> (s: Step<Profile>)
        requires
            old(self).wf(),
            !old(self).is_done(),
        ensures
            owned_step(*old(self), event, *final(self), s),
    {
        let ghost seen_event = event;
        let ghost seen_rank = self.rank();
        let ghost seen_evidence = self.evidence@;
        match self.stage {
            OwnedStage::Begin => {
                match validate_profile_name(self.name.as_str()) {
                    Err(e) => self.finish(Err(e)),
                    Ok(()) => {
                        self.stage = OwnedStage::Exists;
                        Step::Ask(self.pending_request())
                    },
                }
            },
            OwnedStage::Exists => {
                match event {
                    Event::Exists(found) => {
                        if !found {
                            let e = AppError::ProfileMissing(self.name.clone());
                            self.finish(Err(e))
                        } else {
                            self.stage = OwnedStage::RootKind;
                            Step::Ask(self.pending_request())
                        }
                    },
                    _ => Step::Ask(self.pending_request()),
                }
            },
            OwnedStage::RootKind => {
                match event {
                    Event::Inspected(obs) => {
                        let ghost seen = obs;
                        match ensure_real_directory(&self.root, obs) {
                            Err(e) => self.finish(Err(e)),
                            Ok(()) => {
                                proof {
                                    self.evidence = Ghost(owned_evidence_after(seen_rank, seen_evidence, seen_event));
                                }
                                self.stage = OwnedStage::RootMode;
                                Step::Ask(self.pending_request())
                            },
                        }
                    },
                    _ => Step::Ask(self.pending_request()),
                }
            },
            OwnedStage::RootMode => {
                match event {
                    Event::Inspected(obs) => {
                        let ghost seen = obs;
                        match ensure_private_mode(&self.root, obs, DIRECTORY_MODE, "profile storage root", self.unix) {
                            Err(e) => self.finish(Err(e)),
                            Ok(()) => {
                                proof {
                                    self.evidence = Ghost(owned_evidence_after(seen_rank, seen_evidence, seen_event));
                                }
                                self.stage = OwnedStage::DirKind;
                                Step::Ask(self.pending_request())
                            },
                        }
                    },
                    _ => Step::Ask(self.pending_request()),
                }
            },
            OwnedStage::DirKind => {
                match event {
                    Event::Inspected(obs) => {
                        let ghost seen = obs;
                        match ensure_real_directory(&self.path, obs) {
                            Err(e) => self.finish(Err(e)),
                            Ok(()) => {
                                proof {
                                    self.evidence = Ghost(owned_evidence_after(seen_rank, seen_evidence, seen_event));
                                }
                                self.stage = OwnedStage::CanonicalRoot;
                                Step::Ask(self.pending_request())
                            },
                        }
                    },
                    _ => Step::Ask(self.pending_request()),
                }
            },
            OwnedStage::CanonicalRoot => {
                match event {
                    Event::Canonical(res) => {
                        match res {
                            Err(error) => {
                                let e = AppError::io(resolve_context_text(&self.root), error);
                                self.finish(Err(e))
                            },
                            Ok(c) => {
                                proof {
                                    self.evidence = Ghost(owned_evidence_after(seen_rank, seen_evidence, seen_event));
                                }
                                self.canonical_root = c;
                                self.stage = OwnedStage::CanonicalProfile;
                                Step::Ask(self.pending_request())
                            },
                        }
                    },
                    _ => Step::Ask(self.pending_request()),
                }
            },
            OwnedStage::CanonicalProfile => {
                match event {
                    Event::Canonical(res) => {
                        match res {
                            Err(error) => {
                                let e = AppError::io(resolve_context_text(&self.path), error);
                                self.finish(Err(e))
                            },
                            Ok(c) => {
                                if resolved_inside(&self.canonical_root, &c) {
                                    proof {
                                        self.evidence = Ghost(owned_evidence_after(seen_rank, seen_evidence, seen_event));
                                    }
                                    self.stage = OwnedStage::MarkerKind;
                                    Step::Ask(self.pending_request())
                                } else {
                                    let e = AppError::UnsafeProfile {
                                        path: self.path.copy(),
                                        reason: ESCAPES_STORE_REASON.to_owned(),
                                    };
                                    self.finish(Err(e))
                                }
                            },
                        }
                    },
                    _ => Step::Ask(self.pending_request()),
                }
            },
            OwnedStage::MarkerKind => {
                match event {
                    Event::Inspected(obs) => {
                        let ghost seen = obs;
                        match check_regular_file(self.name.as_str(), &self.marker_path, true, obs) {
                            Err(e) => self.finish(Err(e)),
                            Ok(()) => {
                                proof {
                                    self.evidence = Ghost(owned_evidence_after(seen_rank, seen_evidence, seen_event));
                                }
                                self.stage = OwnedStage::MarkerRead;
                                Step::Ask(self.pending_request())
                            },
                        }
                    },
                    _ => Step::Ask(self.pending_request()),
                }
            },
            OwnedStage::MarkerRead => {
                match event {
                    Event::Text(read) => {
                        match take_file_text(self.name.as_str(), &self.marker_path, true, read) {
                            Err(e) => self.finish(Err(e)),
                            Ok(text) => {
                                self.contents = text;
                                self.stage = OwnedStage::MarkerDecode;
                                Step::Ask(self.pending_request())
                            },
                        }
                    },
                    _ => Step::Ask(self.pending_request()),
                }
            },
            OwnedStage::MarkerDecode => {
                match event {
                    Event::Decoded(decoded) => {
                        match decoded {
                            Err(message) => {
                                let e = AppError::InvalidMarker { name: self.name.clone(), reason: message };
                                self.finish(Err(e))
                            },
                            Ok(m) => {
                                match ProfileMarker::validate(self.name.as_str(), m) {
                                    Err(e) => self.finish(Err(e)),
                                    Ok(marker) => {
                                        self.stage = OwnedStage::Done;
                                        Step::Finished(
                                            Ok(
                                                Profile {
                                                    name: self.name.clone(),
                                                    path: self.path.copy(),
                                                    marker,
                                                },
                                            ),
                                        )
                                    },
                                }
                            },
                        }
                    },
                    _ => Step::Ask(self.pending_request()),
                }
            },
            OwnedStage::Done => Step::Ask(Request::Exists(self.path.copy())),
        }
    }
}

impl OwnedCheck {
    /// The ownership check of the profile called `name` under `root`.
    pub fn new(root: &FsPath, name: &str, unix: bool) -> (c: OwnedCheck)
        ensures
            c.wf(),
            c.rank() == 0,
            !c.is_done(),
            c.name() == name@,
            c.root() == root@,
            c.unix() == unix,
            c.path() == join(root@, parse(name@)),
    {
        let path = root.join_str(name);
        let mut marker_path = path.copy();
        marker_path.push(PathPart::Normal(MARKER_FILE.to_owned()));
        OwnedCheck {
            name: name.to_owned(),
            root: root.copy(),
            path,
            marker_path,
            unix,
            stage: OwnedStage::Begin,
            canonical_root: FsPath::empty(),
            contents: String::new(),
            evidence: Ghost(
                OwnedEvidence {
                    root_kind: arbitrary(),
                    root_mode: arbitrary(),
                    dir_kind: arbitrary(),
                    canonical_root: Seq::empty(),
                    canonical_profile: Seq::empty(),
                    marker_kind: arbitrary(),
                },
            ),
        }
    }
}

impl ProfileStore {
    /// Begins the ownership check of the profile called `name`
    /// (`ProfileStore::owned`).
    pub fn owned(&self, name: &str) -> (c: OwnedCheck)
        ensures
            c.wf(),
            c.rank() == 0,
            !c.is_done(),
            c.name() == name@,
            c.root() == self@,
            c.path() == join(self@, parse(name@)),
            c.unix() == self.unix(),
    {
        OwnedCheck::new(self.root(), name, self.checks_permissions())
    }
}

} // verus!

verus! {

/// The stages of `ProfileStore::open` after the ownership check, in order.
#[derive(Debug)]
pub enum OpenStage {
    Owned,
    DirMode,
    MarkerMode,
    ConfigKind,
    ConfigRead,
    ConfigMode,
    Done,
}

pub open spec fn open_rank(s: OpenStage) -> int {
    match s {
        OpenStage::Owned => 0,
        OpenStage::DirMode => 1,
        OpenStage::MarkerMode => 2,
        OpenStage::ConfigKind => 3,
        OpenStage::ConfigRead => 4,
        OpenStage::ConfigMode => 5,
        OpenStage::Done => 6,
    }
}

/// What opening a profile has seen after its ownership check.
pub struct OpenEvidence {
    pub dir_mode: Metadata,
    pub marker_mode: Metadata,
    pub config_kind: Metadata,
    pub config_text: Seq<char>,
    pub config_mode: Metadata,
}

/// Everything opening demands beyond ownership: a private profile directory,
/// private marker and configuration files, a regular configuration file, and
/// a configuration that keeps Codex credentials in files.
pub open spec fn open_evidence(ev: OpenEvidence, unix: bool) -> bool {
    &&& mode_is(ev.dir_mode, DIRECTORY_MODE, unix)
    &&& mode_is(ev.marker_mode, FILE_MODE, unix)
    &&& is_regular_file(ev.config_kind)
    &&& mode_is(ev.config_mode, FILE_MODE, unix)
    &&& config_rejection(toml_entry(ev.config_text, CREDENTIALS_STORE_KEY@)) is None
}

/// Opening a profile for use by Codex (`ProfileStore::open`): the ownership
/// check, then private permissions on the directory, the marker and the Codex
/// configuration, which must be a regular file selecting file-backed
/// credentials.
pub struct OpenCheck {
    owned: OwnedCheck,
    stage: OpenStage,
    profile: Option<Profile>,
    config_path: FsPath,
    contents: String,
    evidence: Ghost<OpenEvidence>,
}

/// The evidence after the stage `rank` of opening accepted `event`.
pub open spec fn open_evidence_after(rank: int, ev: OpenEvidence, event: Event) -> OpenEvidence {
    match event {
        Event::Inspected(Ok(m)) => if rank == 1 {
            OpenEvidence { dir_mode: m, ..ev }
        } else if rank == 2 {
            OpenEvidence { marker_mode: m, ..ev }
        } else if rank == 3 {
            OpenEvidence { config_kind: m, ..ev }
        } else if rank == 5 {
            OpenEvidence { config_mode: m, ..ev }
        } else {
            ev
        },
        Event::Text(Ok(t)) => if rank == 4 {
            OpenEvidence { config_text: t@, ..ev }
        } else {
            ev
        },
        _ => ev,
    }
}

/// The request opening waits on at stages 1 to 5.
pub open spec fn open_request_at(rank: int, c: OpenCheck) -> Option<RequestView> {
    if rank == 1 {
        Some(RequestView::Inspect(c.path()))
    } else if rank == 2 {
        Some(RequestView::Inspect(c.owned().marker_path()))
    } else if rank == 3 || rank == 5 {
        Some(RequestView::Inspect(c.config_path()))
    } else if rank == 4 {
        Some(RequestView::ReadText(c.config_path()))
    } else {
        None
    }
}

/// One step of opening: `before`, given `event`, became `after` and answered
/// `s`. While the ownership check runs, it is stepped with the same event;
/// afterwards an outcome of another kind than the one waited for changes
/// nothing.
pub open spec fn open_step(before: OpenCheck, event: Event, after: OpenCheck, s: Step<Profile>) -> bool {
    let unix = before.owned().unix();
    let mode_ok = |obs: core::result::Result<Metadata, std::io::Error>, mode: u32|
        !unix || (obs matches Ok(m) && (m.mode & 0o777) == mode);
    let awaited = if before.rank() == 4 {
        event is Text
    } else {
        event is Inspected
    };
    &&& 1 <= before.rank() <= 5 && !awaited ==> after == before && (s matches Step::Ask(r) && Some(
        r@,
    ) == before.pending())
    &&& 1 <= before.rank() <= 4 && awaited && s is Ask ==> after.rank() == before.rank() + 1
    &&& before.rank() == 0 && s is Ask ==> after.rank() <= 1
    &&& s matches Step::Finished(Ok(_)) ==> before.rank() == 5
    &&& s matches Step::Ask(r) ==> 1 <= after.rank() <= 5 ==> Some(r@) == open_request_at(
        after.rank(),
        after,
    )
    &&& before.rank() >= 1 ==> after.owned() == before.owned()
    &&& before.rank() >= 1 && s is Ask ==> after.profile() == before.profile()
    &&& before.rank() == 5 ==> (s matches Step::Finished(Ok(p)) ==> p == before.profile())
    &&& after.evidence() == (if s is Ask || s matches Step::Finished(Ok(_)) {
        open_evidence_after(before.rank(), before.evidence(), event)
    } else {
        before.evidence()
    })
    &&& after.wf()
    &&& after.name() == before.name()
    &&& after.root() == before.root()
    &&& after.path() == before.path()
    &&& after.config_path() == before.config_path()
    &&& match s {
        Step::Ask(req) => !after.is_done() && after.pending() == Some(req@),
        Step::Finished(Ok(p)) => {
            &&& after.is_done()
            &&& is_valid_name_text(before.name())
            &&& owned_evidence(after.owned().evidence(), unix)
            &&& open_evidence(after.evidence(), unix)
            &&& p.name@ == before.name()
            &&& p.path@ == before.path()
            &&& marker_rejection(
                p.name@,
                p.marker.schema_version,
                p.marker.name@,
                p.marker.created_by_version@,
            ) is None
        },
        Step::Finished(Err(_)) => after.is_done(),
    }
    &&& before.rank() == 0 ==> owned_step(
        before.owned(),
        event,
        after.owned(),
        if after.rank() == 1 {
            Step::Finished(Ok(after.profile()))
        } else {
            s
        },
    )
    &&& event matches Event::Inspected(obs) ==> before.rank() == 1 ==> ensure_private_mode_result(
        before.path(),
        obs,
        DIRECTORY_MODE,
        "profile directory",
        unix,
        check_of(s),
    )
    &&& event matches Event::Inspected(obs) ==> before.rank() == 2 ==> ensure_private_mode_result(
        before.owned().marker_path(),
        obs,
        FILE_MODE,
        "ownership marker",
        unix,
        check_of(s),
    )
    &&& event matches Event::Inspected(obs) ==> before.rank() == 3 ==> regular_file_result(
        before.name(),
        before.config_path(),
        false,
        obs,
        check_of(s),
    )
    &&& event matches Event::Text(read) ==> before.rank() == 4 ==> match read {
        Err(_) => s matches Step::Finished(Err(e)) && file_refusal(
            e,
            false,
            before.name(),
        ) matches Some(reason) && starts_with(
            reason,
            "could not read "@ + render(before.config_path()) + ": "@,
        ),
        Ok(text) => s is Ask && after.evidence().config_text == text@,
    }
    &&& event matches Event::Inspected(obs) ==> before.rank() == 5 ==> if mode_ok(obs, FILE_MODE) {
        match config_rejection(toml_entry(before.evidence().config_text, CREDENTIALS_STORE_KEY@)) {
            None => s is Finished && check_of(s) is Ok,
            Some(reason) => s matches Step::Finished(Err(e)) && is_config_refusal(
                e,
                before.name(),
                reason,
            ),
        }
    } else {
        ensure_private_mode_result(
            before.config_path(),
            obs,
            FILE_MODE,
            "Codex config",
            unix,
            check_of(s),
        )
    }
}

impl OpenCheck {
    pub closed spec fn owned(&self) -> OwnedCheck {
        self.owned
    }

    pub closed spec fn name(&self) -> Seq<char> {
        self.owned.name()
    }

    pub closed spec fn root(&self) -> Seq<PartView> {
        self.owned.root()
    }

    pub closed spec fn path(&self) -> Seq<PartView> {
        self.owned.path()
    }

    /// The Codex configuration file of the profile.
    pub closed spec fn config_path(&self) -> Seq<PartView> {
        self.config_path@
    }

    pub closed spec fn rank(&self) -> int {
        open_rank(self.stage)
    }

    /// The profile the ownership check produced.
    pub closed spec fn profile(&self) -> Profile {
        self.profile->Some_0
    }

    pub closed spec fn evidence(&self) -> OpenEvidence {
        self.evidence@
    }

    pub closed spec fn is_done(&self) -> bool {
        self.stage is Done
    }

    pub closed spec fn pending(&self) -> Option<RequestView> {
        match self.stage {
            OpenStage::Owned => self.owned.pending(),
            OpenStage::DirMode => Some(RequestView::Inspect(self.owned.path())),
            OpenStage::MarkerMode => Some(RequestView::Inspect(self.owned.marker_path())),
            OpenStage::ConfigKind => Some(RequestView::Inspect(self.config_path@)),
            OpenStage::ConfigRead => Some(RequestView::ReadText(self.config_path@)),
            OpenStage::ConfigMode => Some(RequestView::Inspect(self.config_path@)),
            OpenStage::Done => None,
        }
    }

    pub closed spec fn wf(&self) -> bool {
        &&& self.owned.wf()
        &&& self.config_path@ == self.owned.path().push(PartView::Normal(CODEX_CONFIG_FILE@))
        &&& self.rank() == 0 ==> !self.owned.is_done()
        &&& self.rank() >= 1 && self.rank() < 6 ==> {
            &&& self.owned.is_done()
            &&& self.profile is Some
            &&& is_valid_name_text(self.owned.name())
            &&& owned_evidence(self.owned.evidence(), self.owned.unix())
            &&& self.profile->Some_0.name@ == self.owned.name()
            &&& self.profile->Some_0.path@ == self.owned.path()
            &&& marker_rejection(
                self.profile->Some_0.name@,
                self.profile->Some_0.marker.schema_version,
                self.profile->Some_0.marker.name@,
                self.profile->Some_0.marker.created_by_version@,
            ) is None
        }
        &&& self.rank() >= 2 && self.rank() < 6 ==> mode_is(
            self.evidence@.dir_mode,
            DIRECTORY_MODE,
            self.owned.unix(),
        )
        &&& self.rank() >= 3 && self.rank() < 6 ==> mode_is(
            self.evidence@.marker_mode,
            FILE_MODE,
            self.owned.unix(),
        )
        &&& self.rank() >= 4 && self.rank() < 6 ==> is_regular_file(self.evidence@.config_kind)
        &&& self.rank() >= 5 && self.rank() < 6 ==> self.evidence@.config_text == self.contents@
    }

    fn pending_request(&self) -> (r: Request)
        requires
            self.wf(),
            self.rank() >= 1,
            self.pending() is Some,
        ensures
            Some(r@) == self.pending(),
    {
        match self.stage {
            OpenStage::DirMode => Request::Inspect(self.owned.path.copy()),
            OpenStage::MarkerMode => Request::Inspect(self.owned.marker_path.copy()),
            OpenStage::ConfigKind => Request::Inspect(self.config_path.copy()),
            OpenStage::ConfigRead => Request::ReadText(self.config_path.copy()),
            _ => Request::Inspect(self.config_path.copy()),
        }
    }

    /// Advances opening with the outcome of the pending request (or `Start`).
    #[verifier::rlimit(100)]
    pub fn step(&mut self, event: Event) -> (s: Step<Profile>)
        requires
            old(self).wf(),
            !old(self).is_done(),
        ensures
            open_step(*old(self), event, *final(self), s),
    {
        let ghost seen_event = event;
        let ghost seen_rank = self.rank();
        let ghost seen_evidence = self.evidence@;
        match self.stage {
            OpenStage::Owned => {
                match self.owned.step(event) {
                    Step::Ask(req) => Step::Ask(req),
                    Step::Finished(Err(e)) => {
                        self.stage = OpenStage::Done;
                        Step::Finished(Err(e))
                    },
                    Step::Finished(Ok(p)) => {
                        self.profile = Some(p);
                        self.stage = OpenStage::DirMode;
                        Step::Ask(self.pending_request())
                    },
                }
            },
            OpenStage::DirMode => {
                match event {
                    Event::Inspected(obs) => {
                        let ghost seen = obs;
                        match ensure_private_mode(&self.owned.path, obs, DIRECTORY_MODE, "profile directory", self.owned.unix) {
                            Err(e) => {
                                self.stage = OpenStage::Done;
                                Step::Finished(Err(e))
                            },
                            Ok(()) => {
                                proof {
                                    self.evidence = Ghost(open_evidence_after(seen_rank, seen_evidence, seen_event));
                                }
                                self.stage = OpenStage::MarkerMode;
                                Step::Ask(self.pending_request())
                            },
                        }
                    },
                    _ => Step::Ask(self.pending_request()),
                }
            },
            OpenStage::MarkerMode => {
                match event {
                    Event::Inspected(obs) => {
                        let ghost seen = obs;
                        match ensure_private_mode(&self.owned.marker_path, obs, FILE_MODE, "ownership marker", self.owned.unix) {
                            Err(e) => {
                                self.stage = OpenStage::Done;
                                Step::Finished(Err(e))
                            },
                            Ok(()) => {
                                proof {
                                    self.evidence = Ghost(open_evidence_after(seen_rank, seen_evidence, seen_event));
                                }
                                self.stage = OpenStage::ConfigKind;
                                Step::Ask(self.pending_request())
                            },
                        }
                    },
                    _ => Step::Ask(self.pending_request()),
                }
            },
            OpenStage::ConfigKind => {
                match event {
                    Event::Inspected(obs) => {
                        let ghost seen = obs;
                        match check_regular_file(self.owned.name.as_str(), &self.config_path, false, obs) {
                            Err(e) => {
                                self.stage = OpenStage::Done;
                                Step::Finished(Err(e))
                            },
                            Ok(()) => {
                                proof {
                                    self.evidence = Ghost(open_evidence_after(seen_rank, seen_evidence, seen_event));
                                }
                                self.stage = OpenStage::ConfigRead;
                                Step::Ask(self.pending_request())
                            },
                        }
                    },
                    _ => Step::Ask(self.pending_request()),
                }
            },
            OpenStage::ConfigRead => {
                match event {
                    Event::Text(read) => {
                        match take_file_text(self.owned.name.as_str(), &self.config_path, false, read) {
                            Err(e) => {
                                self.stage = OpenStage::Done;
                                Step::Finished(Err(e))
                            },
                            Ok(text) => {
                                proof {
                                    self.evidence = Ghost(open_evidence_after(seen_rank, seen_evidence, seen_event));
                                }
                                self.contents = text;
                                self.stage = OpenStage::ConfigMode;
                                Step::Ask(self.pending_request())
                            },
                        }
                    },
                    _ => Step::Ask(self.pending_request()),
                }
            },
            _ => {
                match event {
                    Event::Inspected(obs) => {
                        let ghost seen = obs;
                        match ensure_private_mode(&self.config_path, obs, FILE_MODE, "Codex config", self.owned.unix) {
                            Err(e) => {
                                self.stage = OpenStage::Done;
                                Step::Finished(Err(e))
                            },
                            Ok(()) => {
                                match verify_codex_config(self.owned.name.as_str(), self.contents.as_str()) {
                                    Err(e) => {
                                        self.stage = OpenStage::Done;
                                        Step::Finished(Err(e))
                                    },
                                    Ok(()) => {
                                        proof {
                                            self.evidence = Ghost(open_evidence_after(seen_rank, seen_evidence, seen_event));
                                        }
                                        self.stage = OpenStage::Done;
                                        let p = self.profile.take();
                                        match p {
                                            Some(p) => Step::Finished(Ok(p)),
                                            None => Step::Finished(Err(AppError::ProfileMissing(self.owned.name.clone()))),
                                        }
                                    },
                                }
                            },
                        }
                    },
                    _ => Step::Ask(self.pending_request()),
                }
            },
        }
    }
}

impl ProfileStore {
    /// Begins opening the profile called `name` for use by Codex
    /// (`ProfileStore::open`).
    pub fn open(&self, name: &str) -> (c: OpenCheck)
        ensures
            c.wf(),
            c.rank() == 0,
            !c.is_done(),
            !c.owned().is_done(),
            c.owned().rank() == 0,
            c.owned().unix() == self.unix(),
            c.name() == name@,
            c.root() == self@,
            c.path() == join(self@, parse(name@)),
    {
        let owned = self.owned(name);
        let mut config_path = owned.path.copy();
        config_path.push(PathPart::Normal(CODEX_CONFIG_FILE.to_owned()));
        OpenCheck {
            owned,
            stage: OpenStage::Owned,
            profile: None,
            config_path,
            contents: String::new(),
            evidence: Ghost(
                OpenEvidence {
                    dir_mode: arbitrary(),
                    marker_mode: arbitrary(),
                    config_kind: arbitrary(),
                    config_text: Seq::empty(),
                    config_mode: arbitrary(),
                },
            ),
        }
    }
}

} // verus!

verus! {

/// The context of a failure to remove the profile `name` at `path`.
pub open spec fn remove_context(name: Seq<char>, path: Seq<PartView>) -> Seq<char> {
    "could not remove profile "@ + debug_quoted(name) + " at "@ + render(path)
}

fn remove_context_text(name: &str, path: &FsPath) -> (s: String)
    ensures
        s@ == remove_context(name@, path@),
{
    let mut s = String::new();
    push_str(&mut s, "could not remove profile ");
    push_str(&mut s, quote_debug(name).as_str());
    push_str(&mut s, " at ");
    push_str(&mut s, path.display().as_str());
    s
}

/// Removing a profile (`ProfileStore::remove`): the ownership check, then
/// removal of the directory it approved.
pub struct Removal {
    owned: OwnedCheck,
    profile: Option<Profile>,
    done: bool,
}

/// One step of a removal: `before`, given `event`, became `after` and
/// answered `s`. Removal of a directory is asked for only once the ownership
/// check has approved exactly that directory.
pub open spec fn removal_step(before: Removal, event: Event, after: Removal, s: Step<FsPath>) -> bool {
    &&& before.is_removing() && !(event is Removed) ==> after == before && (s matches Step::Ask(r)
        && Some(r@) == before.pending())
    &&& after.wf()
    &&& after.name() == before.name()
    &&& after.path() == before.path()
    &&& match s {
        Step::Ask(req) => {
            &&& !after.is_done()
            &&& after.pending() == Some(req@)
            &&& req@ is RemoveAll ==> {
                &&& req@ == RequestView::RemoveAll(before.path())
                &&& is_valid_name_text(before.name())
                &&& owned_evidence(after.owned().evidence(), after.owned().unix())
            }
        },
        Step::Finished(Ok(p)) => after.is_done() && p@ == before.path(),
        Step::Finished(Err(_)) => after.is_done(),
    }
    &&& !before.is_removing() ==> match s {
        Step::Ask(r) => if after.is_removing() {
            owned_step(before.owned(), event, after.owned(), Step::Finished(Ok(after.owned_profile())))
        } else {
            owned_step(before.owned(), event, after.owned(), Step::Ask(r))
        },
        Step::Finished(Err(e)) => owned_step(
            before.owned(),
            event,
            after.owned(),
            Step::Finished(Err(e)),
        ),
        Step::Finished(Ok(_)) => false,
    }
    &&& event matches Event::Removed(res) ==> before.is_removing() ==> match res {
        Ok(()) => s matches Step::Finished(Ok(p)) && p@ == before.path(),
        Err(error) => s matches Step::Finished(Err(e)) && is_io_failure(
            e,
            remove_context(before.name(), before.path()),
            error,
        ),
    }
}

impl Removal {
    pub closed spec fn owned(&self) -> OwnedCheck {
        self.owned
    }

    pub closed spec fn name(&self) -> Seq<char> {
        self.owned.name()
    }

    pub closed spec fn path(&self) -> Seq<PartView> {
        self.owned.path()
    }

    /// The ownership check has approved the directory; its removal is pending.
    pub closed spec fn is_removing(&self) -> bool {
        self.profile is Some && !self.done
    }

    /// The profile the ownership check approved.
    pub closed spec fn owned_profile(&self) -> Profile {
        self.profile->Some_0
    }

    pub closed spec fn is_done(&self) -> bool {
        self.done
    }

    pub closed spec fn pending(&self) -> Option<RequestView> {
        if self.done {
            None
        } else if self.profile is Some {
            Some(RequestView::RemoveAll(self.owned.path()))
        } else {
            self.owned.pending()
        }
    }

    pub closed spec fn wf(&self) -> bool {
        &&& self.owned.wf()
        &&& self.profile is None && !self.done ==> !self.owned.is_done()
        &&& self.profile is Some && !self.done ==> {
            &&& is_valid_name_text(self.owned.name())
            &&& owned_evidence(self.owned.evidence(), self.owned.unix())
            &&& self.profile->Some_0.name@ == self.owned.name()
            &&& marker_rejection(
                self.profile->Some_0.name@,
                self.profile->Some_0.marker.schema_version,
                self.profile->Some_0.marker.name@,
                self.profile->Some_0.marker.created_by_version@,
            ) is None
        }
    }

    /// Advances the removal with the outcome of the pending request (or
    /// `Start`).
    pub fn step(&mut self, event: Event) -> (s: Step<FsPath>)
        requires
            old(self).wf(),
            !old(self).is_done(),
        ensures
            removal_step(*old(self), event, *final(self), s),
    {
        if self.profile.is_none() {
            match self.owned.step(event) {
                Step::Ask(req) => Step::Ask(req),
                Step::Finished(Err(e)) => {
                    self.done = true;
                    Step::Finished(Err(e))
                },
                Step::Finished(Ok(p)) => {
                    self.profile = Some(p);
                    Step::Ask(Request::RemoveAll(self.owned.path.copy()))
                },
            }
        } else {
            match event {
                Event::Removed(res) => {
                    self.done = true;
                    match res {
                        Ok(()) => Step::Finished(Ok(self.owned.path.copy())),
                        Err(error) => {
                            let context = remove_context_text(self.owned.name.as_str(), &self.owned.path);
                            Step::Finished(Err(AppError::io(context, error)))
                        },
                    }
                },
                _ => Step::Ask(Request::RemoveAll(self.owned.path.copy())),
            }
        }
    }
}

impl ProfileStore {
    /// Begins removing the profile called `name` (`ProfileStore::remove`).
    pub fn remove(&self, name: &str) -> (r: Removal)
        ensures
            r.wf(),
            !r.is_removing(),
            !r.is_done(),
            r.owned().rank() == 0,
            r.name() == name@,
            r.path() == join(self@, parse(name@)),
    {
        Removal { owned: self.owned(name), profile: None, done: false }
    }
}

} // verus!

verus! {

/// How many temporary directory names creation tries.
pub const TEMPORARY_ATTEMPTS: u32 = 100;

/// The reason given when no temporary directory name was free.
pub const NO_TEMPORARY_REASON: &'static str = "could not allocate a temporary profile directory";

/// The name of the temporary directory that attempt `attempt` of process
/// `pid` uses to build the profile `name`.
pub open spec fn temporary_name(name: Seq<char>, pid: u32, attempt: u32) -> Seq<char> {
    ".tmp-"@ + name + "-"@ + crate::text::decimal(pid as nat) + "-"@ + crate::text::decimal(
        attempt as nat,
    )
}

/// The temporary directory of an attempt: directly inside the root.
pub open spec fn temporary_path(root: Seq<PartView>, name: Seq<char>, pid: u32, attempt: u32) -> Seq<
    PartView,
> {
    root.push(PartView::Normal(temporary_name(name, pid, attempt)))
}

/// The context of a failure to move the finished profile into place.
pub open spec fn finish_context(name: Seq<char>) -> Seq<char> {
    "could not finish profile "@ + debug_quoted(name)
}

/// The stages of `ProfileStore::create`, in order.
#[derive(Debug)]
pub enum CreateStage {
    Begin,
    RootExists,
    RootMade,
    RootKind,
    RootMode,
    Destination,
    Temporary,
    Marker,
    Config,
    Rename,
    RenameProbe,
    Cleanup,
    Opening,
    Done,
}

pub open spec fn create_rank(s: CreateStage) -> int {
    match s {
        CreateStage::Begin => 0,
        CreateStage::RootExists => 1,
        CreateStage::RootMade => 2,
        CreateStage::RootKind => 3,
        CreateStage::RootMode => 4,
        CreateStage::Destination => 5,
        CreateStage::Temporary => 6,
        CreateStage::Marker => 7,
        CreateStage::Config => 8,
        CreateStage::Rename => 9,
        CreateStage::RenameProbe => 10,
        CreateStage::Cleanup => 11,
        CreateStage::Opening => 12,
        CreateStage::Done => 13,
    }
}

/// What creation has seen before writing anything into the root.
pub struct CreateEvidence {
    pub root_kind: Metadata,
    pub root_mode: Metadata,
}

/// Creating a profile (`ProfileStore::create`): validate the name, make sure
/// the storage root is a real private directory, refuse an existing entry,
/// build the profile in a fresh temporary directory, move it into place, and
/// open it.
pub struct Creation {
    name: String,
    root: FsPath,
    destination: FsPath,
    pid: u32,
    attempt: u32,
    temporary: FsPath,
    stage: CreateStage,
    failure: Option<AppError>,
    rename_error: Option<std::io::Error>,
    opening: OpenCheck,
    evidence: Ghost<CreateEvidence>,
}

/// What creation does when making the temporary directory of `attempt`
/// failed with `e`: when the directory already existed it tries the next
/// name, up to the limit of attempts; on any other failure it stops with `e`.
pub open spec fn temporary_outcome(
    root: Seq<PartView>,
    name: Seq<char>,
    pid: u32,
    attempt: u32,
    e: AppError,
    already_exists: bool,
    s: Step<Profile>,
) -> bool {
    if !already_exists {
        s == Step::<Profile>::Finished(Err(e))
    } else if attempt + 1 < TEMPORARY_ATTEMPTS {
        s matches Step::Ask(r) && r@ == RequestView::CreateDir(
            temporary_path(root, name, pid, (attempt + 1) as u32),
        )
    } else {
        s matches Step::Finished(Err(f)) && is_unsafe_profile(f, root, NO_TEMPORARY_REASON@)
    }
}

/// A request that writes into the storage root.
pub open spec fn is_write(r: RequestView) -> bool {
    r is CreateDir || r is WriteMarker || r is WriteConfig || r is Rename
}

/// The stage creation moves to when stage `rank` asks for more after the
/// outcome it waited for.
pub open spec fn creation_next_rank(rank: int, event: Event) -> int {
    if rank == 0 {
        1
    } else if rank == 1 {
        if event matches Event::Exists(true) {
            3
        } else {
            2
        }
    } else if 2 <= rank <= 5 {
        rank + 1
    } else if rank == 6 {
        if event matches Event::Created(Ok(_), _) {
            7
        } else {
            6
        }
    } else if rank == 7 || rank == 8 {
        if event matches Event::Made(Ok(_)) {
            rank + 1
        } else {
            11
        }
    } else if rank == 9 {
        if event matches Event::Renamed(Ok(_)) {
            12
        } else {
            10
        }
    } else if rank == 10 {
        11
    } else {
        12
    }
}

/// The request creation waits on at stages 1 to 11.
pub open spec fn creation_request_at(rank: int, c: Creation) -> Option<RequestView> {
    let root = c.root();
    let tmp = temporary_path(root, c.name(), c.pid(), c.attempt());
    if rank == 1 {
        Some(RequestView::Exists(root))
    } else if rank == 2 {
        Some(RequestView::CreateDirAll(root))
    } else if rank == 3 || rank == 4 {
        Some(RequestView::Inspect(root))
    } else if rank == 5 {
        Some(RequestView::Inspect(c.destination()))
    } else if rank == 6 {
        Some(RequestView::CreateDir(tmp))
    } else if rank == 7 {
        Some(
            RequestView::WriteMarker(
                tmp.push(PartView::Normal(MARKER_FILE@)),
                crate::config::SCHEMA_VERSION,
                c.name(),
                crate::config::CREATED_BY_VERSION@,
            ),
        )
    } else if rank == 8 {
        Some(RequestView::WriteConfig(tmp.push(PartView::Normal(CODEX_CONFIG_FILE@)), CODEX_CONFIG@))
    } else if rank == 9 {
        Some(RequestView::Rename(tmp, c.destination()))
    } else if rank == 10 {
        Some(RequestView::Exists(c.destination()))
    } else if rank == 11 {
        Some(RequestView::Discard(tmp))
    } else {
        None
    }
}

/// The evidence after stage `rank` of creation accepted `event`: the root's
/// kind at stage 3 and its permissions at stage 4.
pub open spec fn creation_evidence_after(rank: int, ev: CreateEvidence, event: Event) -> CreateEvidence {
    match event {
        Event::Inspected(Ok(m)) => if rank == 3 {
            CreateEvidence { root_kind: m, ..ev }
        } else if rank == 4 {
            CreateEvidence { root_mode: m, ..ev }
        } else {
            ev
        },
        _ => ev,
    }
}

/// The kind of outcome creation waits for at stages 1 to 11.
pub open spec fn creation_awaits(rank: int, event: Event) -> bool {
    if rank == 1 || rank == 10 {
        event is Exists
    } else if rank == 6 {
        event is Created
    } else if rank == 2 || rank == 7 || rank == 8 {
        event is Made
    } else if rank == 9 {
        event is Renamed
    } else if rank == 11 {
        event is Discarded
    } else {
        event is Inspected
    }
}

/// One step of creation: `before`, given `event`, became `after` and
/// answered `s`. An outcome of another kind than the one waited for changes
/// nothing; while the new profile is opened, opening decides.
pub open spec fn creation_step(before: Creation, event: Event, after: Creation, s: Step<Profile>) -> bool {
    let root = before.root();
    let name = before.name();
    let tmp = temporary_path(root, name, before.pid(), before.attempt());
    &&& 1 <= before.rank() <= 11 && !creation_awaits(before.rank(), event) ==> after == before && (
    s matches Step::Ask(r) && Some(r@) == before.pending())
    &&& s is Ask && (before.rank() == 0 || before.rank() == 12 || creation_awaits(
        before.rank(),
        event,
    )) ==> after.rank() == creation_next_rank(before.rank(), event)
    &&& s matches Step::Ask(r) ==> after.rank() <= 11 ==> Some(r@) == creation_request_at(
        after.rank(),
        after,
    )
    &&& after.evidence() == (if s is Ask {
        creation_evidence_after(before.rank(), before.evidence(), event)
    } else {
        before.evidence()
    })
    &&& after.destination() == before.destination()
    &&& s matches Step::Finished(Ok(_)) ==> before.rank() == 12
    &&& s is Ask ==> after.attempt() == (if before.rank() == 5 && event is Inspected {
        0
    } else if before.rank() == 6 && event is Created && after.rank() == 6 {
        (before.attempt() + 1) as u32
    } else {
        before.attempt()
    })
    &&& after.wf()
    &&& after.name() == name
    &&& after.root() == root
    &&& after.pid() == before.pid()
    &&& after.unix() == before.unix()
    &&& match s {
        Step::Ask(req) => {
            &&& !after.is_done()
            &&& after.pending() == Some(req@)
            &&& is_write(req@) ==> {
                &&& is_valid_name_text(name)
                &&& is_real_directory(after.evidence().root_kind)
                &&& mode_is(after.evidence().root_mode, DIRECTORY_MODE, before.unix())
            }
        },
        Step::Finished(Ok(p)) => {
            &&& after.is_done()
            &&& owned_evidence(after.opening().owned().evidence(), before.unix())
            &&& open_evidence(after.opening().evidence(), before.unix())
            &&& p.name@ == name
            &&& p.path@ == root.push(PartView::Normal(name))
        },
        Step::Finished(Err(_)) => after.is_done(),
    }
    &&& before.rank() == 0 ==> match name_rejection(name, vstd::utf8::encode_utf8(name).len()) {
        Some(reason) => s matches Step::Finished(Err(e)) && is_name_refusal(e, name, reason),
        None => s matches Step::Ask(r) && r@ == RequestView::Exists(root),
    }
    &&& event matches Event::Exists(found) ==> before.rank() == 1 ==> (s matches Step::Ask(r) && r@
        == (if found {
        RequestView::Inspect(root)
    } else {
        RequestView::CreateDirAll(root)
    }))
    &&& event matches Event::Made(made) ==> before.rank() == 2 ==> match made {
        Ok(()) => s matches Step::Ask(r) && r@ == RequestView::Inspect(root),
        Err(e) => s == Step::<Profile>::Finished(Err(e)),
    }
    &&& event matches Event::Inspected(obs) ==> before.rank() == 3 ==> real_directory_result(
        root,
        obs,
        check_of(s),
    )
    &&& event matches Event::Inspected(obs) ==> before.rank() == 4 ==> ensure_private_mode_result(
        root,
        obs,
        DIRECTORY_MODE,
        "profile storage root",
        before.unix(),
        check_of(s),
    )
    &&& event matches Event::Inspected(obs) ==> before.rank() == 5 ==> match obs {
        Ok(_) => s matches Step::Finished(Err(AppError::ProfileExists(n))) && n@ == name,
        Err(_) => s matches Step::Ask(r) && r@ == RequestView::CreateDir(
            temporary_path(root, name, before.pid(), 0),
        ),
    }
    &&& event matches Event::Created(made, already_exists) ==> before.rank() == 6 ==> match made {
        Ok(()) => s matches Step::Ask(r) && r@ == RequestView::WriteMarker(
            tmp.push(PartView::Normal(MARKER_FILE@)),
            crate::config::SCHEMA_VERSION,
            name,
            crate::config::CREATED_BY_VERSION@,
        ),
        Err(e) => temporary_outcome(root, name, before.pid(), before.attempt(), e, already_exists, s),
    }
    &&& event matches Event::Made(made) ==> before.rank() == 7 ==> match made {
        Ok(()) => s matches Step::Ask(r) && r@ == RequestView::WriteConfig(
            tmp.push(PartView::Normal(CODEX_CONFIG_FILE@)),
            CODEX_CONFIG@,
        ),
        Err(e) => s matches Step::Ask(r) && r@ == RequestView::Discard(tmp) && after.failure()
            == Some(e),
    }
    &&& event matches Event::Made(made) ==> before.rank() == 8 ==> match made {
        Ok(()) => s matches Step::Ask(r) && r@ == RequestView::Rename(tmp, before.destination()),
        Err(e) => s matches Step::Ask(r) && r@ == RequestView::Discard(tmp) && after.failure()
            == Some(e),
    }
    &&& event matches Event::Renamed(res) ==> before.rank() == 9 ==> match res {
        Ok(()) => after.rank() == 12 && after.opening().rank() == 0 && open_step(
            before.opening(),
            Event::Start,
            after.opening(),
            s,
        ),
        Err(_) => s matches Step::Ask(r) && r@ == RequestView::Exists(before.destination()),
    }
    &&& event matches Event::Exists(found) ==> before.rank() == 10 ==> (s matches Step::Ask(r) && r@
        == RequestView::Discard(tmp)) && if found {
        after.failure() matches Some(AppError::ProfileExists(n)) && n@ == name
    } else {
        after.failure() matches Some(f) && is_io_failure(
            f,
            finish_context(name),
            before.rename_error(),
        )
    }
    &&& event matches Event::Discarded ==> before.rank() == 11 ==> (before.failure() matches Some(e)
        && s == Step::<Profile>::Finished(Err(e)))
    &&& before.rank() == 12 ==> open_step(before.opening(), event, after.opening(), s)
}

impl Creation {
    pub closed spec fn name(&self) -> Seq<char> {
        self.name@
    }

    pub closed spec fn root(&self) -> Seq<PartView> {
        self.root@
    }

    /// Where the finished profile goes.
    pub closed spec fn destination(&self) -> Seq<PartView> {
        self.destination@
    }

    pub closed spec fn pid(&self) -> u32 {
        self.pid
    }

    /// Whether permission bits are checked.
    pub closed spec fn unix(&self) -> bool {
        self.opening.owned().unix()
    }

    pub closed spec fn attempt(&self) -> u32 {
        self.attempt
    }

    pub closed spec fn rank(&self) -> int {
        create_rank(self.stage)
    }

    pub closed spec fn opening(&self) -> OpenCheck {
        self.opening
    }

    pub closed spec fn failure(&self) -> Option<AppError> {
        self.failure
    }

    pub closed spec fn rename_error(&self) -> std::io::Error {
        self.rename_error->Some_0
    }

    pub closed spec fn evidence(&self) -> CreateEvidence {
        self.evidence@
    }

    pub closed spec fn is_done(&self) -> bool {
        self.stage is Done
    }

    pub closed spec fn pending(&self) -> Option<RequestView> {
        let tmp = self.temporary@;
        match self.stage {
            CreateStage::RootExists => Some(RequestView::Exists(self.root@)),
            CreateStage::RootMade => Some(RequestView::CreateDirAll(self.root@)),
            CreateStage::RootKind => Some(RequestView::Inspect(self.root@)),
            CreateStage::RootMode => Some(RequestView::Inspect(self.root@)),
            CreateStage::Destination => Some(RequestView::Inspect(self.destination@)),
            CreateStage::Temporary => Some(RequestView::CreateDir(tmp)),
            CreateStage::Marker => Some(
                RequestView::WriteMarker(
                    tmp.push(PartView::Normal(MARKER_FILE@)),
                    crate::config::SCHEMA_VERSION,
                    self.name@,
                    crate::config::CREATED_BY_VERSION@,
                ),
            ),
            CreateStage::Config => Some(
                RequestView::WriteConfig(tmp.push(PartView::Normal(CODEX_CONFIG_FILE@)), CODEX_CONFIG@),
            ),
            CreateStage::Rename => Some(RequestView::Rename(tmp, self.destination@)),
            CreateStage::RenameProbe => Some(RequestView::Exists(self.destination@)),
            CreateStage::Cleanup => Some(RequestView::Discard(tmp)),
            CreateStage::Opening => self.opening.pending(),
            _ => None,
        }
    }

    pub closed spec fn wf(&self) -> bool {
        &&& self.opening.wf()
        &&& self.opening.name() == self.name@
        &&& self.opening.root() == self.root@
        &&& self.destination@ == self.opening.path()
        &&& self.destination@ == join(self.root@, parse(self.name@))
        &&& self.rank() >= 6 && self.rank() <= 11 ==> self.temporary@ == temporary_path(
            self.root@,
            self.name@,
            self.pid,
            self.attempt,
        )
        &&& self.rank() >= 6 && self.rank() <= 11 ==> self.attempt < TEMPORARY_ATTEMPTS
        &&& self.rank() >= 1 && self.rank() < 13 ==> is_valid_name_text(self.name@)
        &&& self.rank() >= 4 && self.rank() < 12 ==> is_real_directory(self.evidence@.root_kind)
        &&& self.rank() >= 5 && self.rank() < 12 ==> mode_is(
            self.evidence@.root_mode,
            DIRECTORY_MODE,
            self.opening.owned().unix(),
        )
        &&& self.rank() <= 11 ==> self.opening.rank() == 0 && self.opening.owned().rank() == 0
        &&& self.rank() == 10 ==> self.rename_error is Some
        &&& self.rank() == 11 ==> self.failure is Some
        &&& self.rank() == 12 ==> !self.opening.is_done()
    }
}

} // verus!

verus! {

impl Creation {
    fn temporary_for(&self, attempt: u32) -> (t: FsPath)
        ensures
            t@ == temporary_path(self.root@, self.name@, self.pid, attempt),
    {
        let mut text = String::new();
        push_str(&mut text, ".tmp-");
        push_str(&mut text, self.name.as_str());
        push_str(&mut text, "-");
        crate::text::push_decimal(&mut text, self.pid);
        push_str(&mut text, "-");
        crate::text::push_decimal(&mut text, attempt);
        let mut t = self.root.copy();
        t.push(PathPart::Normal(text));
        t
    }

    fn pending_request(&self) -> (r: Request)
        requires
            self.wf(),
            self.rank() >= 1 && self.rank() <= 11,
        ensures
            Some(r@) == self.pending(),
    {
        match self.stage {
            CreateStage::RootExists => Request::Exists(self.root.copy()),
            CreateStage::RootMade => Request::CreateDirAll(self.root.copy()),
            CreateStage::RootKind => Request::Inspect(self.root.copy()),
            CreateStage::RootMode => Request::Inspect(self.root.copy()),
            CreateStage::Destination => Request::Inspect(self.destination.copy()),
            CreateStage::Temporary => Request::CreateDir(self.temporary.copy()),
            CreateStage::Marker => {
                let mut p = self.temporary.copy();
                p.push(PathPart::Normal(MARKER_FILE.to_owned()));
                Request::WriteMarker(p, ProfileMarker::new(self.name.as_str()))
            },
            CreateStage::Config => {
                let mut p = self.temporary.copy();
                p.push(PathPart::Normal(CODEX_CONFIG_FILE.to_owned()));
                Request::WriteConfig(p, CODEX_CONFIG.to_owned())
            },
            CreateStage::Rename => Request::Rename(self.temporary.copy(), self.destination.copy()),
            CreateStage::RenameProbe => Request::Exists(self.destination.copy()),
            _ => Request::Discard(self.temporary.copy()),
        }
    }

    fn stop(&mut self, e: AppError) -> (s: Step<Profile>)
        requires
            old(self).wf(),
            old(self).rank() <= 11,
        ensures
            final(self).wf(),
            final(self).is_done(),
            s == Step::<Profile>::Finished(Err(e)),
            final(self).name() == old(self).name(),
            final(self).root() == old(self).root(),
            final(self).pid() == old(self).pid(),
            final(self).opening() == old(self).opening(),
            final(self).evidence() == old(self).evidence(),
    {
        self.stage = CreateStage::Done;
        Step::Finished(Err(e))
    }

    fn clean_up(&mut self, e: AppError) -> (s: Step<Profile>)
        requires
            old(self).wf(),
            old(self).rank() >= 6 && old(self).rank() <= 11,
        ensures
            final(self).wf(),
            final(self).rank() == 11,
            final(self).failure() == Some(e),
            s matches Step::Ask(r) && r@ == RequestView::Discard(
                temporary_path(old(self).root(), old(self).name(), old(self).pid(), old(self).attempt()),
            ),
            final(self).name() == old(self).name(),
            final(self).root() == old(self).root(),
            final(self).pid() == old(self).pid(),
            final(self).attempt() == old(self).attempt(),
            final(self).opening() == old(self).opening(),
            final(self).evidence() == old(self).evidence(),
    {
        self.failure = Some(e);
        self.stage = CreateStage::Cleanup;
        Step::Ask(self.pending_request())
    }

    #[verifier::rlimit(50)]
    fn on_begin(&mut self, event: Event) -> (s: Step<Profile>)
        requires
            old(self).wf(),
            old(self).rank() == 0,
        ensures
            creation_step(*old(self), event, *final(self), s),
    {
        match validate_profile_name(self.name.as_str()) {
            Err(e) => self.stop(e),
            Ok(()) => {
                self.stage = CreateStage::RootExists;
                Step::Ask(self.pending_request())
            },
        }
    }

    #[verifier::rlimit(50)]
    fn on_root_exists(&mut self, event: Event) -> (s: Step<Profile>)
        requires
            old(self).wf(),
            old(self).rank() == 1,
        ensures
            creation_step(*old(self), event, *final(self), s),
    {
        match event {
            Event::Exists(found) => {
                if found {
                    self.stage = CreateStage::RootKind;
                } else {
                    self.stage = CreateStage::RootMade;
                }
                Step::Ask(self.pending_request())
            },
            _ => Step::Ask(self.pending_request()),
        }
    }

    #[verifier::rlimit(50)]
    fn on_root_made(&mut self, event: Event) -> (s: Step<Profile>)
        requires
            old(self).wf(),
            old(self).rank() == 2,
        ensures
            creation_step(*old(self), event, *final(self), s),
    {
        match event {
            Event::Made(made) => {
                match made {
                    Err(e) => self.stop(e),
                    Ok(()) => {
                        self.stage = CreateStage::RootKind;
                        Step::Ask(self.pending_request())
                    },
                }
            },
            _ => Step::Ask(self.pending_request()),
        }
    }

    #[verifier::rlimit(50)]
    fn on_root_kind(&mut self, event: Event) -> (s: Step<Profile>)
        requires
            old(self).wf(),
            old(self).rank() == 3,
        ensures
            creation_step(*old(self), event, *final(self), s),
    {
        match event {
            Event::Inspected(obs) => {
                let ghost seen = obs;
                match ensure_real_directory(&self.root, obs) {
                    Err(e) => self.stop(e),
                    Ok(()) => {
                        proof {
                            self.evidence = Ghost(creation_evidence_after(3, self.evidence@, Event::Inspected(seen)));
                        }
                        self.stage = CreateStage::RootMode;
                        Step::Ask(self.pending_request())
                    },
                }
            },
            _ => Step::Ask(self.pending_request()),
        }
    }

    #[verifier::rlimit(50)]
    fn on_root_mode(&mut self, event: Event) -> (s: Step<Profile>)
        requires
            old(self).wf(),
            old(self).rank() == 4,
        ensures
            creation_step(*old(self), event, *final(self), s),
    {
        match event {
            Event::Inspected(obs) => {
                let ghost seen = obs;
                match ensure_private_mode(
                    &self.root,
                    obs,
                    DIRECTORY_MODE,
                    "profile storage root",
                    self.opening.owned.unix,
                ) {
                    Err(e) => self.stop(e),
                    Ok(()) => {
                        proof {
                            self.evidence = Ghost(creation_evidence_after(4, self.evidence@, Event::Inspected(seen)));
                        }
                        self.stage = CreateStage::Destination;
                        Step::Ask(self.pending_request())
                    },
                }
            },
            _ => Step::Ask(self.pending_request()),
        }
    }

    #[verifier::rlimit(50)]
    fn on_destination(&mut self, event: Event) -> (s: Step<Profile>)
        requires
            old(self).wf(),
            old(self).rank() == 5,
        ensures
            creation_step(*old(self), event, *final(self), s),
    {
        match event {
            Event::Inspected(obs) => {
                match obs {
                    Ok(_) => {
                        let e = AppError::ProfileExists(self.name.clone());
                        self.stop(e)
                    },
                    Err(_) => {
                        self.attempt = 0;
                        self.temporary = self.temporary_for(0);
                        self.stage = CreateStage::Temporary;
                        Step::Ask(self.pending_request())
                    },
                }
            },
            _ => Step::Ask(self.pending_request()),
        }
    }

    /// Goes on after making the temporary directory failed with `e`;
    /// `already_exists` tells whether the failure was that the directory
    /// already existed.
    #[verifier::rlimit(50)]
    pub fn temporary_failed(&mut self, e: AppError, already_exists: bool) -> (s: Step<Profile>)
        requires
            old(self).wf(),
            old(self).rank() == 6,
        ensures
            creation_step(*old(self), Event::Created(Err(e), already_exists), *final(self), s),
            temporary_outcome(
                old(self).root(),
                old(self).name(),
                old(self).pid(),
                old(self).attempt(),
                e,
                already_exists,
                s,
            ),
    {
        if !already_exists {
            self.stop(e)
        } else if self.attempt + 1 < TEMPORARY_ATTEMPTS {
            self.attempt = self.attempt + 1;
            self.temporary = self.temporary_for(self.attempt);
            Step::Ask(self.pending_request())
        } else {
            let f = AppError::UnsafeProfile {
                path: self.root.copy(),
                reason: NO_TEMPORARY_REASON.to_owned(),
            };
            self.stop(f)
        }
    }

    #[verifier::rlimit(50)]
    fn on_temporary(&mut self, event: Event) -> (s: Step<Profile>)
        requires
            old(self).wf(),
            old(self).rank() == 6,
        ensures
            creation_step(*old(self), event, *final(self), s),
    {
        match event {
            Event::Created(made, already_exists) => {
                match made {
                    Ok(()) => {
                        self.stage = CreateStage::Marker;
                        Step::Ask(self.pending_request())
                    },
                    Err(e) => self.temporary_failed(e, already_exists),
                }
            },
            _ => Step::Ask(self.pending_request()),
        }
    }

    #[verifier::rlimit(50)]
    fn on_marker(&mut self, event: Event) -> (s: Step<Profile>)
        requires
            old(self).wf(),
            old(self).rank() == 7,
        ensures
            creation_step(*old(self), event, *final(self), s),
    {
        match event {
            Event::Made(made) => {
                match made {
                    Ok(()) => {
                        self.stage = CreateStage::Config;
                        Step::Ask(self.pending_request())
                    },
                    Err(e) => self.clean_up(e),
                }
            },
            _ => Step::Ask(self.pending_request()),
        }
    }

    #[verifier::rlimit(50)]
    fn on_config(&mut self, event: Event) -> (s: Step<Profile>)
        requires
            old(self).wf(),
            old(self).rank() == 8,
        ensures
            creation_step(*old(self), event, *final(self), s),
    {
        match event {
            Event::Made(made) => {
                match made {
                    Ok(()) => {
                        self.stage = CreateStage::Rename;
                        Step::Ask(self.pending_request())
                    },
                    Err(e) => self.clean_up(e),
                }
            },
            _ => Step::Ask(self.pending_request()),
        }
    }

    #[verifier::rlimit(50)]
    fn on_rename(&mut self, event: Event) -> (s: Step<Profile>)
        requires
            old(self).wf(),
            old(self).rank() == 9,
        ensures
            creation_step(*old(self), event, *final(self), s),
    {
        match event {
            Event::Renamed(res) => {
                match res {
                    Ok(()) => {
                        self.stage = CreateStage::Opening;
                        let s = self.opening.step(Event::Start);
                        match s {
                            Step::Ask(r) => Step::Ask(r),
                            Step::Finished(r) => {
                                self.stage = CreateStage::Done;
                                Step::Finished(r)
                            },
                        }
                    },
                    Err(error) => {
                        self.rename_error = Some(error);
                        self.stage = CreateStage::RenameProbe;
                        Step::Ask(self.pending_request())
                    },
                }
            },
            _ => Step::Ask(self.pending_request()),
        }
    }

    #[verifier::rlimit(50)]
    fn on_rename_probe(&mut self, event: Event) -> (s: Step<Profile>)
        requires
            old(self).wf(),
            old(self).rank() == 10,
        ensures
            creation_step(*old(self), event, *final(self), s),
    {
        match event {
            Event::Exists(found) => {
                let failure = if found {
                    AppError::ProfileExists(self.name.clone())
                } else {
                    let mut context = String::new();
                    push_str(&mut context, "could not finish profile ");
                    push_str(&mut context, quote_debug(self.name.as_str()).as_str());
                    match self.rename_error.take() {
                        Some(error) => AppError::io(context, error),
                        None => AppError::ProfileExists(self.name.clone()),
                    }
                };
                self.failure = Some(failure);
                self.stage = CreateStage::Cleanup;
                Step::Ask(self.pending_request())
            },
            _ => Step::Ask(self.pending_request()),
        }
    }

    #[verifier::rlimit(50)]
    fn on_cleanup(&mut self, event: Event) -> (s: Step<Profile>)
        requires
            old(self).wf(),
            old(self).rank() == 11,
        ensures
            creation_step(*old(self), event, *final(self), s),
    {
        match event {
            Event::Discarded => {
                self.stage = CreateStage::Done;
                match self.failure.take() {
                    Some(e) => Step::Finished(Err(e)),
                    None => Step::Finished(Err(AppError::ProfileExists(self.name.clone()))),
                }
            },
            _ => Step::Ask(self.pending_request()),
        }
    }

    #[verifier::rlimit(50)]
    fn on_opening(&mut self, event: Event) -> (s: Step<Profile>)
        requires
            old(self).wf(),
            old(self).rank() == 12,
        ensures
            creation_step(*old(self), event, *final(self), s),
    {
        proof {
        join_valid_name(self.root@, self.name@);
        }
        let s = self.opening.step(event);
        match s {
            Step::Ask(r) => Step::Ask(r),
            Step::Finished(r) => {
                self.stage = CreateStage::Done;
                Step::Finished(r)
            },
        }
    }

    /// Advances creation with the outcome of the pending request (or `Start`).
    pub fn step(&mut self, event: Event) -> (s: Step<Profile>)
        requires
            old(self).wf(),
            !old(self).is_done(),
        ensures
            creation_step(*old(self), event, *final(self), s),
    {
        match self.stage {
            CreateStage::Begin => self.on_begin(event),
            CreateStage::RootExists => self.on_root_exists(event),
            CreateStage::RootMade => self.on_root_made(event),
            CreateStage::RootKind => self.on_root_kind(event),
            CreateStage::RootMode => self.on_root_mode(event),
            CreateStage::Destination => self.on_destination(event),
            CreateStage::Temporary => self.on_temporary(event),
            CreateStage::Marker => self.on_marker(event),
            CreateStage::Config => self.on_config(event),
            CreateStage::Rename => self.on_rename(event),
            CreateStage::RenameProbe => self.on_rename_probe(event),
            CreateStage::Cleanup => self.on_cleanup(event),
            _ => self.on_opening(event),
        }
    }
}

impl ProfileStore {
    /// Begins creating the profile called `name` (`ProfileStore::create`);
    /// `pid` is the process id, which tells apart the temporary directories
    /// of concurrent creations.
    pub fn create(&self, name: &str, pid: u32) -> (c: Creation)
        ensures
            c.unix() == self.unix(),
            c.wf(),
            c.rank() == 0,
            !c.is_done(),
            c.name() == name@,
            c.root() == self@,
            c.pid() == pid,
            c.destination() == join(self@, parse(name@)),
    {
        let opening = self.open(name);
        Creation {
            name: name.to_owned(),
            root: self.root().copy(),
            destination: self.profile_path(name),
            pid,
            attempt: 0,
            temporary: FsPath::empty(),
            stage: CreateStage::Begin,
            failure: None,
            rename_error: None,
            opening,
            evidence: Ghost(CreateEvidence { root_kind: arbitrary(), root_mode: arbitrary() }),
        }
    }
}

} // verus!

verus! {

/// The ownership check reads no file but the ownership marker of a profile
/// with a valid name, directly inside the root.
pub proof fn ownership_check_reads_only_the_marker(c: OwnedCheck, p: Seq<PartView>)
    requires
        c.wf(),
        c.pending() == Some(RequestView::ReadText(p)),
    ensures
        is_valid_name_text(c.name()),
        c.path() == c.root().push(PartView::Normal(c.name())),
        p == c.path().push(PartView::Normal(MARKER_FILE@)),
{
    join_valid_name(c.root(), c.name());
}

/// A request that changes something on disk.
pub open spec fn is_modification(r: RequestView) -> bool {
    r is CreateDirAll || r is CreateDir || r is WriteMarker || r is WriteConfig || r is Rename
        || r is RemoveAll || r is Discard
}

/// The ownership check only looks: none of its requests changes anything.
pub proof fn ownership_check_modifies_nothing(c: OwnedCheck)
    requires
        c.wf(),
    ensures
        c.pending() matches Some(r) ==> !is_modification(r),
{
}

/// Opening a profile reads no file but its ownership marker and its Codex
/// configuration; in particular never the credentials Codex keeps beside
/// them.
pub proof fn opening_reads_only_tool_files(c: OpenCheck, p: Seq<PartView>)
    requires
        c.wf(),
        c.pending() == Some(RequestView::ReadText(p)),
    ensures
        p == c.path().push(PartView::Normal(MARKER_FILE@)) || p == c.path().push(
            PartView::Normal(CODEX_CONFIG_FILE@),
        ),
{
}

/// Creation writes nothing but, directly inside the storage root, the
/// temporary directory of the current attempt, the marker and configuration
/// within it, and its move to the profile's own directory.
pub proof fn creation_writes_only_inside_the_root(c: Creation, r: RequestView)
    requires
        c.wf(),
        c.pending() == Some(r),
        is_write(r),
    ensures
        is_valid_name_text(c.name()),
        ({
            let tmp = temporary_path(c.root(), c.name(), c.pid(), c.attempt());
            match r {
                RequestView::CreateDir(p) => p == tmp,
                RequestView::WriteMarker(p, _, _, _) => p == tmp.push(PartView::Normal(MARKER_FILE@)),
                RequestView::WriteConfig(p, text) => p == tmp.push(PartView::Normal(CODEX_CONFIG_FILE@))
                    && text == CODEX_CONFIG@,
                RequestView::Rename(from, to) => from == tmp && to == c.root().push(
                    PartView::Normal(c.name()),
                ),
                _ => false,
            }
        }),
{
    join_valid_name(c.root(), c.name());
}

/// Removal removes nothing but the directory of a profile with a valid name,
/// directly inside a real and private storage root, that the ownership check
/// found real, resolved inside the root, and marked as this tool's for that
/// name.
pub proof fn removal_removes_only_owned_profiles(r: Removal, p: Seq<PartView>)
    requires
        r.wf(),
        r.pending() == Some(RequestView::RemoveAll(p)),
    ensures
        is_valid_name_text(r.name()),
        p == r.owned().root().push(PartView::Normal(r.name())),
        owned_evidence(r.owned().evidence(), r.owned().unix()),
        r.is_removing(),
        marker_rejection(
            r.name(),
            r.owned_profile().marker.schema_version,
            r.owned_profile().marker.name@,
            r.owned_profile().marker.created_by_version@,
        ) is None,
{
    join_valid_name(r.owned().root(), r.name());
}

} // verus!

verus! {

/// Started on a valid name, the ownership check first asks whether the
/// profile directory exists, and a missing directory ends it with
/// `ProfileMissing`.
pub proof fn missing_profile_is_reported(
    c0: OwnedCheck,
    e0: Event,
    c1: OwnedCheck,
    s1: Step<Profile>,
    c2: OwnedCheck,
    s2: Step<Profile>,
)
    requires
        c0.wf(),
        c0.rank() == 0,
        is_valid_name_text(c0.name()),
        owned_step(c0, e0, c1, s1),
        owned_step(c1, Event::Exists(false), c2, s2),
    ensures
        s1 matches Step::Ask(r) && r@ == RequestView::Exists(c0.path()),
        c1.rank() == 1,
        s2 matches Step::Finished(Err(AppError::ProfileMissing(n))) && n@ == c0.name(),
{
}

/// Creating a profile whose directory already exists, in a storage root
/// that exists as a real private directory, ends with `ProfileExists` after
/// these requests, and nothing is written.
pub proof fn existing_profile_is_not_created(
    c: Seq<Creation>,
    s: Seq<Step<Profile>>,
    root_kind: Metadata,
    root_mode: Metadata,
    found: Metadata,
)
    requires
        c.len() == 6,
        s.len() == 5,
        c[0].wf(),
        c[0].rank() == 0,
        is_valid_name_text(c[0].name()),
        is_real_directory(root_kind),
        mode_is(root_mode, DIRECTORY_MODE, c[0].unix()),
        creation_step(c[0], Event::Start, c[1], s[0]),
        creation_step(c[1], Event::Exists(true), c[2], s[1]),
        creation_step(c[2], Event::Inspected(Ok(root_kind)), c[3], s[2]),
        creation_step(c[3], Event::Inspected(Ok(root_mode)), c[4], s[3]),
        creation_step(c[4], Event::Inspected(Ok(found)), c[5], s[4]),
    ensures
        s[0] matches Step::Ask(r) && r@ == RequestView::Exists(c[0].root()),
        s[1] matches Step::Ask(r) && r@ == RequestView::Inspect(c[0].root()),
        s[2] matches Step::Ask(r) && r@ == RequestView::Inspect(c[0].root()),
        s[3] matches Step::Ask(r) && r@ == RequestView::Inspect(c[0].destination()),
        s[4] matches Step::Finished(Err(AppError::ProfileExists(n))) && n@ == c[0].name(),
{
}

/// A profile directory that is a symbolic link, inside a real private root,
/// is refused by the ownership check before anything inside it is read.
pub proof fn symlinked_profile_is_refused(
    c: Seq<OwnedCheck>,
    s: Seq<Step<Profile>>,
    root_kind: Metadata,
    root_mode: Metadata,
    link: Metadata,
)
    requires
        c.len() == 6,
        s.len() == 5,
        c[0].wf(),
        c[0].rank() == 0,
        is_valid_name_text(c[0].name()),
        is_real_directory(root_kind),
        mode_is(root_mode, DIRECTORY_MODE, c[0].unix()),
        link.is_symlink,
        owned_step(c[0], Event::Start, c[1], s[0]),
        owned_step(c[1], Event::Exists(true), c[2], s[1]),
        owned_step(c[2], Event::Inspected(Ok(root_kind)), c[3], s[2]),
        owned_step(c[3], Event::Inspected(Ok(root_mode)), c[4], s[3]),
        owned_step(c[4], Event::Inspected(Ok(link)), c[5], s[4]),
    ensures
        s[0] matches Step::Ask(r) && r@ == RequestView::Exists(c[0].path()),
        s[1] matches Step::Ask(r) && r@ == RequestView::Inspect(c[0].root()),
        s[2] matches Step::Ask(r) && r@ == RequestView::Inspect(c[0].root()),
        s[3] matches Step::Ask(r) && r@ == RequestView::Inspect(c[0].path()),
        s[4] matches Step::Finished(Err(e)) && is_unsafe_profile(e, c[0].path(), SYMLINK_REASON@),
{
}

/// Once opening has read a Codex configuration that does not select the
/// file store, it refuses the profile after checking the file's permissions,
/// and the profile is never handed out for use.
pub proof fn unsafe_config_blocks_opening(
    o: Seq<OpenCheck>,
    s: Seq<Step<Profile>>,
    text: String,
    mode: Metadata,
)
    requires
        o.len() == 3,
        s.len() == 2,
        o[0].wf(),
        o[0].rank() == 4,
        config_rejection(toml_entry(text@, CREDENTIALS_STORE_KEY@)) is Some,
        mode_is(mode, FILE_MODE, o[0].owned().unix()),
        open_step(o[0], Event::Text(Ok(text)), o[1], s[0]),
        open_step(o[1], Event::Inspected(Ok(mode)), o[2], s[1]),
    ensures
        s[0] matches Step::Ask(r) && r@ == RequestView::Inspect(o[0].config_path()),
        s[1] matches Step::Finished(Err(e)) && is_config_refusal(
            e,
            o[0].name(),
            config_rejection(toml_entry(text@, CREDENTIALS_STORE_KEY@))->Some_0,
        ),
{
}

/// `c` is what `ProfileStore::create` on `store` begins with for `name`.
pub open spec fn begins_creation(store: ProfileStore, name: Seq<char>, c: Creation) -> bool {
    &&& c.wf()
    &&& c.rank() == 0
    &&& !c.is_done()
    &&& c.name() == name
    &&& c.root() == store@
    &&& c.unix() == store.unix()
    &&& c.destination() == join(store@, parse(name))
}

/// A run of a creation begun by `ProfileStore::create` on `store` for
/// `name`: stepping `cs[i]` with `events[i]` gave `cs[i + 1]` and answered
/// `answers[i]`, and every answer but the last asked for more.
pub open spec fn is_creation_run(
    store: ProfileStore,
    name: Seq<char>,
    cs: Seq<Creation>,
    events: Seq<Event>,
    answers: Seq<Step<Profile>>,
) -> bool {
    &&& cs.len() == events.len() + 1
    &&& answers.len() == events.len()
    &&& begins_creation(store, name, cs[0])
    &&& forall|i: int|
        0 <= i < events.len() ==> #[trigger] creation_step(cs[i], events[i], cs[i + 1], answers[i])
    &&& forall|i: int| 0 <= i < answers.len() - 1 ==> (#[trigger] answers[i]) is Ask
}

proof fn lemma_creation_run_prefix(
    store: ProfileStore,
    name: Seq<char>,
    cs: Seq<Creation>,
    events: Seq<Event>,
    answers: Seq<Step<Profile>>,
    k: int,
)
    requires
        is_creation_run(store, name, cs, events, answers),
        0 <= k < cs.len(),
        k < answers.len(),
    ensures
        cs[k].wf(),
        cs[k].root() == store@,
        cs[k].name() == name,
        cs[k].destination() == join(store@, parse(name)),
        k > 0 ==> (answers[k - 1] matches Step::Ask(r) && cs[k].pending() == Some(r@)),
        k > 0 ==> 1 <= cs[k].rank() <= 11 ==> cs[k].pending() == creation_request_at(
            cs[k].rank(),
            cs[k],
        ),
        cs[k].rank() == 12 ==> exists|j: int|
            0 <= j < k && (#[trigger] cs[j]).rank() == 9 && (events[j] matches Event::Renamed(Ok(_)))
                && cs[j].pending() == creation_request_at(9, cs[j]),
    decreases k,
{
    if k > 0 {
        let j = k - 1;
        lemma_creation_run_prefix(store, name, cs, events, answers, j);
        assert(answers[j] is Ask);
        assert(creation_step(cs[j], events[j], cs[j + 1], answers[j]));
        assert(j + 1 == k);
        if cs[k].rank() == 12 && cs[j].rank() != 12 {
            assert(cs[j].rank() == 9 && (events[j] matches Event::Renamed(Ok(_))));
            assert(j > 0);
        }
    }
}

/// Creating a profile (`ProfileStore::create`) leaves no temporary directory
/// behind. A run that succeeds renamed its temporary directory onto the
/// profile's place, with a rename that succeeded. A run that fails once the
/// temporary directory was made either had renamed it already, or asked, as
/// its last request, to discard it.
pub proof fn creation_leaves_no_temporary(
    store: ProfileStore,
    name: Seq<char>,
    cs: Seq<Creation>,
    events: Seq<Event>,
    answers: Seq<Step<Profile>>,
)
    requires
        is_creation_run(store, name, cs, events, answers),
        answers.len() > 0,
    ensures
        answers.last() is Finished && cs[answers.len() - 1].rank() == 12 ==> exists|j: int|
            0 <= j < events.len() && (#[trigger] cs[j]).rank() == 9 && (events[j] matches Event::Renamed(Ok(_))) && cs[j].pending() == Some(
                RequestView::Rename(
                    temporary_path(store@, name, cs[j].pid(), cs[j].attempt()),
                    join(store@, parse(name)),
                ),
            ),
        answers.last() matches Step::Finished(Ok(_)) ==> cs[answers.len() - 1].rank() == 12,
        answers.last() is Finished && 7 <= cs[answers.len() - 1].rank() <= 11 ==> {
            let n = answers.len() - 1;
            ||| cs[n].rank() == 9 && (events[n] matches Event::Renamed(Ok(_)))
            ||| cs[n].rank() == 11 && (answers[n - 1] matches Step::Ask(r) && r@
                == RequestView::Discard(temporary_path(store@, name, cs[n].pid(), cs[n].attempt())))
        },
{
    let n = answers.len() - 1;
    lemma_creation_run_prefix(store, name, cs, events, answers, n);
    assert(creation_step(cs[n], events[n], cs[n + 1], answers[n]));
    if answers.last() is Finished && cs[n].rank() == 12 {
        let j = choose|j: int|
            0 <= j < n && (#[trigger] cs[j]).rank() == 9 && (events[j] matches Event::Renamed(Ok(_)))
                && cs[j].pending() == creation_request_at(9, cs[j]);
        lemma_creation_run_prefix(store, name, cs, events, answers, j);
    }
}


/// Opening a profile only looks: none of its requests changes anything.
pub proof fn opening_modifies_nothing(c: OpenCheck)
    requires
        c.wf(),
    ensures
        c.pending() matches Some(r) ==> !is_modification(r),
{
    ownership_check_modifies_nothing(c.owned);
}

/// The ownership marker that creating the profile `name`
/// (`ProfileStore::create`) writes names exactly that profile, with the
/// current schema and this version, so the ownership check accepts it for
/// `name`: every marker a creation run asks to write is such a marker.
pub proof fn creation_writes_the_profiles_own_marker(
    store: ProfileStore,
    name: Seq<char>,
    cs: Seq<Creation>,
    events: Seq<Event>,
    answers: Seq<Step<Profile>>,
)
    requires
        is_creation_run(store, name, cs, events, answers),
    ensures
        forall|i: int|
            0 <= i < answers.len() ==> ((#[trigger] answers[i]) matches Step::Ask(r) ==> (
            r@ matches RequestView::WriteMarker(_, schema_version, marker_name, version) ==> {
                &&& schema_version == crate::config::SCHEMA_VERSION
                &&& marker_name == name
                &&& version == crate::config::CREATED_BY_VERSION@
                &&& marker_rejection(name, schema_version, marker_name, version) is None
            })),
{
    assert forall|i: int|
        0 <= i < answers.len() implies ((#[trigger] answers[i]) matches Step::Ask(r) ==> (
        r@ matches RequestView::WriteMarker(_, schema_version, marker_name, version) ==> {
            &&& schema_version == crate::config::SCHEMA_VERSION
            &&& marker_name == name
            &&& version == crate::config::CREATED_BY_VERSION@
            &&& marker_rejection(name, schema_version, marker_name, version) is None
        })) by {
        if let Step::Ask(r) = answers[i] {
            if i + 1 < answers.len() {
                lemma_creation_run_prefix(store, name, cs, events, answers, i + 1);
            } else {
                lemma_creation_run_prefix(store, name, cs, events, answers, i);
                assert(creation_step(cs[i], events[i], cs[i + 1], answers[i]));
                assert(cs[i + 1].name() == name);
            }
            let c = cs[i + 1];
            assert(c.pending() == Some(r@)) by {
                assert(creation_step(cs[i], events[i], cs[i + 1], answers[i]));
            }
            opening_modifies_nothing(c.opening);
            crate::config::new_marker_is_accepted(name);
        }
    }
}

} // verus!
