//! The Codex command-line tool: where it is found, how it is started for a
//! profile, and what its answers mean.

use vstd::prelude::*;

use crate::error::{AppError, Result};
use crate::paths::{join, native_path, parse, parse_native, FsPath, PartView};
use crate::permissions::{is_io_failure, Metadata};
use crate::text::{push_signed, push_str, signed_decimal, string_of, trim, trimmed};

verus! {

/// The environment variable that tells Codex where its state lives.
pub const CODEX_HOME: &'static str = "CODEX_HOME";

/// The executable name searched for when none is requested.
pub const DEFAULT_EXECUTABLE: &'static str = "codex";

/// The executable extensions tried on Windows when `PATHEXT` is unset.
pub const DEFAULT_PATHEXT: &'static str = ".COM;.EXE;.BAT;.CMD";

/// An installed Codex executable, by its resolved path.
#[derive(Debug)]
pub struct Codex {
    executable: FsPath,
}

impl View for Codex {
    type V = Seq<PartView>;

    closed spec fn view(&self) -> Seq<PartView> {
        self.executable@
    }
}

/// A Codex process to start: the program, its arguments, the one
/// `CODEX_HOME` it is given, and whether its output is silenced.
#[derive(Debug)]
pub struct Launch<A> {
    pub program: FsPath,
    pub arguments: Vec<A>,
    pub codex_home: FsPath,
    pub quiet: bool,
}

/// The texts of a list of strings.
pub open spec fn texts(v: Seq<String>) -> Seq<Seq<char>> {
    v.map_values(|a: String| a@)
}

/// The arguments of `codex login`, with `--device-auth` when asked for.
pub open spec fn login_arguments(device_auth: bool) -> Seq<Seq<char>> {
    if device_auth {
        seq!["login"@, "--device-auth"@]
    } else {
        seq!["login"@]
    }
}

/// The arguments of `codex login status`.
pub open spec fn status_arguments() -> Seq<Seq<char>> {
    seq!["login"@, "status"@]
}

impl Codex {
    /// The resolved executable.
    pub fn path(&self) -> (r: &FsPath)
        ensures
            r@ == self@,
    {
        &self.executable
    }

    /// `codex login` (with `--device-auth` when asked) for the profile whose
    /// directory is `profile_home`.
    pub fn login(&self, profile_home: &FsPath, device_auth: bool) -> (l: Launch<String>)
        ensures
            l.program@ == self@,
            l.codex_home@ == profile_home@,
            texts(l.arguments@) == login_arguments(device_auth),
            !l.quiet,
    {
        let mut arguments: Vec<String> = Vec::new();
        arguments.push("login".to_owned());
        if device_auth {
            arguments.push("--device-auth".to_owned());
        }
        proof {
            assert(texts(arguments@) =~= login_arguments(device_auth));
        }
        Launch { program: self.executable.copy(), arguments, codex_home: profile_home.copy(), quiet: false }
    }

    /// `codex login status` for the profile whose directory is
    /// `profile_home`, silenced when `quiet`.
    pub fn login_status(&self, profile_home: &FsPath, quiet: bool) -> (l: Launch<String>)
        ensures
            l.program@ == self@,
            l.codex_home@ == profile_home@,
            texts(l.arguments@) == status_arguments(),
            l.quiet == quiet,
    {
        let mut arguments: Vec<String> = Vec::new();
        arguments.push("login".to_owned());
        arguments.push("status".to_owned());
        proof {
            assert(texts(arguments@) =~= status_arguments());
        }
        Launch { program: self.executable.copy(), arguments, codex_home: profile_home.copy(), quiet }
    }

    /// Codex with the user's own `arguments`, passed on unchanged, for the
    /// profile whose directory is `profile_home`.
    pub fn run<A>(&self, profile_home: &FsPath, arguments: Vec<A>) -> (l: Launch<A>)
        ensures
            l.program@ == self@,
            l.codex_home@ == profile_home@,
            l.arguments@ == arguments@,
            !l.quiet,
    {
        Launch { program: self.executable.copy(), arguments, codex_home: profile_home.copy(), quiet: false }
    }
}

/// The exit code reported for a finished process: its code, or 1 when it
/// has none (it was ended by a signal).
pub open spec fn exit_code_of(code: Option<i32>) -> i32 {
    match code {
        Some(c) => c,
        None => 1,
    }
}

/// `ExitStatus::code`, with 1 standing in for a missing code.
pub fn exit_status_code(code: Option<i32>) -> (r: i32)
    ensures
        r == exit_code_of(code),
{
    match code {
        Some(c) => c,
        None => 1,
    }
}

/// `String::from_utf8_lossy`: the text of `bytes`, with each invalid
/// sequence replaced by U+FFFD.
pub uninterp spec fn lossy_text(bytes: Seq<u8>) -> Seq<char>;

/// `String::from_utf8_lossy(bytes).into_owned()`. Claimed: the result is the
/// named text of the bytes, and for valid UTF-8 it is their decoding; where
/// the replacement characters go is not stated.
#[verifier::external_body]
fn lossy_utf8(bytes: &[u8]) -> (s: String)
    ensures
        s@ == lossy_text(bytes@),
        vstd::utf8::valid_utf8(bytes@) ==> s@ == vstd::utf8::decode_utf8(bytes@),
{
    String::from_utf8_lossy(bytes).into_owned()
}

/// What `codex --version` is reported as: its trimmed output when it exited
/// with code 0, otherwise `unknown (exit N)`.
pub open spec fn version_report(code: Option<i32>, output: Seq<char>) -> Seq<char> {
    if code == Some(0i32) {
        trim(output)
    } else {
        "unknown (exit "@ + signed_decimal(exit_code_of(code) as int) + ")"@
    }
}

/// The version text from the exit code and standard output of
/// `codex --version`.
pub fn version_text(code: Option<i32>, stdout: &[u8]) -> (s: String)
    ensures
        s@ == version_report(code, lossy_text(stdout@)),
        code == Some(0i32) && vstd::utf8::valid_utf8(stdout@) ==> s@ == trim(
            vstd::utf8::decode_utf8(stdout@),
        ),
{
    if code == Some(0i32) {
        let text = lossy_utf8(stdout);
        let t = trimmed(text.as_str());
        string_of(t.as_slice())
    } else {
        let mut s = String::new();
        push_str(&mut s, "unknown (exit ");
        push_signed(&mut s, exit_status_code(code));
        push_str(&mut s, ")");
        s
    }
}

} // verus!

verus! {

/// The pieces of `s` between `;` separators, empty pieces included.
pub open spec fn split_semicolons(s: Seq<char>) -> Seq<Seq<char>>
    decreases s.len(),
{
    if s.len() == 0 {
        seq![Seq::empty()]
    } else {
        let rest = split_semicolons(s.drop_last());
        if s.last() == ';' {
            rest.push(Seq::empty())
        } else {
            rest.update(rest.len() - 1, rest.last().push(s.last()))
        }
    }
}

proof fn lemma_split_semicolons_len(s: Seq<char>)
    ensures
        split_semicolons(s).len() >= 1,
    decreases s.len(),
{
    if s.len() > 0 {
        lemma_split_semicolons_len(s.drop_last());
    }
}

/// The pieces that are not empty, in order.
pub open spec fn nonempty_pieces(pieces: Seq<Seq<char>>) -> Seq<Seq<char>>
    decreases pieces.len(),
{
    if pieces.len() == 0 {
        Seq::empty()
    } else {
        let rest = nonempty_pieces(pieces.drop_last());
        if pieces.last().len() == 0 {
            rest
        } else {
            rest.push(pieces.last())
        }
    }
}

pub open spec fn is_windows_separator(c: char) -> bool {
    c == '/' || c == '\\'
}

/// The last component's text: what follows the last separator.
pub open spec fn last_component(s: Seq<char>) -> Seq<char>
    decreases s.len(),
{
    if s.len() == 0 {
        s
    } else if is_windows_separator(s.last()) {
        Seq::empty()
    } else {
        last_component(s.drop_last()).push(s.last())
    }
}

/// `Path::extension` is some: the file name has a dot after its first
/// character, and is not `..`.
pub open spec fn has_extension(name: Seq<char>) -> bool {
    let f = last_component(name);
    &&& f != seq!['.', '.']
    &&& exists|i: int| 0 < i < f.len() && f[i] == '.'
}

/// The names tried for the executable `name` in each directory: the name
/// itself, or on Windows, when it has no extension, the name with each
/// executable extension of `PATHEXT` (or its default) appended.
pub open spec fn executable_names_of(name: Seq<char>, windows: bool, pathext: Option<Seq<char>>) -> Seq<
    Seq<char>,
> {
    if !windows || has_extension(name) {
        seq![name]
    } else {
        let extensions = match pathext {
            Some(e) => e,
            None => DEFAULT_PATHEXT@,
        };
        nonempty_pieces(split_semicolons(extensions)).map_values(|x: Seq<char>| name + x)
    }
}

fn extension_present(name: &Vec<char>) -> (b: bool)
    ensures
        b == has_extension(name@),
{
    let n = name.len();
    let mut start: usize = n;
    assert(name@.take(n as int) =~= name@);
    assert(name@.subrange(n as int, n as int) =~= Seq::<char>::empty());
    assert(last_component(name@) =~= last_component(name@.take(n as int)) + name@.subrange(
        n as int,
        n as int,
    ));
    while start > 0 && name[start - 1] != '/' && name[start - 1] != '\\'
        invariant
            start <= n,
            n == name@.len(),
            last_component(name@) == last_component(name@.take(start as int)) + name@.subrange(
                start as int,
                n as int,
            ),
        decreases start,
    {
        proof {
            let t = name@.take(start as int);
            assert(t.drop_last() =~= name@.take(start - 1));
            assert(name@.subrange(start - 1, n as int) =~= seq![t.last()] + name@.subrange(
                start as int,
                n as int,
            ));
            assert(last_component(t) == last_component(t.drop_last()).push(t.last()));
            assert(last_component(t.drop_last()).push(t.last()) + name@.subrange(start as int, n as int)
                =~= last_component(t.drop_last()) + name@.subrange(start - 1, n as int));
        }
        start = start - 1;
    }
    proof {
        if start > 0 {
            let t = name@.take(start as int);
            assert(is_windows_separator(t.last()));
            assert(last_component(t) =~= Seq::<char>::empty());
        } else {
            assert(name@.take(0) =~= Seq::<char>::empty());
        }
        assert(last_component(name@) =~= name@.subrange(start as int, n as int));
    }
    let ghost f = name@.subrange(start as int, n as int);
    if n - start == 2 && name[start] == '.' && name[start + 1] == '.' {
        assert(f =~= seq!['.', '.']);
        return false;
    }
    assert(f != seq!['.', '.']) by {
        if f == seq!['.', '.'] {
            assert(f.len() == 2 && f[0] == '.' && f[1] == '.');
        }
    }
    if start == n {
        return false;
    }
    let mut i: usize = start + 1;
    while i < n
        invariant
            start < i <= n,
            n == name@.len(),
            last_component(name@) == f,
            f != seq!['.', '.'],
            f == name@.subrange(start as int, n as int),
            forall|k: int| 0 < k < i - start ==> f[k] != '.',
        decreases n - i,
    {
        if name[i] == '.' {
            assert(f[(i - start) as int] == '.');
            return true;
        }
        i = i + 1;
    }
    false
}

/// The names tried for the executable `name` in each directory
/// (`executable_names`); `pathext` is the value of `PATHEXT`, read on
/// Windows only.
pub fn executable_names(name: &str, windows: bool, pathext: Option<&str>) -> (v: Vec<String>)
    ensures
        texts(v@) == executable_names_of(name@, windows, match pathext {
            Some(e) => Some(e@),
            None => None,
        }),
{
    let chars = crate::text::chars_of(name);
    if !windows || extension_present(&chars) {
        let mut v: Vec<String> = Vec::new();
        v.push(name.to_owned());
        assert(texts(v@) =~= seq![name@]);
        return v;
    }
    let extensions = match pathext {
        Some(e) => crate::text::chars_of(e),
        None => crate::text::chars_of(DEFAULT_PATHEXT),
    };
    let ghost e = extensions@;
    let mut v: Vec<String> = Vec::new();
    let mut current: Vec<char> = Vec::new();
    let mut i: usize = 0;
    while i < extensions.len()
        invariant
            i <= e.len(),
            e == extensions@,
            chars@ == name@,
            split_semicolons(e.take(i as int)).last() == current@,
            texts(v@) == nonempty_pieces(split_semicolons(e.take(i as int)).drop_last()).map_values(
                |x: Seq<char>| name@ + x,
            ),
        decreases e.len() - i,
    {
        let ghost before = split_semicolons(e.take(i as int));
        let ghost v0 = v@;
        let c = extensions[i];
        proof {
            lemma_split_semicolons_len(e.take(i as int));
            assert(e.take(i + 1).drop_last() =~= e.take(i as int));
            assert(e.take(i + 1).last() == c);
        }
        if c == ';' {
            if current.len() > 0 {
                let mut full = chars.clone();
                let mut k: usize = 0;
                while k < current.len()
                    invariant
                        k <= current@.len(),
                        full@ == name@ + current@.take(k as int),
                    decreases current@.len() - k,
                {
                    full.push(current[k]);
                    k = k + 1;
                    assert(full@ =~= name@ + current@.take(k as int));
                }
                assert(current@.take(current@.len() as int) =~= current@);
                v.push(string_of(full.as_slice()));
            }
            proof {
                let after = split_semicolons(e.take(i + 1));
                assert(after =~= before.push(Seq::empty()));
                assert(after.drop_last() =~= before);
                assert(nonempty_pieces(before) == if before.last().len() == 0 {
                    nonempty_pieces(before.drop_last())
                } else {
                    nonempty_pieces(before.drop_last()).push(before.last())
                });
                if current@.len() > 0 {
                    assert(texts(v@) =~= texts(v0).push(name@ + current@));
                } else {
                    assert(v@ == v0);
                }
                assert(texts(v@) =~= nonempty_pieces(after.drop_last()).map_values(
                    |x: Seq<char>| name@ + x,
                ));
            }
            current = Vec::new();
        } else {
            current.push(c);
            proof {
                let after = split_semicolons(e.take(i + 1));
                assert(after.drop_last() =~= before.drop_last());
                assert(after.last() =~= current@);
            }
        }
        i = i + 1;
    }
    let ghost v0 = v@;
    if current.len() > 0 {
        let mut full = chars.clone();
        let mut k: usize = 0;
        while k < current.len()
            invariant
                k <= current@.len(),
                full@ == name@ + current@.take(k as int),
            decreases current@.len() - k,
        {
            full.push(current[k]);
            k = k + 1;
            assert(full@ =~= name@ + current@.take(k as int));
        }
        assert(current@.take(current@.len() as int) =~= current@);
        v.push(string_of(full.as_slice()));
        assert(texts(v@) =~= texts(v0).push(name@ + current@));
    }
    proof {
        let all = split_semicolons(e);
        assert(e.take(e.len() as int) =~= e);
        lemma_split_semicolons_len(e);
        assert(texts(v@) =~= nonempty_pieces(all).map_values(|x: Seq<char>| name@ + x));
    }
    v
}

} // verus!

verus! {

/// Where an executable is searched for: the directories of `PATH` (none when
/// it is unset), whether this is Windows, and the value of `PATHEXT`.
#[derive(Debug)]
pub struct SearchPath {
    pub directories: Option<Vec<FsPath>>,
    pub windows: bool,
    pub extensions: Option<String>,
}

pub open spec fn directories_view(d: Option<Vec<FsPath>>) -> Option<Seq<Seq<PartView>>> {
    match d {
        Some(v) => Some(v@.map_values(|p: FsPath| p@)),
        None => None,
    }
}

pub open spec fn extensions_view(e: Option<String>) -> Option<Seq<char>> {
    match e {
        Some(s) => Some(s@),
        None => None,
    }
}

/// Every directory joined with every name, directory by directory.
pub open spec fn search_candidates(dirs: Seq<Seq<PartView>>, names: Seq<Seq<char>>) -> Seq<
    Seq<PartView>,
>
    decreases dirs.len(),
{
    if dirs.len() == 0 {
        Seq::empty()
    } else {
        search_candidates(dirs.drop_last(), names) + names.map_values(
            |n: Seq<char>| join(dirs.last(), parse(n)),
        )
    }
}

/// The paths tried for the executable `name` along the search path
/// (`find_on_path`): none when `PATH` is unset.
pub open spec fn path_candidates(name: Seq<char>, search: SearchPath) -> Seq<Seq<PartView>> {
    match directories_view(search.directories) {
        None => Seq::empty(),
        Some(dirs) => search_candidates(
            dirs,
            executable_names_of(name, search.windows, extensions_view(search.extensions)),
        ),
    }
}

/// The paths tried, in order, for the requested executable: a bare name is
/// looked up along the search path, any other path is taken as written, and
/// with no request `codex` is looked up.
pub open spec fn resolution_candidates(requested: Option<Seq<char>>, search: SearchPath) -> Seq<
    Seq<PartView>,
> {
    match requested {
        Some(r) => if parse_native(r, search.windows).len() == 1 {
            path_candidates(r, search)
        } else {
            seq![parse_native(r, search.windows)]
        },
        None => path_candidates(DEFAULT_EXECUTABLE@, search),
    }
}

fn path_candidate_list(name: &str, search: &SearchPath) -> (v: Vec<FsPath>)
    ensures
        v@.map_values(|p: FsPath| p@) == path_candidates(name@, *search),
{
    match &search.directories {
        None => {
            let v: Vec<FsPath> = Vec::new();
            assert(v@.map_values(|p: FsPath| p@) =~= Seq::<Seq<PartView>>::empty());
            v
        },
        Some(dirs) => {
            let pathext = match &search.extensions {
                Some(e) => Some(e.as_str()),
                None => None,
            };
            let names = executable_names(name, search.windows, pathext);
            let ghost ns = texts(names@);
            let ghost ds = dirs@.map_values(|p: FsPath| p@);
            proof {
                assert(ns == executable_names_of(name@, search.windows, extensions_view(search.extensions)));
            }
            let mut v: Vec<FsPath> = Vec::new();
            let mut i: usize = 0;
            while i < dirs.len()
                invariant
                    i <= dirs@.len(),
                    ds == dirs@.map_values(|p: FsPath| p@),
                    ns == texts(names@),
                    v@.map_values(|p: FsPath| p@) == search_candidates(ds.take(i as int), ns),
                decreases dirs@.len() - i,
            {
                let ghost v0 = v@.map_values(|p: FsPath| p@);
                let mut j: usize = 0;
                while j < names.len()
                    invariant
                        i < dirs@.len(),
                        j <= names@.len(),
                        ds == dirs@.map_values(|p: FsPath| p@),
                        ns == texts(names@),
                        v@.map_values(|p: FsPath| p@) == v0 + ns.take(j as int).map_values(
                            |n: Seq<char>| join(ds[i as int], parse(n)),
                        ),
                    decreases names@.len() - j,
                {
                    let candidate = dirs[i].join_str(names[j].as_str());
                    let ghost w0 = v@.map_values(|p: FsPath| p@);
                    v.push(candidate);
                    proof {
                        assert(v@.map_values(|p: FsPath| p@) =~= w0.push(candidate@));
                        assert(ns.take(j + 1) =~= ns.take(j as int).push(ns[j as int]));
                        assert(ns.take(j + 1).map_values(|n: Seq<char>| join(ds[i as int], parse(n)))
                            =~= ns.take(j as int).map_values(
                            |n: Seq<char>| join(ds[i as int], parse(n)),
                        ).push(join(ds[i as int], parse(ns[j as int]))));
                        assert(v@.map_values(|p: FsPath| p@) =~= v0 + ns.take(j + 1).map_values(
                            |n: Seq<char>| join(ds[i as int], parse(n)),
                        ));
                    }
                    j = j + 1;
                }
                proof {
                    assert(ns.take(ns.len() as int) =~= ns);
                    assert(ds.take(i + 1).drop_last() =~= ds.take(i as int));
                    assert(ds.take(i + 1).last() == ds[i as int]);
                }
                i = i + 1;
            }
            proof {
                assert(ds.take(ds.len() as int) =~= ds);
            }
            v
        },
    }
}

/// The candidate paths, in order, for the requested executable.
pub fn candidates(requested: &Option<String>, search: &SearchPath) -> (v: Vec<FsPath>)
    ensures
        v@.map_values(|p: FsPath| p@) == resolution_candidates(
            match requested {
                Some(r) => Some(r@),
                None => None,
            },
            *search,
        ),
{
    match requested {
        Some(r) => {
            let path = native_path(r.as_str(), search.windows);
            if path.len() == 1 {
                path_candidate_list(r.as_str(), search)
            } else {
                let mut v: Vec<FsPath> = Vec::new();
                v.push(path);
                assert(v@.map_values(|p: FsPath| p@) =~= seq![parse_native(r@, search.windows)]);
                v
            }
        },
        None => path_candidate_list(DEFAULT_EXECUTABLE, search),
    }
}

} // verus!

verus! {

/// An operation the executable search needs performed.
#[derive(Debug)]
pub enum ProbeRequest {
    /// `fs::metadata`, which follows symbolic links.
    Metadata(FsPath),
    /// `fs::canonicalize`.
    Canonicalize(FsPath),
    /// `env::current_exe`.
    CurrentExe,
}

/// The mathematical value of a `ProbeRequest`.
pub enum ProbeRequestView {
    Metadata(Seq<PartView>),
    Canonicalize(Seq<PartView>),
    CurrentExe,
}

impl View for ProbeRequest {
    type V = ProbeRequestView;

    open spec fn view(&self) -> ProbeRequestView {
        match self {
            ProbeRequest::Metadata(p) => ProbeRequestView::Metadata(p@),
            ProbeRequest::Canonicalize(p) => ProbeRequestView::Canonicalize(p@),
            ProbeRequest::CurrentExe => ProbeRequestView::CurrentExe,
        }
    }
}

/// The outcome of a probe request, or `Start`.
#[derive(Debug)]
pub enum ProbeEvent {
    Start,
    Metadata(core::result::Result<Metadata, std::io::Error>),
    Canonical(core::result::Result<FsPath, std::io::Error>),
    CurrentExe(core::result::Result<FsPath, std::io::Error>),
}

/// What the search wants next, or its result.
#[derive(Debug)]
pub enum ProbeStep {
    Ask(ProbeRequest),
    Finished(Result<Codex>),
}

/// A file that may be run: a regular file (after following links) with an
/// execute bit, the bits being checked on Unix only.
pub open spec fn is_executable_file(m: Metadata, windows: bool) -> bool {
    m.is_file && (windows || (m.mode & 0o111u32) != 0)
}

/// The search goes on with candidate `j`, or reports that Codex was not found
/// when there is none.
pub open spec fn next_candidate(cands: Seq<Seq<PartView>>, j: int, s: ProbeStep) -> bool {
    if j < cands.len() {
        s matches ProbeStep::Ask(r) && r@ == ProbeRequestView::Metadata(cands[j])
    } else {
        s matches ProbeStep::Finished(Err(AppError::CodexNotFound))
    }
}

pub open spec fn identify_context() -> Seq<char> {
    "could not identify the running executable"@
}

pub open spec fn resolve_self_context() -> Seq<char> {
    "could not resolve the running executable"@
}

#[derive(Debug)]
enum ResolveStage {
    Begin,
    Probe,
    Resolve,
    Identify,
    Compare,
    Done,
}

spec fn resolve_rank(s: ResolveStage) -> int {
    match s {
        ResolveStage::Begin => 0,
        ResolveStage::Probe => 1,
        ResolveStage::Resolve => 2,
        ResolveStage::Identify => 3,
        ResolveStage::Compare => 4,
        ResolveStage::Done => 5,
    }
}

/// Resolving the Codex executable (`Codex::resolve`): the candidates are
/// tried in order, the first that is an executable file and resolves to a
/// canonical path is taken, and it is refused when it is this very program.
#[derive(Debug)]
pub struct Resolution {
    candidates: Vec<FsPath>,
    windows: bool,
    index: usize,
    stage: ResolveStage,
    found: FsPath,
    current: FsPath,
}

/// The kind of outcome the resolution waits for at stage `rank`.
pub open spec fn resolution_awaits(rank: int, event: ProbeEvent) -> bool {
    if rank == 0 {
        true
    } else if rank == 1 {
        event is Metadata
    } else if rank == 3 {
        event is CurrentExe
    } else {
        event is Canonical
    }
}

/// The stage the resolution moves to when stage `rank` asks for more after
/// the outcome it waited for.
pub open spec fn resolution_next_rank(rank: int, event: ProbeEvent, windows: bool) -> int {
    if rank == 0 {
        1
    } else if rank == 1 {
        if event matches ProbeEvent::Metadata(Ok(m)) && is_executable_file(m, windows) {
            2
        } else {
            1
        }
    } else if rank == 2 {
        if event matches ProbeEvent::Canonical(Ok(_)) {
            3
        } else {
            1
        }
    } else {
        4
    }
}

/// One step of the resolution: `before`, given `event`, became `after` and
/// answered `s`. An outcome of another kind than the one waited for changes
/// nothing and asks for the pending request again.
pub open spec fn resolution_step(before: Resolution, event: ProbeEvent, after: Resolution, s: ProbeStep) -> bool {
    let cands = before.candidates();
    let i = before.index();
    &&& !resolution_awaits(before.rank(), event) ==> after == before && (s matches ProbeStep::Ask(r)
        && Some(r@) == before.pending())
    &&& s is Ask && resolution_awaits(before.rank(), event) ==> {
        &&& after.rank() == resolution_next_rank(before.rank(), event, before.windows())
        &&& after.index() == (if before.rank() == 0 {
            0
        } else if after.rank() == 1 {
            i + 1
        } else {
            i
        })
    }
    &&& s matches ProbeStep::Ask(r) ==> {
        &&& (after.rank() == 1 ==> r@ == ProbeRequestView::Metadata(cands[after.index()]))
        &&& (after.rank() == 2 ==> r@ == ProbeRequestView::Canonicalize(cands[after.index()]))
        &&& (after.rank() == 3 ==> r@ == ProbeRequestView::CurrentExe)
    }
    &&& before.rank() >= 3 ==> after.found() == before.found()
    &&& s matches ProbeStep::Finished(Ok(_)) ==> before.rank() == 4
    &&& after.wf()
    &&& after.candidates() == cands
    &&& after.windows() == before.windows()
    &&& match s {
        ProbeStep::Ask(r) => !after.is_done() && after.pending() == Some(r@),
        ProbeStep::Finished(Ok(c)) => after.is_done() && c@ == before.found(),
        ProbeStep::Finished(Err(_)) => after.is_done(),
    }
    &&& before.rank() == 0 ==> next_candidate(cands, 0, s)
    &&& event matches ProbeEvent::Metadata(obs) ==> before.rank() == 1 ==> match obs {
        Ok(m) => if is_executable_file(m, before.windows()) {
            s matches ProbeStep::Ask(r) && r@ == ProbeRequestView::Canonicalize(cands[i])
        } else {
            next_candidate(cands, i + 1, s)
        },
        Err(_) => next_candidate(cands, i + 1, s),
    }
    &&& event matches ProbeEvent::Canonical(res) ==> before.rank() == 2 ==> match res {
        Ok(p) => (s matches ProbeStep::Ask(r) && r@ == ProbeRequestView::CurrentExe) && after.found()
            == p@,
        Err(_) => next_candidate(cands, i + 1, s),
    }
    &&& event matches ProbeEvent::CurrentExe(res) ==> before.rank() == 3 ==> match res {
        Ok(p) => s matches ProbeStep::Ask(r) && r@ == ProbeRequestView::Canonicalize(p@),
        Err(error) => s matches ProbeStep::Finished(Err(e)) && is_io_failure(
            e,
            identify_context(),
            error,
        ),
    }
    &&& event matches ProbeEvent::Canonical(res) ==> before.rank() == 4 ==> match res {
        Ok(me) => if me@ == before.found() {
            s matches ProbeStep::Finished(Err(AppError::RecursiveCodexExecutable))
        } else {
            s matches ProbeStep::Finished(Ok(c)) && c@ == before.found()
        },
        Err(error) => s matches ProbeStep::Finished(Err(e)) && is_io_failure(
            e,
            resolve_self_context(),
            error,
        ),
    }
}

impl Resolution {
    pub closed spec fn candidates(&self) -> Seq<Seq<PartView>> {
        self.candidates@.map_values(|p: FsPath| p@)
    }

    pub closed spec fn windows(&self) -> bool {
        self.windows
    }

    /// The candidate under examination.
    pub closed spec fn index(&self) -> int {
        self.index as int
    }

    pub closed spec fn rank(&self) -> int {
        resolve_rank(self.stage)
    }

    /// The canonical path of the candidate that was taken.
    pub closed spec fn found(&self) -> Seq<PartView> {
        self.found@
    }

    pub closed spec fn is_done(&self) -> bool {
        self.stage is Done
    }

    pub closed spec fn pending(&self) -> Option<ProbeRequestView> {
        match self.stage {
            ResolveStage::Probe => Some(ProbeRequestView::Metadata(self.candidates@[self.index as int]@)),
            ResolveStage::Resolve => Some(ProbeRequestView::Canonicalize(self.candidates@[self.index as int]@)),
            ResolveStage::Identify => Some(ProbeRequestView::CurrentExe),
            ResolveStage::Compare => Some(ProbeRequestView::Canonicalize(self.current@)),
            _ => None,
        }
    }

    pub closed spec fn wf(&self) -> bool {
        (self.stage is Probe || self.stage is Resolve) ==> self.index < self.candidates@.len()
    }

    fn pending_request(&self) -> (r: ProbeRequest)
        requires
            self.wf(),
            self.pending() is Some,
        ensures
            Some(r@) == self.pending(),
    {
        match self.stage {
            ResolveStage::Probe => ProbeRequest::Metadata(self.candidates[self.index].copy()),
            ResolveStage::Resolve => ProbeRequest::Canonicalize(self.candidates[self.index].copy()),
            ResolveStage::Identify => ProbeRequest::CurrentExe,
            _ => ProbeRequest::Canonicalize(self.current.copy()),
        }
    }

    /// Goes on with candidate `j`.
    fn try_candidate(&mut self, j: usize) -> (s: ProbeStep)
        ensures
            final(self).wf(),
            final(self).candidates() == old(self).candidates(),
            final(self).windows() == old(self).windows(),
            final(self).found() == old(self).found(),
            next_candidate(old(self).candidates(), j as int, s),
            match s {
                ProbeStep::Ask(r) => !final(self).is_done() && final(self).pending() == Some(r@)
                    && final(self).rank() == 1 && final(self).index() == j,
                _ => final(self).is_done(),
            },
    {
        if j < self.candidates.len() {
            self.index = j;
            self.stage = ResolveStage::Probe;
            ProbeStep::Ask(ProbeRequest::Metadata(self.candidates[j].copy()))
        } else {
            self.stage = ResolveStage::Done;
            ProbeStep::Finished(Err(AppError::CodexNotFound))
        }
    }

    /// Advances the search with the outcome of the pending request (or
    /// `Start`).
    pub fn step(&mut self, event: ProbeEvent) -> (s: ProbeStep)
        requires
            old(self).wf(),
            !old(self).is_done(),
        ensures
            resolution_step(*old(self), event, *final(self), s),
    {
        // A vector's length fits in `usize`, and so does the next index.
        let _count = self.candidates.len();
        match self.stage {
            ResolveStage::Begin => self.try_candidate(0),
            ResolveStage::Probe => match event {
                ProbeEvent::Metadata(Ok(m)) => {
                    if m.is_file && (self.windows || (m.mode & 0o111u32) != 0) {
                        self.stage = ResolveStage::Resolve;
                        ProbeStep::Ask(self.pending_request())
                    } else {
                        self.try_candidate(self.index + 1)
                    }
                },
                ProbeEvent::Metadata(Err(_)) => self.try_candidate(self.index + 1),
                _ => ProbeStep::Ask(self.pending_request()),
            },
            ResolveStage::Resolve => match event {
                ProbeEvent::Canonical(Ok(p)) => {
                    self.found = p;
                    self.stage = ResolveStage::Identify;
                    ProbeStep::Ask(ProbeRequest::CurrentExe)
                },
                ProbeEvent::Canonical(Err(_)) => self.try_candidate(self.index + 1),
                _ => ProbeStep::Ask(self.pending_request()),
            },
            ResolveStage::Identify => match event {
                ProbeEvent::CurrentExe(Ok(p)) => {
                    self.current = p;
                    self.stage = ResolveStage::Compare;
                    ProbeStep::Ask(self.pending_request())
                },
                ProbeEvent::CurrentExe(Err(error)) => {
                    self.stage = ResolveStage::Done;
                    let context = "could not identify the running executable".to_owned();
                    ProbeStep::Finished(Err(AppError::io(context, error)))
                },
                _ => ProbeStep::Ask(self.pending_request()),
            },
            ResolveStage::Compare => match event {
                ProbeEvent::Canonical(Ok(me)) => {
                    self.stage = ResolveStage::Done;
                    if me.same(&self.found) {
                        ProbeStep::Finished(Err(AppError::RecursiveCodexExecutable))
                    } else {
                        ProbeStep::Finished(Ok(Codex { executable: self.found.copy() }))
                    }
                },
                ProbeEvent::Canonical(Err(error)) => {
                    self.stage = ResolveStage::Done;
                    let context = "could not resolve the running executable".to_owned();
                    ProbeStep::Finished(Err(AppError::io(context, error)))
                },
                _ => ProbeStep::Ask(self.pending_request()),
            },
            ResolveStage::Done => ProbeStep::Ask(ProbeRequest::CurrentExe),
        }
    }
}

impl Codex {
    /// Begins resolving the Codex executable (`Codex::resolve`): `requested`
    /// is the executable asked for on the command line, `search` where bare
    /// names are looked up.
    pub fn resolve(requested: Option<String>, search: &SearchPath) -> (r: Resolution)
        ensures
            r.wf(),
            r.rank() == 0,
            !r.is_done(),
            r.windows() == search.windows,
            r.candidates() == resolution_candidates(
                match requested {
                    Some(x) => Some(x@),
                    None => None,
                },
                *search,
            ),
    {
        Resolution {
            candidates: candidates(&requested, search),
            windows: search.windows,
            index: 0,
            stage: ResolveStage::Begin,
            found: FsPath::empty(),
            current: FsPath::empty(),
        }
    }
}

/// `r` is what `Codex::resolve` begins with for `requested` and `search`.
pub open spec fn begins_resolution(requested: Option<Seq<char>>, search: SearchPath, r: Resolution) -> bool {
    &&& r.wf()
    &&& r.rank() == 0
    &&& !r.is_done()
    &&& r.windows() == search.windows
    &&& r.candidates() == resolution_candidates(requested, search)
}

/// A run of a resolution begun by `Codex::resolve`: stepping `rs[i]` with
/// `events[i]` gave `rs[i + 1]` and answered `answers[i]`, and every answer
/// but the last asked for more.
pub open spec fn is_resolution_run(
    requested: Option<Seq<char>>,
    search: SearchPath,
    rs: Seq<Resolution>,
    events: Seq<ProbeEvent>,
    answers: Seq<ProbeStep>,
) -> bool {
    &&& rs.len() == events.len() + 1
    &&& answers.len() == events.len()
    &&& begins_resolution(requested, search, rs[0])
    &&& forall|i: int|
        0 <= i < events.len() ==> #[trigger] resolution_step(rs[i], events[i], rs[i + 1], answers[i])
    &&& forall|i: int| 0 <= i < answers.len() - 1 ==> (#[trigger] answers[i]) is Ask
}

/// Candidate `rs[a].index()` was probed at step `a` and found an executable
/// file.
pub open spec fn probed_executable(
    rs: Seq<Resolution>,
    events: Seq<ProbeEvent>,
    a: int,
    windows: bool,
) -> bool {
    &&& rs[a].rank() == 1
    &&& rs[a].pending() == Some(ProbeRequestView::Metadata(rs[a].candidates()[rs[a].index()]))
    &&& events[a] matches ProbeEvent::Metadata(Ok(m)) && is_executable_file(m, windows)
}

/// Candidate `rs[b].index()` was resolved at step `b` to the canonical path
/// `found`.
pub open spec fn resolved_to(rs: Seq<Resolution>, events: Seq<ProbeEvent>, b: int, found: Seq<PartView>) -> bool {
    &&& rs[b].rank() == 2
    &&& rs[b].pending() == Some(ProbeRequestView::Canonicalize(rs[b].candidates()[rs[b].index()]))
    &&& events[b] matches ProbeEvent::Canonical(Ok(p)) && p@ == found
}

proof fn lemma_resolution_run_prefix(
    requested: Option<Seq<char>>,
    search: SearchPath,
    rs: Seq<Resolution>,
    events: Seq<ProbeEvent>,
    answers: Seq<ProbeStep>,
    k: int,
)
    requires
        is_resolution_run(requested, search, rs, events, answers),
        0 <= k < answers.len(),
    ensures
        rs[k].wf(),
        !rs[k].is_done(),
        rs[k].candidates() == resolution_candidates(requested, search),
        rs[k].windows() == search.windows,
        k > 0 ==> (answers[k - 1] matches ProbeStep::Ask(r) && rs[k].pending() == Some(r@)),
        k > 0 && rs[k].rank() == 1 ==> rs[k].pending() == Some(
            ProbeRequestView::Metadata(rs[k].candidates()[rs[k].index()]),
        ),
        k > 0 && rs[k].rank() == 2 ==> rs[k].pending() == Some(
            ProbeRequestView::Canonicalize(rs[k].candidates()[rs[k].index()]),
        ),
        2 <= rs[k].rank() <= 4 ==> exists|a: int|
            0 <= a < k && rs[a].index() == rs[k].index() && #[trigger] probed_executable(
                rs,
                events,
                a,
                search.windows,
            ),
        3 <= rs[k].rank() <= 4 ==> exists|b: int|
            0 <= b < k && rs[b].index() == rs[k].index() && #[trigger] resolved_to(
                rs,
                events,
                b,
                rs[k].found(),
            ),
    decreases k,
{
    if k > 0 {
        let j = k - 1;
        lemma_resolution_run_prefix(requested, search, rs, events, answers, j);
        assert(answers[j] is Ask);
        assert(resolution_step(rs[j], events[j], rs[j + 1], answers[j]));
        assert(j + 1 == k);
        if 2 <= rs[k].rank() <= 4 {
            if rs[j].rank() == 1 && rs[k].rank() == 2 {
                assert(probed_executable(rs, events, j, search.windows));
            } else {
                let a = choose|a: int|
                    0 <= a < j && rs[a].index() == rs[j].index() && #[trigger] probed_executable(
                        rs,
                        events,
                        a,
                        search.windows,
                    );
                assert(rs[a].index() == rs[k].index());
            }
        }
        if 3 <= rs[k].rank() <= 4 {
            if rs[j].rank() == 2 && rs[k].rank() == 3 {
                assert(resolved_to(rs, events, j, rs[k].found()));
            } else {
                let b = choose|b: int|
                    0 <= b < j && rs[b].index() == rs[j].index() && #[trigger] resolved_to(
                        rs,
                        events,
                        b,
                        rs[j].found(),
                    );
                assert(rs[b].index() == rs[k].index());
            }
        }
    }
}

/// Resolving the Codex executable (`Codex::resolve`) over a whole run: a run
/// that succeeds with `c` took one candidate, found it an executable file,
/// asked for that very candidate's canonical path and took the answer as
/// `c`'s path, and last learned a canonical path of the running program that
/// differs from it.
pub proof fn resolution_finds_a_distinct_executable(
    requested: Option<Seq<char>>,
    search: SearchPath,
    rs: Seq<Resolution>,
    events: Seq<ProbeEvent>,
    answers: Seq<ProbeStep>,
)
    requires
        is_resolution_run(requested, search, rs, events, answers),
        answers.len() > 0,
    ensures
        answers.last() matches ProbeStep::Finished(Ok(c)) ==> {
            let n = answers.len() - 1;
            let i = rs[n].index();
            &&& 0 <= i < resolution_candidates(requested, search).len()
            &&& exists|a: int|
                0 <= a < n && rs[a].index() == i && #[trigger] probed_executable(
                    rs,
                    events,
                    a,
                    search.windows,
                )
            &&& exists|b: int| 0 <= b < n && rs[b].index() == i && #[trigger] resolved_to(rs, events, b, c@)
            &&& events[n] matches ProbeEvent::Canonical(Ok(me)) && me@ != c@
        },
{
    let n = answers.len() - 1;
    lemma_resolution_run_prefix(requested, search, rs, events, answers, n);
    assert(resolution_step(rs[n], events[n], rs[n + 1], answers[n]));
    if let ProbeStep::Finished(Ok(c)) = answers.last() {
        assert(rs[n].rank() == 4);
        let a = choose|a: int|
            0 <= a < n && rs[a].index() == rs[n].index() && #[trigger] probed_executable(
                rs,
                events,
                a,
                search.windows,
            );
        lemma_resolution_run_prefix(requested, search, rs, events, answers, a);
    }
}

} // verus!
