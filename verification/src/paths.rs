//! A model of filesystem paths as component sequences, path normalization and
//! the location of the profile storage root.

use vstd::prelude::*;

use crate::error::{is_io_error, is_unsafe_profile, AppError, Result};
use crate::text::{chars_of, push_char, push_str, string_of};

verus! {

/// One component of a path, as `std::path::Component` yields them.
#[derive(Debug)]
pub enum PathPart {
    /// A Windows prefix such as `C:`, `\\server\share` or `\\?\C:`, as
    /// written.
    Prefix(String),
    /// The root directory.
    Root,
    /// A leading `.`.
    Current,
    /// `..`.
    Parent,
    /// An ordinary name.
    Normal(String),
}

/// The mathematical value of a path component.
pub enum PartView {
    Prefix(Seq<char>),
    Root,
    Current,
    Parent,
    Normal(Seq<char>),
}

impl View for PathPart {
    type V = PartView;

    open spec fn view(&self) -> PartView {
        match self {
            PathPart::Prefix(s) => PartView::Prefix(s@),
            PathPart::Root => PartView::Root,
            PathPart::Current => PartView::Current,
            PathPart::Parent => PartView::Parent,
            PathPart::Normal(s) => PartView::Normal(s@),
        }
    }
}

/// A filesystem path, held as its sequence of components.
#[derive(Debug)]
pub struct FsPath {
    pub parts: Vec<PathPart>,
}

impl View for FsPath {
    type V = Seq<PartView>;

    open spec fn view(&self) -> Seq<PartView> {
        self.parts@.map_values(|p: PathPart| p@)
    }
}

/// Whether the path begins with a Windows prefix.
pub open spec fn has_prefix(p: Seq<PartView>) -> bool {
    p.len() > 0 && p[0] is Prefix
}

/// `Path::is_absolute`: the path starts at a root directory, either at once
/// or right after a Windows prefix (`/usr`, `C:\Users`, `\\?\C:\x`). A root
/// with no prefix counts as absolute on every platform.
pub open spec fn is_absolute(p: Seq<PartView>) -> bool {
    ||| p.len() > 0 && p[0] == PartView::Root
    ||| p.len() > 1 && p[0] is Prefix && p[1] == PartView::Root
}

/// The number of leading components that anchor an absolute path: the root,
/// and the prefix before it when there is one.
pub open spec fn anchor_len(p: Seq<PartView>) -> int {
    if has_prefix(p) {
        2
    } else {
        1
    }
}

/// An absolute path with nothing but ordinary names after its anchor.
pub open spec fn is_normalized(p: Seq<PartView>) -> bool {
    &&& is_absolute(p)
    &&& forall|i: int| anchor_len(p) <= i < p.len() ==> (#[trigger] p[i]) is Normal
}

/// `Path::join`: a `rel` that is absolute or carries a prefix replaces
/// `base`; any other extends it.
pub open spec fn join(base: Seq<PartView>, rel: Seq<PartView>) -> Seq<PartView> {
    if is_absolute(rel) || has_prefix(rel) {
        rel
    } else {
        base + rel
    }
}

/// `PathBuf::pop` succeeds on a path built from an anchor and names exactly
/// when its last component is a name.
pub open spec fn can_pop(acc: Seq<PartView>) -> bool {
    acc.len() > 0 && acc.last() is Normal
}

/// Lexical normalization: a prefix starts the path afresh, a root follows a
/// lone prefix or starts afresh, `.` vanishes, `..` removes the preceding
/// name, and `None` when a `..` has no name left to remove.
pub open spec fn normalize(p: Seq<PartView>) -> Option<Seq<PartView>>
    decreases p.len(),
{
    if p.len() == 0 {
        Some(Seq::empty())
    } else {
        match normalize(p.drop_last()) {
            None => None,
            Some(acc) => match p.last() {
                PartView::Prefix(t) => Some(seq![PartView::Prefix(t)]),
                PartView::Root => if acc.len() == 1 && acc[0] is Prefix {
                    Some(acc.push(PartView::Root))
                } else {
                    Some(seq![PartView::Root])
                },
                PartView::Current => Some(acc),
                PartView::Parent => if can_pop(acc) {
                    Some(acc.drop_last())
                } else {
                    None
                },
                PartView::Normal(s) => Some(acc.push(PartView::Normal(s))),
            },
        }
    }
}

/// The pieces of `s` between `/` separators, empty pieces included.
pub open spec fn split_slash(s: Seq<char>) -> Seq<Seq<char>>
    decreases s.len(),
{
    if s.len() == 0 {
        seq![Seq::empty()]
    } else {
        let rest = split_slash(s.drop_last());
        if s.last() == '/' {
            rest.push(Seq::empty())
        } else {
            rest.update(rest.len() - 1, rest.last().push(s.last()))
        }
    }
}

/// A path separator: `/`, and on Windows also `\`.
pub open spec fn is_separator(c: char, windows: bool) -> bool {
    c == '/' || (windows && c == '\\')
}

/// The pieces of `s` between separators, empty pieces included.
pub open spec fn split_seps(s: Seq<char>, windows: bool) -> Seq<Seq<char>>
    decreases s.len(),
{
    if s.len() == 0 {
        seq![Seq::empty()]
    } else {
        let rest = split_seps(s.drop_last(), windows);
        if is_separator(s.last(), windows) {
            rest.push(Seq::empty())
        } else {
            rest.update(rest.len() - 1, rest.last().push(s.last()))
        }
    }
}

/// The component a piece between separators contributes: nothing for an
/// empty piece or `.`, `..` for `..`, and a name otherwise.
pub open spec fn piece_parts(piece: Seq<char>) -> Seq<PartView> {
    if piece.len() == 0 || piece == seq!['.'] {
        Seq::empty()
    } else if piece == seq!['.', '.'] {
        seq![PartView::Parent]
    } else {
        seq![PartView::Normal(piece)]
    }
}

pub open spec fn pieces_parts(pieces: Seq<Seq<char>>) -> Seq<PartView>
    decreases pieces.len(),
{
    if pieces.len() == 0 {
        Seq::empty()
    } else {
        pieces_parts(pieces.drop_last()) + piece_parts(pieces.last())
    }
}

pub open spec fn starts_at_root(s: Seq<char>) -> bool {
    s.len() > 0 && s[0] == '/'
}

/// A relative path that begins with `.` followed by a separator or nothing.
pub open spec fn starts_at_current(s: Seq<char>) -> bool {
    &&& !starts_at_root(s)
    &&& s.len() > 0
    &&& s[0] == '.'
    &&& (s.len() == 1 || s[1] == '/')
}

/// `Path::components` on Unix for the path written `s`.
pub open spec fn parse(s: Seq<char>) -> Seq<PartView> {
    let lead = if starts_at_root(s) {
        seq![PartView::Root]
    } else if starts_at_current(s) {
        seq![PartView::Current]
    } else {
        Seq::empty()
    };
    lead + pieces_parts(split_slash(s))
}

/// The index of the first Windows separator at or after `i`, or the length
/// of `s` when there is none.
pub open spec fn next_separator(s: Seq<char>, i: int) -> int
    decreases s.len() - i,
{
    if i >= s.len() {
        s.len() as int
    } else if is_separator(s[i], true) {
        i
    } else {
        next_separator(s, i + 1)
    }
}

/// An ASCII letter, as a drive letter is.
pub open spec fn is_drive_letter(c: char) -> bool {
    (65 <= c as u32 <= 90) || (97 <= c as u32 <= 122)
}

/// The length of the Windows prefix that `s` begins with: after two leading
/// separators, the next two pieces (`\\server\share`, `\\?\C:`); a drive
/// letter and a colon (`C:`); or nothing.
pub open spec fn windows_prefix_len(s: Seq<char>) -> int {
    if s.len() >= 2 && is_separator(s[0], true) && is_separator(s[1], true) {
        let a = next_separator(s, 2);
        if a >= s.len() {
            s.len() as int
        } else {
            next_separator(s, a + 1)
        }
    } else if s.len() >= 2 && is_drive_letter(s[0]) && s[1] == ':' {
        2
    } else {
        0
    }
}

/// The leading components of a Windows path: its prefix, then a root when a
/// separator follows it, or `.` for a relative path that begins with one.
pub open spec fn windows_lead(s: Seq<char>) -> Seq<PartView> {
    let k = windows_prefix_len(s);
    let prefix = if k > 0 {
        seq![PartView::Prefix(s.take(k))]
    } else {
        Seq::empty()
    };
    let anchor = if k < s.len() && is_separator(s[k], true) {
        seq![PartView::Root]
    } else if k == 0 && s.len() > 0 && s[0] == '.' && (s.len() == 1 || is_separator(s[1], true)) {
        seq![PartView::Current]
    } else {
        Seq::empty()
    };
    prefix + anchor
}

/// `Path::components` on Windows for the path written `s`.
pub open spec fn parse_windows(s: Seq<char>) -> Seq<PartView> {
    windows_lead(s) + pieces_parts(split_seps(s.skip(windows_prefix_len(s)), true))
}

/// `Path::components` on the platform at hand.
pub open spec fn parse_native(s: Seq<char>, windows: bool) -> Seq<PartView> {
    if windows {
        parse_windows(s)
    } else {
        parse(s)
    }
}

pub open spec fn part_text(p: PartView) -> Seq<char> {
    match p {
        PartView::Prefix(t) => t,
        PartView::Root => Seq::empty(),
        PartView::Current => seq!['.'],
        PartView::Parent => seq!['.', '.'],
        PartView::Normal(s) => s,
    }
}

/// The components' texts joined with `sep`.
pub open spec fn joined(p: Seq<PartView>, sep: char) -> Seq<char>
    decreases p.len(),
{
    if p.len() == 0 {
        Seq::empty()
    } else if p.len() == 1 {
        part_text(p[0])
    } else {
        joined(p.drop_last(), sep) + seq![sep] + part_text(p.last())
    }
}

/// `Path::display` of a path built from these components: a prefixed path
/// with `\` between its components, any other with `/`.
pub open spec fn render(p: Seq<PartView>) -> Seq<char> {
    if has_prefix(p) {
        part_text(p[0]) + joined(p.skip(1), '\\')
    } else if p.len() > 0 && p[0] == PartView::Root {
        seq!['/'] + joined(p.skip(1), '/')
    } else {
        joined(p, '/')
    }
}

/// `Path::strip_prefix`: the components after `base`, when `base` begins `p`.
pub open spec fn strip_prefix(p: Seq<PartView>, base: Seq<PartView>) -> Option<Seq<PartView>> {
    if base.len() <= p.len() && p.take(base.len() as int) == base {
        Some(p.skip(base.len() as int))
    } else {
        None
    }
}

proof fn lemma_split_seps_nonempty(s: Seq<char>, windows: bool)
    ensures
        split_seps(s, windows).len() >= 1,
    decreases s.len(),
{
    if s.len() > 0 {
        lemma_split_seps_nonempty(s.drop_last(), windows);
    }
}

proof fn lemma_split_seps_unix(s: Seq<char>)
    ensures
        split_seps(s, false) == split_slash(s),
    decreases s.len(),
{
    if s.len() > 0 {
        lemma_split_seps_unix(s.drop_last());
    }
}

fn is_separator_char(c: char, windows: bool) -> (b: bool)
    ensures
        b == is_separator(c, windows),
{
    c == '/' || (windows && c == '\\')
}

impl PathPart {
    /// A copy of this component with the same value.
    pub fn copy(&self) -> (r: PathPart)
        ensures
            r@ == self@,
    {
        match self {
            PathPart::Prefix(s) => PathPart::Prefix(s.clone()),
            PathPart::Root => PathPart::Root,
            PathPart::Current => PathPart::Current,
            PathPart::Parent => PathPart::Parent,
            PathPart::Normal(s) => PathPart::Normal(s.clone()),
        }
    }

    pub fn is_normal(&self) -> (b: bool)
        ensures
            b == (self@ is Normal),
    {
        match self {
            PathPart::Normal(_) => true,
            _ => false,
        }
    }

    pub fn is_prefix(&self) -> (b: bool)
        ensures
            b == (self@ is Prefix),
    {
        match self {
            PathPart::Prefix(_) => true,
            _ => false,
        }
    }

    pub fn is_root(&self) -> (b: bool)
        ensures
            b == (self@ == PartView::Root),
    {
        match self {
            PathPart::Root => true,
            _ => false,
        }
    }

    /// Whether two components are equal.
    pub fn same(&self, other: &PathPart) -> (b: bool)
        ensures
            b == (self@ == other@),
    {
        match (self, other) {
            (PathPart::Prefix(a), PathPart::Prefix(b)) => a.eq(b),
            (PathPart::Root, PathPart::Root) => true,
            (PathPart::Current, PathPart::Current) => true,
            (PathPart::Parent, PathPart::Parent) => true,
            (PathPart::Normal(a), PathPart::Normal(b)) => a.eq(b),
            _ => false,
        }
    }
}

/// Appends the texts of `parts` from `start` on, with `sep` between them.
fn push_joined(s: &mut String, parts: &Vec<PathPart>, start: usize, sep: char)
    requires
        start <= parts@.len(),
    ensures
        final(s)@ == old(s)@ + joined(parts@.map_values(|p: PathPart| p@).skip(start as int), sep),
{
    let ghost v = parts@.map_values(|p: PathPart| p@);
    let ghost s0 = s@;
    let mut i: usize = start;
    proof {
        assert(v.subrange(start as int, start as int) =~= Seq::<PartView>::empty());
        assert(s@ =~= s0 + joined(v.subrange(start as int, i as int), sep));
    }
    while i < parts.len()
        invariant
            start <= i <= parts@.len(),
            v == parts@.map_values(|p: PathPart| p@),
            s@ == s0 + joined(v.subrange(start as int, i as int), sep),
        decreases parts@.len() - i,
    {
        let ghost before = v.subrange(start as int, i as int);
        if i > start {
            push_char(s, sep);
        }
        match &parts[i] {
            PathPart::Prefix(t) => {
                push_str(s, t.as_str());
            },
            PathPart::Root => {},
            PathPart::Current => {
                push_char(s, '.');
            },
            PathPart::Parent => {
                push_char(s, '.');
                push_char(s, '.');
            },
            PathPart::Normal(name) => {
                push_str(s, name.as_str());
            },
        }
        i = i + 1;
        proof {
            let after = v.subrange(start as int, i as int);
            assert(after.drop_last() =~= before);
            assert(after.last() == v[i - 1]);
            if before.len() == 0 {
                assert(after.len() == 1);
            }
            assert(s@ =~= s0 + joined(after, sep));
        }
    }
    proof {
        assert(v.subrange(start as int, v.len() as int) =~= v.skip(start as int));
    }
}

impl FsPath {
    /// The empty path.
    pub fn empty() -> (p: FsPath)
        ensures
            p@ == Seq::<PartView>::empty(),
    {
        FsPath { parts: Vec::new() }
    }

    /// A copy of this path with the same value.
    pub fn copy(&self) -> (r: FsPath)
        ensures
            r@ == self@,
    {
        let mut parts: Vec<PathPart> = Vec::new();
        let mut i: usize = 0;
        while i < self.parts.len()
            invariant
                i <= self.parts@.len(),
                parts@.len() == i,
                forall|k: int| 0 <= k < i ==> (#[trigger] parts@[k])@ == self.parts@[k]@,
            decreases self.parts@.len() - i,
        {
            let part = self.parts[i].copy();
            parts.push(part);
            i = i + 1;
        }
        assert(parts@.map_values(|p: PathPart| p@) =~= self@);
        FsPath { parts }
    }

    pub fn len(&self) -> (n: usize)
        ensures
            n == self@.len(),
    {
        self.parts.len()
    }

    /// Whether the path begins with a Windows prefix.
    pub fn has_prefix(&self) -> (b: bool)
        ensures
            b == has_prefix(self@),
    {
        self.parts.len() > 0 && self.parts[0].is_prefix()
    }

    /// `Path::is_absolute`.
    pub fn is_absolute(&self) -> (b: bool)
        ensures
            b == is_absolute(self@),
    {
        let n = self.parts.len();
        if n == 0 {
            return false;
        }
        if self.parts[0].is_root() {
            return true;
        }
        n > 1 && self.parts[0].is_prefix() && self.parts[1].is_root()
    }

    /// Whether two paths have the same components.
    pub fn same(&self, other: &FsPath) -> (b: bool)
        ensures
            b == (self@ == other@),
    {
        if self.parts.len() != other.parts.len() {
            assert(self@.len() != other@.len());
            return false;
        }
        let mut i: usize = 0;
        while i < self.parts.len()
            invariant
                i <= self.parts@.len(),
                self.parts@.len() == other.parts@.len(),
                forall|k: int| 0 <= k < i ==> self@[k] == other@[k],
            decreases self.parts@.len() - i,
        {
            if !self.parts[i].same(&other.parts[i]) {
                assert(self@[i as int] != other@[i as int]);
                return false;
            }
            i = i + 1;
        }
        assert(self@ =~= other@);
        true
    }

    /// Appends one component.
    pub fn push(&mut self, part: PathPart)
        ensures
            final(self)@ == old(self)@.push(part@),
    {
        self.parts.push(part);
        assert(self@ =~= old(self)@.push(part@));
    }

    /// `Path::join`.
    pub fn join(&self, rel: &FsPath) -> (r: FsPath)
        ensures
            r@ == join(self@, rel@),
    {
        if rel.is_absolute() || rel.has_prefix() {
            return rel.copy();
        }
        let mut r = self.copy();
        let mut i: usize = 0;
        while i < rel.parts.len()
            invariant
                i <= rel.parts@.len(),
                r@ == self@ + rel@.take(i as int),
            decreases rel.parts@.len() - i,
        {
            r.push(rel.parts[i].copy());
            i = i + 1;
            assert(r@ =~= self@ + rel@.take(i as int));
        }
        assert(rel@.take(rel@.len() as int) =~= rel@);
        r
    }

    /// `Path::join` with a path written as a string.
    pub fn join_str(&self, rel: &str) -> (r: FsPath)
        ensures
            r@ == join(self@, parse(rel@)),
    {
        self.join(&parse_path(rel))
    }

    /// `Path::display`: the path written out.
    pub fn display(&self) -> (s: String)
        ensures
            s@ == render(self@),
    {
        let mut s = String::new();
        if self.has_prefix() {
            match &self.parts[0] {
                PathPart::Prefix(t) => {
                    push_str(&mut s, t.as_str());
                },
                _ => {},
            }
            push_joined(&mut s, &self.parts, 1, '\\');
            assert(s@ =~= render(self@));
            return s;
        }
        if self.parts.len() > 0 && self.parts[0].is_root() {
            push_char(&mut s, '/');
            push_joined(&mut s, &self.parts, 1, '/');
            assert(s@ =~= render(self@));
            return s;
        }
        push_joined(&mut s, &self.parts, 0, '/');
        assert(self@.skip(0) =~= self@);
        assert(s@ =~= render(self@));
        s
    }
}

fn piece_to_parts(piece: &Vec<char>, parts: &mut Vec<PathPart>)
    ensures
        final(parts)@.map_values(|p: PathPart| p@) == old(parts)@.map_values(|p: PathPart| p@)
            + piece_parts(piece@),
{
    let n = piece.len();
    if n == 0 || (n == 1 && piece[0] == '.') {
        assert(n == 1 ==> piece@ =~= seq!['.']);
        assert(piece@ != seq!['.'] ==> n != 1 || piece@[0] != '.');
        assert(parts@.map_values(|p: PathPart| p@) =~= old(parts)@.map_values(|p: PathPart| p@)
            + piece_parts(piece@));
    } else if n == 2 && piece[0] == '.' && piece[1] == '.' {
        assert(piece@ =~= seq!['.', '.']);
        parts.push(PathPart::Parent);
        assert(parts@.map_values(|p: PathPart| p@) =~= old(parts)@.map_values(|p: PathPart| p@)
            + piece_parts(piece@));
    } else {
        assert(piece@ != seq!['.']) by {
            if piece@ == seq!['.'] {
                assert(piece@.len() == 1 && piece@[0] == '.');
            }
        }
        assert(piece@ != seq!['.', '.']) by {
            if piece@ == seq!['.', '.'] {
                assert(piece@.len() == 2 && piece@[0] == '.' && piece@[1] == '.');
            }
        }
        parts.push(PathPart::Normal(string_of(piece.as_slice())));
        assert(parts@.map_values(|p: PathPart| p@) =~= old(parts)@.map_values(|p: PathPart| p@)
            + piece_parts(piece@));
    }
}

/// Appends the components of the pieces of `chars` from `start` on.
fn append_pieces(chars: &Vec<char>, start: usize, windows: bool, parts: &mut Vec<PathPart>)
    requires
        start <= chars@.len(),
    ensures
        final(parts)@.map_values(|p: PathPart| p@) == old(parts)@.map_values(|p: PathPart| p@)
            + pieces_parts(split_seps(chars@.skip(start as int), windows)),
{
    let ghost t = chars@.skip(start as int);
    let ghost lead = parts@.map_values(|p: PathPart| p@);
    let n = chars.len();
    let mut piece: Vec<char> = Vec::new();
    let mut i: usize = start;
    proof {
        assert(t.take(0) =~= Seq::<char>::empty());
        assert(lead + pieces_parts(Seq::<Seq<char>>::empty()) =~= lead);
    }
    while i < n
        invariant
            start <= i <= n,
            n == chars@.len(),
            t == chars@.skip(start as int),
            split_seps(t.take(i - start), windows).len() >= 1,
            piece@ == split_seps(t.take(i - start), windows).last(),
            parts@.map_values(|p: PathPart| p@) == lead + pieces_parts(
                split_seps(t.take(i - start), windows).drop_last(),
            ),
        decreases n - i,
    {
        let c = chars[i];
        let ghost pre = t.take(i - start);
        let ghost next = t.take(i - start + 1);
        proof {
            assert(next.drop_last() =~= pre);
            assert(next.last() == c);
            lemma_split_seps_nonempty(pre, windows);
        }
        if is_separator_char(c, windows) {
            piece_to_parts(&piece, parts);
            piece = Vec::new();
            proof {
                let sp = split_seps(pre, windows);
                assert(split_seps(next, windows) == sp.push(Seq::<char>::empty()));
                assert(split_seps(next, windows).drop_last() =~= sp);
                assert(sp.drop_last() + seq![sp.last()] =~= sp);
                assert(pieces_parts(sp) == pieces_parts(sp.drop_last()) + piece_parts(sp.last()));
                assert(parts@.map_values(|p: PathPart| p@) =~= lead + pieces_parts(
                    split_seps(next, windows).drop_last(),
                ));
            }
        } else {
            piece.push(c);
            proof {
                let sp = split_seps(pre, windows);
                assert(split_seps(next, windows) == sp.update(sp.len() - 1, sp.last().push(c)));
                assert(split_seps(next, windows).drop_last() =~= sp.drop_last());
            }
        }
        i = i + 1;
    }
    piece_to_parts(&piece, parts);
    proof {
        assert(t.take(n - start) =~= t);
        let sp = split_seps(t, windows);
        lemma_split_seps_nonempty(t, windows);
        assert(pieces_parts(sp) == pieces_parts(sp.drop_last()) + piece_parts(sp.last()));
        assert(parts@.map_values(|p: PathPart| p@) =~= lead + pieces_parts(sp));
    }
}

/// `Path::new(s).components()` on Unix, as a path value.
pub fn parse_path(s: &str) -> (p: FsPath)
    ensures
        p@ == parse(s@),
{
    let chars = chars_of(s);
    let n = chars.len();
    let mut parts: Vec<PathPart> = Vec::new();
    if n > 0 && chars[0] == '/' {
        parts.push(PathPart::Root);
    } else if n > 0 && chars[0] == '.' && (n == 1 || chars[1] == '/') {
        parts.push(PathPart::Current);
    }
    let ghost lead = parts@.map_values(|p: PathPart| p@);
    proof {
        if starts_at_root(s@) {
            assert(lead =~= seq![PartView::Root]);
        } else if starts_at_current(s@) {
            assert(lead =~= seq![PartView::Current]);
        } else {
            assert(lead =~= Seq::<PartView>::empty());
        }
    }
    append_pieces(&chars, 0, false, &mut parts);
    proof {
        assert(chars@.skip(0) =~= s@);
        lemma_split_seps_unix(s@);
        assert(parts@.map_values(|p: PathPart| p@) =~= parse(s@));
    }
    FsPath { parts }
}

/// The first Windows separator at or after `from`, or the length of `chars`.
fn next_separator_at(chars: &Vec<char>, from: usize) -> (j: usize)
    requires
        from <= chars@.len(),
    ensures
        j == next_separator(chars@, from as int),
        from <= j <= chars@.len(),
{
    let mut i: usize = from;
    while i < chars.len() && !is_separator_char(chars[i], true)
        invariant
            from <= i <= chars@.len(),
            next_separator(chars@, i as int) == next_separator(chars@, from as int),
        decreases chars@.len() - i,
    {
        i = i + 1;
    }
    i
}

fn is_drive_letter_char(c: char) -> (b: bool)
    ensures
        b == is_drive_letter(c),
{
    let n = c as u32;
    (65 <= n && n <= 90) || (97 <= n && n <= 122)
}

/// The length of the Windows prefix that `chars` begins with.
fn windows_prefix_length(chars: &Vec<char>) -> (k: usize)
    ensures
        k == windows_prefix_len(chars@),
        k <= chars@.len(),
{
    let n = chars.len();
    if n >= 2 && is_separator_char(chars[0], true) && is_separator_char(chars[1], true) {
        let a = next_separator_at(chars, 2);
        if a >= n {
            n
        } else {
            next_separator_at(chars, a + 1)
        }
    } else if n >= 2 && is_drive_letter_char(chars[0]) && chars[1] == ':' {
        2
    } else {
        0
    }
}

/// `Path::new(s).components()` on the platform at hand: on Windows, `\`
/// separates too, and a path may begin with a prefix.
pub fn native_path(s: &str, windows: bool) -> (p: FsPath)
    ensures
        p@ == parse_native(s@, windows),
{
    if !windows {
        return parse_path(s);
    }
    let chars = chars_of(s);
    let n = chars.len();
    let k = windows_prefix_length(&chars);
    let mut parts: Vec<PathPart> = Vec::new();
    if k > 0 {
        let mut prefix: Vec<char> = Vec::new();
        let mut i: usize = 0;
        while i < k
            invariant
                i <= k <= chars@.len(),
                prefix@ == chars@.take(i as int),
            decreases k - i,
        {
            prefix.push(chars[i]);
            i = i + 1;
            assert(prefix@ =~= chars@.take(i as int));
        }
        parts.push(PathPart::Prefix(string_of(prefix.as_slice())));
    }
    if k < n && is_separator_char(chars[k], true) {
        parts.push(PathPart::Root);
    } else if k == 0 && n > 0 && chars[0] == '.' && (n == 1 || is_separator_char(chars[1], true)) {
        parts.push(PathPart::Current);
    }
    proof {
        assert(parts@.map_values(|p: PathPart| p@) =~= windows_lead(s@));
    }
    append_pieces(&chars, k, true, &mut parts);
    FsPath { parts }
}

} // verus!

verus! {

/// The directory name under which profiles are stored.
pub const APPLICATION_NAME: &'static str = "codex-profile-switcher";

/// The reason given for a `..` that climbs above the root.
pub const ESCAPES_ROOT: &'static str = "path escapes the filesystem root";

/// The reason given for a storage root that is not absolute.
pub const ROOT_NOT_ABSOLUTE: &'static str = "storage root must be absolute";

/// The context of a failure to read the current directory.
pub const CURRENT_DIR_CONTEXT: &'static str = "could not resolve the current directory";

proof fn lemma_normalize_none_extends(p: Seq<PartView>, i: int)
    requires
        0 <= i <= p.len(),
        normalize(p.take(i)) is None,
    ensures
        normalize(p) is None,
    decreases p.len() - i,
{
    if i < p.len() {
        assert(p.take(i + 1).drop_last() =~= p.take(i));
        lemma_normalize_none_extends(p, i + 1);
    } else {
        assert(p.take(i) =~= p);
    }
}

/// The outcome of `normalize_absolute` on a path.
pub open spec fn normalized_absolute(p: Seq<PartView>) -> core::result::Result<Seq<PartView>, Seq<char>> {
    match normalize(p) {
        None => Err(ESCAPES_ROOT@),
        Some(n) => if is_absolute(n) {
            Ok(n)
        } else {
            Err(ROOT_NOT_ABSOLUTE@)
        },
    }
}

/// Normalizes a path lexically and insists that the result is absolute.
pub fn normalize_absolute(path: &FsPath) -> (r: Result<FsPath>)
    ensures
        match normalized_absolute(path@) {
            Ok(n) => r matches Ok(q) && q@ == n,
            Err(reason) => r matches Err(e) && is_unsafe_profile(e, path@, reason),
        },
{
    let mut acc: Vec<PathPart> = Vec::new();
    let mut i: usize = 0;
    proof {
        assert(path@.take(0) =~= Seq::<PartView>::empty());
    }
    while i < path.parts.len()
        invariant
            i <= path.parts@.len(),
            normalize(path@.take(i as int)) == Some(acc@.map_values(|p: PathPart| p@)),
        decreases path.parts@.len() - i,
    {
        let ghost before = acc@.map_values(|p: PathPart| p@);
        proof {
            assert(path@.take(i + 1).drop_last() =~= path@.take(i as int));
            assert(path@.take(i + 1).last() == path@[i as int]);
        }
        match &path.parts[i] {
            PathPart::Prefix(t) => {
                acc = Vec::new();
                acc.push(PathPart::Prefix(t.clone()));
                assert(acc@.map_values(|p: PathPart| p@) =~= seq![path@[i as int]]);
            },
            PathPart::Root => {
                if acc.len() == 1 && acc[0].is_prefix() {
                    acc.push(PathPart::Root);
                    assert(acc@.map_values(|p: PathPart| p@) =~= before.push(PartView::Root));
                } else {
                    acc = Vec::new();
                    acc.push(PathPart::Root);
                    assert(acc@.map_values(|p: PathPart| p@) =~= seq![PartView::Root]);
                }
            },
            PathPart::Current => {},
            PathPart::Parent => {
                let n = acc.len();
                if n > 0 && acc[n - 1].is_normal() {
                    acc.pop();
                    assert(acc@.map_values(|p: PathPart| p@) =~= before.drop_last());
                } else {
                    proof {
                        lemma_normalize_none_extends(path@, i + 1);
                    }
                    return Err(
                        AppError::UnsafeProfile { path: path.copy(), reason: ESCAPES_ROOT.to_owned() },
                    );
                }
            },
            PathPart::Normal(name) => {
                acc.push(PathPart::Normal(name.clone()));
                assert(acc@.map_values(|p: PathPart| p@) =~= before.push(path@[i as int]));
            },
        }
        i = i + 1;
    }
    proof {
        assert(path@.take(path@.len() as int) =~= path@);
    }
    let normalized = FsPath { parts: acc };
    if !normalized.is_absolute() {
        return Err(
            AppError::UnsafeProfile { path: path.copy(), reason: ROOT_NOT_ABSOLUTE.to_owned() },
        );
    }
    Ok(normalized)
}

/// A path made absolute against the current directory.
pub open spec fn absolute_against(path: Seq<PartView>, current_dir: Seq<PartView>) -> Seq<PartView> {
    join(current_dir, path)
}

/// Makes `path` absolute against the current directory, then normalizes it.
/// The current directory is consulted only for a relative `path`.
pub fn make_absolute(path: FsPath, current_dir: core::result::Result<FsPath, std::io::Error>) -> (r:
    Result<FsPath>)
    ensures
        !is_absolute(path@) && current_dir is Err ==> (r matches Err(e) && is_io_error(
            e,
            CURRENT_DIR_CONTEXT@,
        )),
        is_absolute(path@) || current_dir is Ok ==> {
            let whole = absolute_against(
                path@,
                match current_dir {
                    Ok(c) => c@,
                    Err(_) => Seq::empty(),
                },
            );
            match normalized_absolute(whole) {
                Ok(n) => r matches Ok(q) && q@ == n,
                Err(reason) => r matches Err(e) && is_unsafe_profile(e, whole, reason),
            }
        },
{
    if path.is_absolute() {
        return normalize_absolute(&path);
    }
    match current_dir {
        Err(error) => Err(AppError::io(CURRENT_DIR_CONTEXT.to_owned(), error)),
        Ok(cwd) => {
            let absolute = cwd.join(&path);
            normalize_absolute(&absolute)
        },
    }
}

/// What the process environment says about where state belongs.
pub struct Environment {
    /// The current directory, or the error that reading it gave.
    pub current_dir: core::result::Result<FsPath, std::io::Error>,
    /// `XDG_STATE_HOME`, when set.
    pub state_home: Option<FsPath>,
    /// Whether this is macOS, where state belongs under
    /// `~/Library/Application Support`.
    pub macos: bool,
    /// `HOME`, when set.
    pub home: Option<FsPath>,
    /// Whether this is Windows, where state belongs under `LOCALAPPDATA`.
    pub windows: bool,
    /// `LOCALAPPDATA`, when set.
    pub local_app_data: Option<FsPath>,
}

/// The default storage root on Windows: under `LOCALAPPDATA`; `None` when it
/// is not set.
pub open spec fn windows_root_of(local_app_data: Option<Seq<PartView>>) -> Option<Seq<PartView>> {
    match local_app_data {
        Some(l) => Some(l + seq![name_part(APPLICATION_NAME), name_part("profiles")]),
        None => None,
    }
}

/// The default profile storage root on Windows.
pub fn windows_root(local_app_data: &Option<FsPath>) -> (r: Result<FsPath>)
    ensures
        match windows_root_of(opt_view(*local_app_data)) {
            Some(root) => r matches Ok(q) && q@ == root,
            None => r matches Err(AppError::LocalAppDataUnavailable),
        },
{
    match local_app_data {
        Some(l) => {
            let mut root = l.copy();
            root.push(PathPart::Normal(APPLICATION_NAME.to_owned()));
            root.push(PathPart::Normal("profiles".to_owned()));
            assert(root@ =~= l@ + seq![name_part(APPLICATION_NAME), name_part("profiles")]);
            Ok(root)
        },
        None => Err(AppError::LocalAppDataUnavailable),
    }
}

pub open spec fn name_part(s: &str) -> PartView {
    PartView::Normal(s@)
}

/// `HOME` when it is set and not empty.
pub open spec fn home_of(home: Option<Seq<PartView>>) -> Option<Seq<PartView>> {
    match home {
        Some(h) => if h.len() > 0 {
            Some(h)
        } else {
            None
        },
        None => None,
    }
}

/// The default storage root: on macOS under
/// `~/Library/Application Support`; elsewhere under `XDG_STATE_HOME` when that
/// is an absolute path, else under `~/.local/state`; `None` without a home
/// directory where one is needed.
pub open spec fn default_root_of(
    state_home: Option<Seq<PartView>>,
    home: Option<Seq<PartView>>,
    macos: bool,
) -> Option<Seq<PartView>> {
    if macos {
        match home_of(home) {
            Some(h) => Some(
                h + seq![
                    name_part("Library"),
                    name_part("Application Support"),
                    name_part(APPLICATION_NAME),
                    name_part("profiles"),
                ],
            ),
            None => None,
        }
    } else {
        match state_home {
            Some(s) if is_absolute(s) => Some(
                s + seq![name_part(APPLICATION_NAME), name_part("profiles")],
            ),
            _ => match home_of(home) {
                Some(h) => Some(
                    h + seq![
                        name_part(".local"),
                        name_part("state"),
                        name_part(APPLICATION_NAME),
                        name_part("profiles"),
                    ],
                ),
                None => None,
            },
        }
    }
}

pub open spec fn opt_view(p: Option<FsPath>) -> Option<Seq<PartView>> {
    match p {
        Some(q) => Some(q@),
        None => None,
    }
}

/// The user's home directory: `HOME` when set and not empty.
pub fn home_directory(home: &Option<FsPath>) -> (r: Result<FsPath>)
    ensures
        match home_of(opt_view(*home)) {
            Some(h) => r matches Ok(q) && q@ == h,
            None => r matches Err(AppError::HomeDirectoryUnavailable),
        },
{
    match home {
        Some(h) => {
            if h.len() > 0 {
                Ok(h.copy())
            } else {
                Err(AppError::HomeDirectoryUnavailable)
            }
        },
        None => Err(AppError::HomeDirectoryUnavailable),
    }
}

/// The default profile storage root.
pub fn default_root(state_home: &Option<FsPath>, home: &Option<FsPath>, macos: bool) -> (r: Result<
    FsPath,
>)
    ensures
        match default_root_of(opt_view(*state_home), opt_view(*home), macos) {
            Some(root) => r matches Ok(q) && q@ == root,
            None => r matches Err(AppError::HomeDirectoryUnavailable),
        },
{
    if macos {
        let mut root = home_directory(home)?;
        let ghost h = root@;
        root.push(PathPart::Normal("Library".to_owned()));
        root.push(PathPart::Normal("Application Support".to_owned()));
        root.push(PathPart::Normal(APPLICATION_NAME.to_owned()));
        root.push(PathPart::Normal("profiles".to_owned()));
        assert(root@ =~= h + seq![
            name_part("Library"),
            name_part("Application Support"),
            name_part(APPLICATION_NAME),
            name_part("profiles"),
        ]);
        return Ok(root);
    }
    if let Some(state) = state_home {
        if state.is_absolute() {
            let mut root = state.copy();
            root.push(PathPart::Normal(APPLICATION_NAME.to_owned()));
            root.push(PathPart::Normal("profiles".to_owned()));
            assert(root@ =~= state@ + seq![name_part(APPLICATION_NAME), name_part("profiles")]);
            return Ok(root);
        }
    }
    let mut root = home_directory(home)?;
    let ghost h = root@;
    root.push(PathPart::Normal(".local".to_owned()));
    root.push(PathPart::Normal("state".to_owned()));
    root.push(PathPart::Normal(APPLICATION_NAME.to_owned()));
    root.push(PathPart::Normal("profiles".to_owned()));
    assert(root@ =~= h + seq![
        name_part(".local"),
        name_part("state"),
        name_part(APPLICATION_NAME),
        name_part("profiles"),
    ]);
    Ok(root)
}

/// The place where profiles are stored.
#[derive(Debug)]
pub struct StatePaths {
    root: FsPath,
}

impl View for StatePaths {
    type V = Seq<PartView>;

    closed spec fn view(&self) -> Seq<PartView> {
        self.root@
    }
}

/// The storage root that `StatePaths::resolve` settles on: an override made
/// absolute and normalized, or else the default root.
pub open spec fn resolved_root(
    override_root: Option<Seq<PartView>>,
    current_dir: Option<Seq<PartView>>,
    state_home: Option<Seq<PartView>>,
    home: Option<Seq<PartView>>,
    macos: bool,
    windows: bool,
    local_app_data: Option<Seq<PartView>>,
) -> Option<Seq<PartView>> {
    match override_root {
        Some(p) => if is_absolute(p) || current_dir is Some {
            match normalized_absolute(
                absolute_against(
                    p,
                    match current_dir {
                        Some(c) => c,
                        None => Seq::empty(),
                    },
                ),
            ) {
                Ok(n) => Some(n),
                Err(_) => None,
            }
        } else {
            None
        },
        None => if windows {
            windows_root_of(local_app_data)
        } else {
            default_root_of(state_home, home, macos)
        },
    }
}

impl StatePaths {
    /// Settles the storage root: `override_root` made absolute and normalized
    /// when given, else the platform default.
    pub fn resolve(override_root: Option<FsPath>, env: Environment) -> (r: Result<StatePaths>)
        ensures
            ({
                let cwd = match env.current_dir {
                    Ok(c) => Some(c@),
                    Err(_) => None,
                };
                match resolved_root(
                    opt_view(override_root),
                    cwd,
                    opt_view(env.state_home),
                    opt_view(env.home),
                    env.macos,
                    env.windows,
                    opt_view(env.local_app_data),
                ) {
                    Some(root) => r matches Ok(paths) && paths@ == root,
                    None => r is Err,
                }
            }),
            override_root is None && !env.windows && default_root_of(
                opt_view(env.state_home),
                opt_view(env.home),
                env.macos,
            ) is None ==> r matches Err(AppError::HomeDirectoryUnavailable),
            override_root is None && env.windows && env.local_app_data is None ==> r matches Err(
                AppError::LocalAppDataUnavailable,
            ),
            override_root matches Some(p) ==> (!is_absolute(p@) && env.current_dir is Err ==> (
            r matches Err(e) && is_io_error(e, CURRENT_DIR_CONTEXT@))),
            override_root matches Some(p) ==> (is_absolute(p@) || env.current_dir is Ok ==> {
                let whole = absolute_against(
                    p@,
                    match env.current_dir {
                        Ok(c) => c@,
                        Err(_) => Seq::empty(),
                    },
                );
                normalized_absolute(whole) matches Err(reason) ==> (r matches Err(e)
                    && is_unsafe_profile(e, whole, reason))
            }),
    {
        match override_root {
            Some(path) => match make_absolute(path, env.current_dir) {
                Ok(root) => Ok(StatePaths { root }),
                Err(e) => Err(e),
            },
            None => {
                let found = if env.windows {
                    windows_root(&env.local_app_data)
                } else {
                    default_root(&env.state_home, &env.home, env.macos)
                };
                match found {
                    Ok(root) => Ok(StatePaths { root }),
                    Err(e) => Err(e),
                }
            },
        }
    }

    /// State paths for an already absolute root.
    pub fn from_absolute(root: FsPath) -> (r: StatePaths)
        requires
            is_absolute(root@),
        ensures
            r@ == root@,
    {
        StatePaths { root }
    }

    /// The storage root.
    pub fn root(&self) -> (r: &FsPath)
        ensures
            r@ == self@,
    {
        &self.root
    }

    /// The directory of the profile called `name`: the root joined with `name`.
    pub fn profile(&self, name: &str) -> (r: FsPath)
        ensures
            r@ == join(self@, parse(name@)),
    {
        self.root.join_str(name)
    }
}

/// The separator a path is written with: `\` after a Windows prefix, `/`
/// otherwise.
pub open spec fn separator_of(p: Seq<PartView>) -> char {
    if has_prefix(p) {
        '\\'
    } else {
        '/'
    }
}

/// `display_redacted`: the path with the home directory shown as `~`.
pub open spec fn redacted(path: Seq<PartView>, home: Option<Seq<PartView>>) -> Seq<char> {
    match home_of(home) {
        Some(h) => match strip_prefix(path, h) {
            Some(rest) => if rest.len() == 0 {
                seq!['~']
            } else {
                seq!['~', separator_of(h)] + joined(rest, separator_of(h))
            },
            None => render(path),
        },
        None => render(path),
    }
}

/// `Path::strip_prefix`.
pub fn strip_prefix_of(path: &FsPath, base: &FsPath) -> (r: Option<FsPath>)
    ensures
        match strip_prefix(path@, base@) {
            Some(rest) => r matches Some(q) && q@ == rest,
            None => r is None,
        },
{
    let n = base.parts.len();
    if n > path.parts.len() {
        return None;
    }
    let mut i: usize = 0;
    while i < n
        invariant
            i <= n,
            n == base@.len(),
            n <= path@.len(),
            forall|k: int| 0 <= k < i ==> path@[k] == base@[k],
        decreases n - i,
    {
        if !path.parts[i].same(&base.parts[i]) {
            assert(path@.take(n as int)[i as int] != base@[i as int]);
            return None;
        }
        i = i + 1;
    }
    assert(path@.take(n as int) =~= base@);
    let mut rest = FsPath::empty();
    let mut j: usize = n;
    while j < path.parts.len()
        invariant
            n <= j <= path@.len(),
            rest@ == path@.subrange(n as int, j as int),
        decreases path@.len() - j,
    {
        rest.push(path.parts[j].copy());
        j = j + 1;
        assert(rest@ =~= path@.subrange(n as int, j as int));
    }
    assert(path@.subrange(n as int, path@.len() as int) =~= path@.skip(n as int));
    Some(rest)
}

/// Shows `path` for messages, writing a leading home directory as `~`.
/// `home` is the value of `HOME`.
pub fn display_redacted(path: &FsPath, home: &Option<FsPath>) -> (s: String)
    ensures
        s@ == redacted(path@, opt_view(*home)),
{
    if let Some(h) = home {
        if h.len() > 0 {
            if let Some(rest) = strip_prefix_of(path, h) {
                if rest.len() == 0 {
                    let mut s = String::new();
                    push_char(&mut s, '~');
                    assert(s@ =~= seq!['~']);
                    return s;
                }
                let sep = if h.has_prefix() {
                    '\\'
                } else {
                    '/'
                };
                let mut s = String::new();
                push_char(&mut s, '~');
                push_char(&mut s, sep);
                push_joined(&mut s, &rest.parts, 0, sep);
                assert(rest@.skip(0) =~= rest@);
                assert(s@ =~= seq!['~', separator_of(h@)] + joined(rest@, separator_of(h@)));
                return s;
            }
        }
    }
    path.display()
}

} // verus!

verus! {

/// The shape normalization leaves: a prefix, if any, only first; a root, if
/// any, first or right after the prefix; names everywhere else.
pub open spec fn is_lexically_clean(p: Seq<PartView>) -> bool {
    forall|i: int|
        0 <= i < p.len() ==> ((#[trigger] p[i]) is Normal || (p[i] is Prefix && i == 0) || (p[i]
            is Root && (i == 0 || (i == 1 && p[0] is Prefix))))
}

proof fn lemma_normalize_clean(p: Seq<PartView>)
    requires
        normalize(p) is Some,
    ensures
        is_lexically_clean(normalize(p)->Some_0),
    decreases p.len(),
{
    if p.len() > 0 {
        lemma_normalize_clean(p.drop_last());
    }
}

proof fn lemma_normalize_fixes_clean(p: Seq<PartView>)
    requires
        is_lexically_clean(p),
    ensures
        normalize(p) == Some(p),
    decreases p.len(),
{
    if p.len() > 0 {
        let q = p.drop_last();
        assert(is_lexically_clean(q)) by {
            assert forall|i: int| 0 <= i < q.len() implies ((#[trigger] q[i]) is Normal || (q[i]
                is Prefix && i == 0) || (q[i] is Root && (i == 0 || (i == 1 && q[0] is Prefix)))) by {
                assert(q[i] == p[i]);
                assert(q[0] == p[0]);
            }
        }
        lemma_normalize_fixes_clean(q);
        let k = p.len() - 1;
        assert(p.last() == p[k]);
        if p.last() is Prefix {
            assert(p.len() == 1);
            assert(p =~= seq![p.last()]);
        } else if p.last() is Root {
            if p.len() == 1 {
                assert(p =~= seq![PartView::Root]);
            } else {
                assert(p.len() == 2 && p[0] is Prefix);
                assert(q =~= seq![p[0]]);
                assert(p =~= q.push(PartView::Root));
            }
        } else {
            assert(p =~= q.push(p.last()));
        }
    }
}

/// Normalization yields a root followed by names only, and normalizing its
/// result again gives the same path.
pub proof fn normalization_is_idempotent(p: Seq<PartView>)
    requires
        normalized_absolute(p) is Ok,
    ensures
        is_normalized(normalized_absolute(p)->Ok_0),
        normalized_absolute(normalized_absolute(p)->Ok_0) == normalized_absolute(p),
{
    let n = normalize(p)->Some_0;
    lemma_normalize_clean(p);
    lemma_normalize_fixes_clean(n);
    assert forall|i: int| anchor_len(n) <= i < n.len() implies (#[trigger] n[i]) is Normal by {
        assert(n[i] is Normal || (n[i] is Prefix && i == 0) || (n[i] is Root && (i == 0 || (i == 1
            && n[0] is Prefix))));
    }
}

/// A storage root given on the command line resolves, when it resolves at
/// all, to an absolute path of plain names, with no `.` or `..` left.
pub proof fn resolved_override_is_normalized(
    override_root: Seq<PartView>,
    current_dir: Option<Seq<PartView>>,
    state_home: Option<Seq<PartView>>,
    home: Option<Seq<PartView>>,
    macos: bool,
    windows: bool,
    local_app_data: Option<Seq<PartView>>,
)
    requires
        resolved_root(
            Some(override_root),
            current_dir,
            state_home,
            home,
            macos,
            windows,
            local_app_data,
        ) is Some,
    ensures
        is_normalized(
            resolved_root(
                Some(override_root),
                current_dir,
                state_home,
                home,
                macos,
                windows,
                local_app_data,
            )->Some_0,
        ),
{
    let whole = absolute_against(
        override_root,
        match current_dir {
            Some(c) => c,
            None => Seq::empty(),
        },
    );
    normalization_is_idempotent(whole);
}

/// Shown against its own home directory, the home directory is `~`.
pub proof fn home_is_shown_as_tilde(home: Seq<PartView>)
    requires
        home.len() > 0,
    ensures
        redacted(home, Some(home)) == seq!['~'],
{
    assert(home.take(home.len() as int) =~= home);
    assert(home.skip(home.len() as int) =~= Seq::<PartView>::empty());
}

/// The storage root that `StatePaths::resolve` settles on is absolute: an
/// override always is once resolved, and the platform default is whenever
/// the directory it is built under (`LOCALAPPDATA` on Windows, `HOME` where
/// the default needs it) is absolute.
pub proof fn resolved_root_is_absolute(
    override_root: Option<Seq<PartView>>,
    current_dir: Option<Seq<PartView>>,
    state_home: Option<Seq<PartView>>,
    home: Option<Seq<PartView>>,
    macos: bool,
    windows: bool,
    local_app_data: Option<Seq<PartView>>,
)
    requires
        resolved_root(override_root, current_dir, state_home, home, macos, windows, local_app_data)
            is Some,
        override_root is None && windows ==> (local_app_data matches Some(l) ==> is_absolute(l)),
        override_root is None && !windows ==> (home_of(home) matches Some(h) ==> is_absolute(h)),
    ensures
        is_absolute(
            resolved_root(
                override_root,
                current_dir,
                state_home,
                home,
                macos,
                windows,
                local_app_data,
            )->Some_0,
        ),
{
    let r = resolved_root(override_root, current_dir, state_home, home, macos, windows, local_app_data)->Some_0;
    match override_root {
        Some(_) => {},
        None => {
            let base = if windows {
                local_app_data->Some_0
            } else if !macos && (state_home matches Some(s) && is_absolute(s)) {
                state_home->Some_0
            } else {
                home_of(home)->Some_0
            };
            assert(is_absolute(base));
            assert(r.take(base.len() as int) =~= base);
            assert(r[0] == base[0]);
            assert(base.len() > 1 ==> r[1] == base[1]);
        },
    }
}


/// Each `..` removes the name just before it: normalizing a path followed by
/// `..` gives the normalized path without its last component when that is a
/// name, and nothing (the path escapes its root) otherwise.
pub proof fn parent_removes_the_preceding_name(p: Seq<PartView>)
    ensures
        normalize(p.push(PartView::Parent)) == match normalize(p) {
            Some(a) => if a.len() > 0 && a.last() is Normal {
                Some(a.drop_last())
            } else {
                None
            },
            None => None,
        },
{
    assert(p.push(PartView::Parent).drop_last() =~= p);
}

/// Each name is kept: normalizing a path followed by a name gives the
/// normalized path followed by that name.
pub proof fn name_extends_the_normalized_path(p: Seq<PartView>, name: Seq<char>)
    ensures
        normalize(p.push(PartView::Normal(name))) == match normalize(p) {
            Some(a) => Some(a.push(PartView::Normal(name))),
            None => None,
        },
{
    assert(p.push(PartView::Normal(name)).drop_last() =~= p);
}

/// A `.` changes nothing: normalizing a path followed by `.` gives the same
/// as normalizing the path.
pub proof fn current_dir_changes_nothing(p: Seq<PartView>)
    ensures
        normalize(p.push(PartView::Current)) == normalize(p),
{
    assert(p.push(PartView::Current).drop_last() =~= p);
}

} // verus!
