//! Profile names, profiles and the store that holds them.

use vstd::prelude::*;
use vstd::string::StringSliceAdditionalSpecFns;

use crate::error::{AppError, Result};
use crate::paths::{is_absolute, join, parse, pieces_parts, split_slash, FsPath, PartView, StatePaths};
use crate::text::{text_le, text_le_exec, text_le_total, text_le_transitive, ascii_alphanumeric, ascii_upper, chars_of, is_ascii_alphanumeric, to_ascii_upper};

verus! {

broadcast use vstd::string::group_string_axioms;

/// The reason given for a name that is empty or longer than 64 bytes.
pub const NAME_LENGTH_REASON: &'static str = "use between 1 and 64 ASCII characters";

/// The reason given for a name that does not start with a letter or digit.
pub const NAME_START_REASON: &'static str = "the first character must be a letter or digit";

/// The reason given for a name with a character outside the portable set.
pub const NAME_CHARSET_REASON: &'static str =
    "use only ASCII letters, digits, underscores, and hyphens";

/// The reason given for a name that Windows reserves for devices.
pub const NAME_RESERVED_REASON: &'static str = "the name is reserved by Windows";

/// The longest name, in bytes.
pub const MAX_NAME_BYTES: usize = 64;

/// A character allowed in a profile name.
pub open spec fn is_name_char(c: char) -> bool {
    is_ascii_alphanumeric(c) || c == '_' || c == '-'
}

pub open spec fn all_name_chars(s: Seq<char>) -> bool {
    forall|i: int| 0 <= i < s.len() ==> is_name_char(#[trigger] s[i])
}

/// The name with `a`..=`z` written in upper case.
pub open spec fn upper(s: Seq<char>) -> Seq<char> {
    s.map_values(|c: char| ascii_upper(c))
}

/// A device name that Windows reserves, in any letter case: `CON`, `PRN`,
/// `AUX`, `NUL`, or `COM` or `LPT` followed by one digit from 1 to 9.
pub open spec fn is_windows_reserved(s: Seq<char>) -> bool {
    let u = upper(s);
    ||| u == seq!['C', 'O', 'N']
    ||| u == seq!['P', 'R', 'N']
    ||| u == seq!['A', 'U', 'X']
    ||| u == seq!['N', 'U', 'L']
    ||| (u.len() == 4 && (u.take(3) == seq!['C', 'O', 'M'] || u.take(3) == seq!['L', 'P', 'T'])
        && 49 <= (u[3] as u32) <= 57)
}

/// Why a name written with the characters `s` and `byte_len` UTF-8 bytes is
/// refused, checked in this order; `None` for a valid name.
pub open spec fn name_rejection(s: Seq<char>, byte_len: nat) -> Option<Seq<char>> {
    if s.len() == 0 || byte_len > 64 {
        Some(NAME_LENGTH_REASON@)
    } else if !is_ascii_alphanumeric(s[0]) {
        Some(NAME_START_REASON@)
    } else if !all_name_chars(s) {
        Some(NAME_CHARSET_REASON@)
    } else if is_windows_reserved(s) {
        Some(NAME_RESERVED_REASON@)
    } else {
        None
    }
}

/// A portable profile name, given by its characters.
pub open spec fn is_valid_name_text(s: Seq<char>) -> bool {
    name_rejection(s, vstd::utf8::encode_utf8(s).len()) is None
}

/// A portable profile name.
pub open spec fn is_valid_name(name: &str) -> bool {
    is_valid_name_text(name@)
}

/// `e` is the refusal of `name` for the reason `reason`.
pub open spec fn is_name_refusal(e: AppError, name: Seq<char>, reason: Seq<char>) -> bool {
    e matches AppError::InvalidProfileName { name: n, reason: r } && n@ == name && r@ == reason
}

fn invalid_name(name: &str, reason: &'static str) -> (e: AppError)
    ensures
        is_name_refusal(e, name@, reason@),
{
    AppError::InvalidProfileName { name: name.to_owned(), reason }
}

fn is_windows_reserved_name(name: &str) -> (b: bool)
    requires
        all_name_chars(name@),
    ensures
        b == is_windows_reserved(name@),
{
    let chars = chars_of(name);
    let mut u: Vec<char> = Vec::new();
    let mut i: usize = 0;
    while i < chars.len()
        invariant
            i <= chars@.len(),
            chars@ == name@,
            u@ == upper(name@).take(i as int),
        decreases chars@.len() - i,
    {
        u.push(to_ascii_upper(chars[i]));
        i = i + 1;
        assert(u@ =~= upper(name@).take(i as int));
    }
    assert(u@ =~= upper(name@));
    let n = u.len();
    let three = n == 3;
    let word = three && ((u[0] == 'C' && u[1] == 'O' && u[2] == 'N') || (u[0] == 'P' && u[1] == 'R'
        && u[2] == 'N') || (u[0] == 'A' && u[1] == 'U' && u[2] == 'X') || (u[0] == 'N' && u[1]
        == 'U' && u[2] == 'L'));
    let numbered = n == 4 && ((u[0] == 'C' && u[1] == 'O' && u[2] == 'M') || (u[0] == 'L' && u[1]
        == 'P' && u[2] == 'T')) && 49 <= (u[3] as u32) && (u[3] as u32) <= 57;
    proof {
        let v = upper(name@);
        if n == 3 {
            if v[0] == 'C' && v[1] == 'O' && v[2] == 'N' { assert(v =~= seq!['C', 'O', 'N']); }
            if v[0] == 'P' && v[1] == 'R' && v[2] == 'N' { assert(v =~= seq!['P', 'R', 'N']); }
            if v[0] == 'A' && v[1] == 'U' && v[2] == 'X' { assert(v =~= seq!['A', 'U', 'X']); }
            if v[0] == 'N' && v[1] == 'U' && v[2] == 'L' { assert(v =~= seq!['N', 'U', 'L']); }
        }
        if n == 4 {
            if v[0] == 'C' && v[1] == 'O' && v[2] == 'M' { assert(v.take(3) =~= seq!['C', 'O', 'M']); }
            if v[0] == 'L' && v[1] == 'P' && v[2] == 'T' { assert(v.take(3) =~= seq!['L', 'P', 'T']); }
            if v.take(3) == seq!['C', 'O', 'M'] { assert(v.take(3)[0] == 'C' && v.take(3)[1] == 'O' && v.take(3)[2] == 'M'); }
            if v.take(3) == seq!['L', 'P', 'T'] { assert(v.take(3)[0] == 'L' && v.take(3)[1] == 'P' && v.take(3)[2] == 'T'); }
        }
        if n != 3 {
            assert(v.len() != seq!['C', 'O', 'N'].len());
        }
    }
    word || numbered
}

/// Accepts portable profile names: 1 to 64 bytes of ASCII letters, digits,
/// `_` and `-`, starting with a letter or digit, and no Windows device name.
pub fn validate_profile_name(name: &str) -> (r: Result<()>)
    ensures
        match name_rejection(name@, name.spec_bytes().len()) {
            None => r is Ok,
            Some(reason) => r matches Err(e) && is_name_refusal(e, name@, reason),
        },
{
    let bytes = name.as_bytes();
    if name.is_empty() || bytes.len() > MAX_NAME_BYTES {
        return Err(invalid_name(name, NAME_LENGTH_REASON));
    }
    let chars = chars_of(name);
    if !ascii_alphanumeric(chars[0]) {
        return Err(invalid_name(name, NAME_START_REASON));
    }
    let mut i: usize = 0;
    while i < chars.len()
        invariant
            i <= chars@.len(),
            chars@ == name@,
            name@.len() > 0,
            name.spec_bytes().len() <= 64,
            is_ascii_alphanumeric(name@[0]),
            forall|k: int| 0 <= k < i ==> is_name_char(#[trigger] name@[k]),
        decreases chars@.len() - i,
    {
        let c = chars[i];
        if !(ascii_alphanumeric(c) || c == '_' || c == '-') {
            assert(!is_name_char(name@[i as int]));
            assert(!all_name_chars(name@));
            assert(is_ascii_alphanumeric(name@[0]));
            return Err(invalid_name(name, NAME_CHARSET_REASON));
        }
        i = i + 1;
    }
    if is_windows_reserved_name(name) {
        return Err(invalid_name(name, NAME_RESERVED_REASON));
    }
    Ok(())
}

} // verus!

verus! {

proof fn lemma_split_without_separator(s: Seq<char>)
    requires
        forall|i: int| 0 <= i < s.len() ==> s[i] != '/',
    ensures
        split_slash(s) == seq![s],
    decreases s.len(),
{
    if s.len() > 0 {
        lemma_split_without_separator(s.drop_last());
        assert(s.drop_last().push(s.last()) =~= s);
        assert(split_slash(s) =~= seq![s]);
    } else {
        assert(s =~= Seq::<char>::empty());
    }
}

/// A valid profile name is a single ordinary path component: it has no
/// separator, and it is neither `.` nor `..`.
pub proof fn valid_name_is_one_component(s: Seq<char>)
    requires
        is_valid_name_text(s),
    ensures
        parse(s) == seq![PartView::Normal(s)],
{
    assert forall|i: int| 0 <= i < s.len() implies s[i] != '/' by {
        assert(is_name_char(s[i]));
    }
    lemma_split_without_separator(s);
    assert(!is_name_char('.'));
    assert(s != seq!['.']) by {
        if s == seq!['.'] {
            assert(s[0] == '.');
        }
    }
    assert(s != seq!['.', '.']) by {
        if s == seq!['.', '.'] {
            assert(s[0] == '.');
        }
    }
    assert(pieces_parts(seq![s]) =~= seq![PartView::Normal(s)]) by {
        assert(seq![s].drop_last() =~= Seq::<Seq<char>>::empty());
        assert(pieces_parts(Seq::<Seq<char>>::empty()) == Seq::<PartView>::empty());
        assert(s.len() > 0);
        assert(crate::paths::piece_parts(s) == seq![PartView::Normal(s)]);
    }
    assert(parse(s) =~= seq![PartView::Normal(s)]);
}

/// Joining a directory with a valid name adds exactly that one name.
pub proof fn join_valid_name(dir: Seq<PartView>, name: Seq<char>)
    requires
        is_valid_name_text(name),
    ensures
        join(dir, parse(name)) == dir.push(PartView::Normal(name)),
{
    valid_name_is_one_component(name);
    assert(!is_absolute(seq![PartView::Normal(name)]));
    assert(dir + seq![PartView::Normal(name)] =~= dir.push(PartView::Normal(name)));
}

/// A profile with a valid name lives directly inside the storage root: its
/// directory is the root followed by exactly one component, the name itself.
pub proof fn profile_dir_is_direct_child(paths: StatePaths, name: &str)
    requires
        is_valid_name(name),
    ensures
        join(paths@, parse(name@)) == paths@.push(PartView::Normal(name@)),
{
    join_valid_name(paths@, name@);
}

/// Valid names are between 1 and 64 ASCII characters long.
pub proof fn valid_name_is_short_ascii(name: &str)
    requires
        is_valid_name(name),
    ensures
        1 <= name@.len() <= 64,
        vstd::utf8::is_ascii_chars(name@),
{
    let s = name@;
    assert forall|i: int| 0 <= i < s.len() implies '\0' <= #[trigger] s[i] <= '\u{7f}' by {
        assert(is_name_char(s[i]));
        let c = s[i];
        assert((c as u32) <= 127) by {
            if c == '_' { assert(c as u32 == 95); }
            if c == '-' { assert(c as u32 == 45); }
        }
        crate::text::lemma_ascii_code(c);
    }
    vstd::utf8::is_ascii_chars_encode_utf8(s);
}

} // verus!

verus! {

/// A profile directory that this tool created and still recognises.
#[derive(Debug)]
pub struct Profile {
    pub name: String,
    pub path: FsPath,
    pub marker: crate::config::ProfileMarker,
}

/// The entries of the storage root: the profiles, and the names of entries
/// that are not profiles of this tool together with the reason.
#[derive(Debug)]
pub struct ProfileListing {
    pub profiles: Vec<Profile>,
    pub ignored: Vec<(String, String)>,
}

impl Default for ProfileListing {
    fn default() -> (l: ProfileListing)
        ensures
            l.profiles@.len() == 0,
            l.ignored@.len() == 0,
    {
        ProfileListing { profiles: Vec::new(), ignored: Vec::new() }
    }
}

/// The collection of profiles under one storage root, on Unix or on a
/// platform without Unix permission bits.
#[derive(Debug)]
pub struct ProfileStore {
    paths: StatePaths,
    unix: bool,
}

impl View for ProfileStore {
    type V = Seq<PartView>;

    closed spec fn view(&self) -> Seq<PartView> {
        self.paths@
    }
}

impl ProfileStore {
    /// The store under `paths`; `unix` tells whether permission bits are
    /// checked.
    pub fn new(paths: StatePaths, unix: bool) -> (s: ProfileStore)
        ensures
            s@ == paths@,
            s.unix() == unix,
    {
        ProfileStore { paths, unix }
    }

    /// Whether permission bits are checked.
    pub closed spec fn unix(&self) -> bool {
        self.unix
    }

    /// Whether permission bits are checked.
    pub fn checks_permissions(&self) -> (b: bool)
        ensures
            b == self.unix(),
    {
        self.unix
    }

    /// The storage root.
    pub fn root(&self) -> (r: &FsPath)
        ensures
            r@ == self@,
    {
        self.paths.root()
    }

    /// The directory of the profile called `name`.
    pub fn profile_path(&self, name: &str) -> (r: FsPath)
        ensures
            r@ == join(self@, parse(name@)),
    {
        self.paths.profile(name)
    }
}

} // verus!

verus! {

/// Something listed under a name.
pub trait Named {
    spec fn name_view(&self) -> Seq<char>;

    fn name_text(&self) -> (n: &str)
        ensures
            n@ == self.name_view(),
    ;
}

impl Named for Profile {
    open spec fn name_view(&self) -> Seq<char> {
        self.name@
    }

    fn name_text(&self) -> (n: &str) {
        self.name.as_str()
    }
}

impl Named for (String, String) {
    open spec fn name_view(&self) -> Seq<char> {
        self.0@
    }

    fn name_text(&self) -> (n: &str) {
        self.0.as_str()
    }
}

/// The names of a list's items, in order.
pub open spec fn names<T: Named>(s: Seq<T>) -> Seq<Seq<char>> {
    s.map_values(|x: T| x.name_view())
}

/// Ordered by name, as `sort_by` on the names leaves a list.
pub open spec fn sorted_by_name<T: Named>(s: Seq<T>) -> bool {
    forall|i: int, j: int|
        0 <= i < j < s.len() ==> text_le(#[trigger] s[i].name_view(), #[trigger] s[j].name_view())
}

proof fn lemma_insert_multiset<T>(s: Seq<T>, j: int, x: T)
    requires
        0 <= j <= s.len(),
    ensures
        s.insert(j, x).to_multiset() =~= s.to_multiset().insert(x),
{
    broadcast use vstd::seq_lib::group_to_multiset_ensures;

    let t = s.insert(j, x);
    assert(t.remove(j) =~= s);
    assert(t[j] == x);
    assert(t.contains(x));
    assert(t.to_multiset().count(x) > 0);
    assert(t.to_multiset() =~= t.to_multiset().remove(x).insert(x));
}

/// The items in name order: a reordering of `items` that is sorted by name.
pub fn sort_by_name<T: Named>(items: Vec<T>) -> (r: Vec<T>)
    ensures
        sorted_by_name(r@),
        r@.to_multiset() == items@.to_multiset(),
        names(r@).to_multiset() == names(items@).to_multiset(),
{
    broadcast use vstd::seq_lib::group_to_multiset_ensures;

    let mut input = items;
    let mut out: Vec<T> = Vec::new();
    while input.len() > 0
        invariant
            sorted_by_name(out@),
            out@.to_multiset().add(input@.to_multiset()) == items@.to_multiset(),
            names(out@).to_multiset().add(names(input@).to_multiset()) == names(
                items@,
            ).to_multiset(),
        decreases input@.len(),
    {
        let ghost before = input@;
        let x = input.pop().unwrap();
        proof {
            assert(before =~= input@.push(x));
            assert(out@.to_multiset().add(before.to_multiset()) == items@.to_multiset());
            assert(names(out@).to_multiset().add(names(before).to_multiset()) == names(
                items@,
            ).to_multiset());
        }
        let mut j: usize = 0;
        while j < out.len() && text_le_exec(out[j].name_text(), x.name_text())
            invariant
                j <= out@.len(),
                sorted_by_name(out@),
                before == input@.push(x),
                out@.to_multiset().add(before.to_multiset()) == items@.to_multiset(),
                names(out@).to_multiset().add(names(before).to_multiset()) == names(
                    items@,
                ).to_multiset(),
                forall|k: int| 0 <= k < j ==> text_le(#[trigger] out@[k].name_view(), x.name_view()),
            decreases out@.len() - j,
        {
            j = j + 1;
        }
        proof {
            if j < out@.len() {
                text_le_total(out@[j as int].name_view(), x.name_view());
                assert forall|k: int| j <= k < out@.len() implies text_le(
                    x.name_view(),
                    #[trigger] out@[k].name_view(),
                ) by {
                    if k > j {
                        text_le_transitive(x.name_view(), out@[j as int].name_view(), out@[k].name_view());
                    }
                }
            }
            lemma_insert_multiset(out@, j as int, x);
            lemma_insert_multiset(names(out@), j as int, x.name_view());
            assert(names(out@.insert(j as int, x)) =~= names(out@).insert(j as int, x.name_view()));
        }
        let ghost old_out = out@;
        out.insert(j, x);
        proof {
            assert(out@ =~= old_out.insert(j as int, x));
            assert forall|a: int, b: int| 0 <= a < b < out@.len() implies text_le(
                #[trigger] out@[a].name_view(),
                #[trigger] out@[b].name_view(),
            ) by {
                if a < j && b == j {
                } else if a == j {
                    assert(out@[b] == old_out[b - 1]);
                } else if a < j && b > j {
                    assert(out@[b] == old_out[b - 1]);
                    assert(old_out[a] == out@[a]);
                    text_le_transitive(out@[a].name_view(), x.name_view(), out@[b].name_view());
                } else if b < j {
                    assert(old_out[a] == out@[a] && old_out[b] == out@[b]);
                } else {
                    assert(out@[a] == old_out[a - 1] && out@[b] == old_out[b - 1]);
                }
            }
            input@.to_multiset_ensures();
            assert(before.to_multiset() == input@.push(x).to_multiset());
            assert(before.to_multiset() =~= input@.to_multiset().insert(x));
            assert(out@.to_multiset() =~= old_out.to_multiset().insert(x));
            assert(out@.to_multiset().add(input@.to_multiset()) =~= old_out.to_multiset().add(
                before.to_multiset(),
            ));
            names(input@).to_multiset_ensures();
            assert(names(before) =~= names(input@).push(x.name_view()));
            assert(names(before).to_multiset() =~= names(input@).to_multiset().insert(x.name_view()));
            assert(names(out@).to_multiset() =~= names(old_out).to_multiset().insert(x.name_view()));
            assert(names(out@).to_multiset().add(names(input@).to_multiset()) =~= names(
                old_out,
            ).to_multiset().add(names(before).to_multiset()));
        }
    }
    proof {
        assert(input@.to_multiset() =~= vstd::multiset::Multiset::empty());
        assert(out@.to_multiset() =~= out@.to_multiset().add(input@.to_multiset()));
        assert(names(input@).to_multiset() =~= vstd::multiset::Multiset::empty());
        assert(names(out@).to_multiset() =~= names(out@).to_multiset().add(
            names(input@).to_multiset(),
        ));
    }
    out
}


/// Profile names: a name is accepted exactly when it has 1 to 64 characters
/// and at most 64 bytes, begins with an ASCII letter or digit, holds nothing
/// but ASCII letters, digits, `_` and `-`, and is no Windows device name.
pub proof fn name_acceptance(s: Seq<char>, byte_len: nat)
    ensures
        name_rejection(s, byte_len) is None <==> {
            &&& 1 <= s.len()
            &&& byte_len <= 64
            &&& (48 <= s[0] as u32 <= 57 || 65 <= s[0] as u32 <= 90 || 97 <= s[0] as u32 <= 122)
            &&& forall|i: int|
                0 <= i < s.len() ==> (48 <= (#[trigger] s[i]) as u32 <= 57 || 65 <= s[i] as u32 <= 90
                    || 97 <= s[i] as u32 <= 122 || s[i] == '_' || s[i] == '-')
            &&& !is_windows_reserved(s)
        },
{
}

} // verus!
