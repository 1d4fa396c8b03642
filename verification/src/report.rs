//! What the commands say: confirmation of a removal, the lines of a listing,
//! and the findings of the health check.

use vstd::prelude::*;

use crate::codex::Codex;
use crate::config::{CODEX_CONFIG_FILE, MARKER_FILE};
use crate::error::{describes, AppError, Result};
use crate::paths::{display_redacted, opt_view, redacted, render, FsPath, PartView, PathPart};
use crate::permissions::{inspect_context, private_mode, Metadata, DIRECTORY_MODE, FILE_MODE};
use crate::profile::{Profile, ProfileListing};
use crate::text::{
    ascii_lower, debug_quoted, push_signed, push_str, quote_debug, signed_decimal,
    to_ascii_lower, trim, trimmed,
};

verus! {

/// The question asked before a profile is removed.
pub open spec fn removal_question(name: Seq<char>, path: Seq<PartView>) -> Seq<char> {
    "Permanently remove profile "@ + debug_quoted(name) + " and all Codex state at "@ + render(path)
        + "? [y/N] "@
}

/// How a removal may go ahead.
#[derive(Debug)]
pub enum Confirmation {
    /// Without asking.
    Granted,
    /// After asking this question and reading the answer.
    Ask(String),
}

/// Whether the removal of `profile` may go ahead (`confirm_removal`): at once
/// with `yes`; never without a terminal to ask on; otherwise after asking.
pub fn confirm_removal(profile: &Profile, yes: bool, interactive: bool) -> (r: Result<Confirmation>)
    ensures
        yes ==> r matches Ok(Confirmation::Granted),
        !yes && !interactive ==> r matches Err(AppError::NonInteractiveConfirmation),
        !yes && interactive ==> (r matches Ok(Confirmation::Ask(q)) && q@ == removal_question(
            profile.name@,
            profile.path@,
        )),
{
    if yes {
        return Ok(Confirmation::Granted);
    }
    if !interactive {
        return Err(AppError::NonInteractiveConfirmation);
    }
    let mut q = String::new();
    push_str(&mut q, "Permanently remove profile ");
    push_str(&mut q, quote_debug(profile.name.as_str()).as_str());
    push_str(&mut q, " and all Codex state at ");
    push_str(&mut q, profile.path.display().as_str());
    push_str(&mut q, "? [y/N] ");
    Ok(Confirmation::Ask(q))
}

/// An answer that agrees: `y` or `yes` in any ASCII case, surrounded by any
/// white space.
pub open spec fn is_agreement(answer: Seq<char>) -> bool {
    let t = trim(answer).map_values(|c: char| ascii_lower(c));
    t == "y"@ || t == "yes"@
}

/// Judges the answer read after the question: the removal goes ahead only
/// on agreement, and is otherwise cancelled.
pub fn answer_confirmation(answer: &str) -> (r: Result<()>)
    ensures
        is_agreement(answer@) ==> r is Ok,
        !is_agreement(answer@) ==> r matches Err(AppError::RemovalCancelled),
{
    let t = trimmed(answer);
    let mut lowered: Vec<char> = Vec::new();
    let mut i: usize = 0;
    while i < t.len()
        invariant
            i <= t@.len(),
            lowered@ == t@.take(i as int).map_values(|c: char| ascii_lower(c)),
        decreases t@.len() - i,
    {
        lowered.push(to_ascii_lower(t[i]));
        i = i + 1;
        assert(lowered@ =~= t@.take(i as int).map_values(|c: char| ascii_lower(c)));
    }
    let ghost l = lowered@;
    proof {
        assert(t@.take(t@.len() as int) =~= t@);
        reveal_strlit("y");
        reveal_strlit("yes");
    }
    let agreed = (lowered.len() == 1 && lowered[0] == 'y') || (lowered.len() == 3 && lowered[0] == 'y'
        && lowered[1] == 'e' && lowered[2] == 's');
    proof {
        if agreed {
            if lowered@.len() == 1 {
                assert(l =~= "y"@);
            } else {
                assert(l =~= "yes"@);
            }
        } else {
            assert(l != "y"@ && l != "yes"@) by {
                if l == "y"@ {
                    assert(l[0] == 'y');
                }
                if l == "yes"@ {
                    assert(l[0] == 'y' && l[1] == 'e' && l[2] == 's');
                }
            }
        }
    }
    if agreed {
        Ok(())
    } else {
        Err(AppError::RemovalCancelled)
    }
}

} // verus!

verus! {

/// The message after a profile was created.
pub open spec fn created_message(name: Seq<char>, path: Seq<PartView>) -> Seq<char> {
    "Created profile "@ + debug_quoted(name) + " at "@ + render(path)
}

/// The message after a profile was removed.
pub open spec fn removed_message(name: Seq<char>, path: Seq<PartView>) -> Seq<char> {
    "Removed profile "@ + debug_quoted(name) + " at "@ + render(path)
}

fn named_path_message(head: &str, name: &str, path: &FsPath) -> (s: String)
    ensures
        s@ == head@ + debug_quoted(name@) + " at "@ + render(path@),
{
    let mut s = String::new();
    push_str(&mut s, head);
    push_str(&mut s, quote_debug(name).as_str());
    push_str(&mut s, " at ");
    push_str(&mut s, path.display().as_str());
    s
}

/// What `create` reports.
pub fn creation_message(profile: &Profile) -> (s: String)
    ensures
        s@ == created_message(profile.name@, profile.path@),
{
    named_path_message("Created profile ", profile.name.as_str(), &profile.path)
}

/// What `remove` reports.
pub fn removal_message(name: &str, path: &FsPath) -> (s: String)
    ensures
        s@ == removed_message(name@, path@),
{
    named_path_message("Removed profile ", name, path)
}

/// The warning about an entry of the root that is not a profile.
pub open spec fn ignored_warning(name: Seq<char>, reason: Seq<char>) -> Seq<char> {
    "warning: ignored unowned or invalid entry "@ + debug_quoted(name) + ": "@ + reason
}

/// The warnings of a listing, one per ignored entry, in order.
pub fn ignored_warnings(listing: &ProfileListing) -> (v: Vec<String>)
    ensures
        v@.len() == listing.ignored@.len(),
        forall|i: int|
            0 <= i < v@.len() ==> #[trigger] v@[i]@ == ignored_warning(
                listing.ignored@[i].0@,
                listing.ignored@[i].1@,
            ),
{
    let mut v: Vec<String> = Vec::new();
    let mut i: usize = 0;
    while i < listing.ignored.len()
        invariant
            i <= listing.ignored@.len(),
            v@.len() == i,
            forall|k: int|
                0 <= k < i ==> #[trigger] v@[k]@ == ignored_warning(
                    listing.ignored@[k].0@,
                    listing.ignored@[k].1@,
                ),
        decreases listing.ignored@.len() - i,
    {
        let entry = &listing.ignored[i];
        let mut s = String::new();
        push_str(&mut s, "warning: ignored unowned or invalid entry ");
        push_str(&mut s, quote_debug(entry.0.as_str()).as_str());
        push_str(&mut s, ": ");
        push_str(&mut s, entry.1.as_str());
        v.push(s);
        i = i + 1;
    }
    v
}

/// The lines of a plain listing: the names of the profiles in order, or a
/// note that there are none.
pub open spec fn listing_lines(profiles: Seq<Profile>) -> Seq<Seq<char>> {
    if profiles.len() == 0 {
        seq!["No profiles found."@]
    } else {
        profiles.map_values(|p: Profile| p.name@)
    }
}

/// The lines `list` prints without `--check`.
pub fn profile_lines(listing: &ProfileListing) -> (v: Vec<String>)
    ensures
        v@.map_values(|s: String| s@) == listing_lines(listing.profiles@),
{
    let mut v: Vec<String> = Vec::new();
    if listing.profiles.len() == 0 {
        v.push("No profiles found.".to_owned());
        assert(v@.map_values(|s: String| s@) =~= listing_lines(listing.profiles@));
        return v;
    }
    let mut i: usize = 0;
    while i < listing.profiles.len()
        invariant
            i <= listing.profiles@.len(),
            v@.map_values(|s: String| s@) == listing.profiles@.take(i as int).map_values(
                |p: Profile| p.name@,
            ),
        decreases listing.profiles@.len() - i,
    {
        let ghost w0 = v@.map_values(|s: String| s@);
        v.push(listing.profiles[i].name.clone());
        assert(v@.map_values(|s: String| s@) =~= w0.push(listing.profiles@[i as int].name@));
        assert(listing.profiles@.take(i + 1) =~= listing.profiles@.take(i as int).push(
            listing.profiles@[i as int],
        ));
        i = i + 1;
        assert(v@.map_values(|s: String| s@) =~= listing.profiles@.take(i as int).map_values(
            |p: Profile| p.name@,
        ));
    }
    assert(listing.profiles@.take(listing.profiles@.len() as int) =~= listing.profiles@);
    v
}

/// The line `list --check` prints for a profile whose status check exited
/// with `status`.
pub open spec fn status_line(name: Seq<char>, status: i32) -> Seq<char> {
    if status == 0 {
        name + "\tauthenticated"@
    } else {
        name + "\tnot authenticated (exit "@ + signed_decimal(status as int) + ")"@
    }
}

/// The line for a profile and the exit status of `codex login status`.
pub fn authentication_line(name: &str, status: i32) -> (s: String)
    ensures
        s@ == status_line(name@, status),
{
    let mut s = String::new();
    push_str(&mut s, name);
    if status == 0 {
        push_str(&mut s, "\tauthenticated");
    } else {
        push_str(&mut s, "\tnot authenticated (exit ");
        push_signed(&mut s, status);
        push_str(&mut s, ")");
    }
    s
}

} // verus!

verus! {

/// One finding of the health check.
#[derive(Debug)]
pub struct Finding {
    pub ok: bool,
    pub message: String,
}

/// How a finding is printed.
pub open spec fn finding_line(ok: bool, message: Seq<char>) -> Seq<char> {
    (if ok {
        "[ok] "@
    } else {
        "[fail] "@
    }) + message
}

impl Finding {
    /// The printed line (`print_ok` / `print_failure`).
    pub fn line(&self) -> (s: String)
        ensures
            s@ == finding_line(self.ok, self.message@),
    {
        let mut s = String::new();
        if self.ok {
            push_str(&mut s, "[ok] ");
        } else {
            push_str(&mut s, "[fail] ");
        }
        push_str(&mut s, self.message.as_str());
        s
    }
}

pub open spec fn root_not_created(root: Seq<char>) -> Seq<char> {
    "profile root "@ + root + " has not been created yet"@
}

pub open spec fn root_private(root: Seq<char>) -> Seq<char> {
    "profile root "@ + root + " is private"@
}

pub open spec fn root_too_open(root: Seq<char>) -> Seq<char> {
    "profile root "@ + root + " has broader permissions than expected"@
}

pub open spec fn codex_found(version: Seq<char>, path: Seq<char>) -> Seq<char> {
    "found "@ + version + " at "@ + path
}

pub open spec fn marker_valid(name: Seq<char>, created_by: Seq<char>) -> Seq<char> {
    "profile "@ + debug_quoted(name) + " has valid ownership metadata (created by "@ + created_by
        + ")"@
}

pub open spec fn permissions_private(label: Seq<char>) -> Seq<char> {
    label + " permissions are private"@
}

pub open spec fn permissions_too_open(label: Seq<char>) -> Seq<char> {
    label + " permissions are broader than expected"@
}

/// The message of an I/O failure with the context `context`.
pub open spec fn is_io_message(m: Seq<char>, context: Seq<char>) -> bool {
    let head = context + ": "@;
    m.len() >= head.len() && m.take(head.len() as int) == head
}

/// The findings of `doctor`, as (passed, message) pairs.
pub open spec fn findings_view(v: Seq<Finding>) -> Seq<(bool, Seq<char>)> {
    v.map_values(|f: Finding| (f.ok, f.message@))
}

/// The health check (`doctor`): findings in the order the checks ran. The
/// exit code is 1 when any check failed.
#[derive(Debug)]
pub struct Doctor {
    findings: Vec<Finding>,
    failed: bool,
    home: Option<FsPath>,
    unix: bool,
}

impl Doctor {
    pub closed spec fn findings(&self) -> Seq<(bool, Seq<char>)> {
        findings_view(self.findings@)
    }

    /// Whether permission bits are checked.
    pub closed spec fn unix(&self) -> bool {
        self.unix
    }

    /// The home directory paths are shown against.
    pub closed spec fn home(&self) -> Option<Seq<PartView>> {
        opt_view(self.home)
    }

    pub closed spec fn wf(&self) -> bool {
        self.failed <==> exists|i: int| 0 <= i < self.findings@.len() && !(#[trigger] self.findings@[i]).ok
    }

    /// A check with no findings yet; `home` is the value of `HOME`, and
    /// `unix` tells whether permission bits are checked.
    pub fn new(home: Option<FsPath>, unix: bool) -> (d: Doctor)
        ensures
            d.wf(),
            d.findings().len() == 0,
            d.home() == opt_view(home),
            d.unix() == unix,
    {
        Doctor { findings: Vec::new(), failed: false, home, unix }
    }

    fn record(&mut self, ok: bool, message: String)
        requires
            old(self).wf(),
        ensures
            final(self).wf(),
            final(self).home() == old(self).home(),
            final(self).unix() == old(self).unix(),
            final(self).findings() == old(self).findings().push((ok, message@)),
    {
        let ghost before = self.findings@;
        self.findings.push(Finding { ok, message });
        if !ok {
            self.failed = true;
        }
        proof {
            assert(self.findings@ =~= before.push(Finding { ok, message }));
            assert(findings_view(self.findings@) =~= findings_view(before).push((ok, message@)));
            if !ok {
                assert(!self.findings@[before.len() as int].ok);
            } else {
                assert forall|i: int| 0 <= i < self.findings@.len() && !(#[trigger] self.findings@[i]).ok implies 0 <= i < before.len() && !before[i].ok by {
                    if i < before.len() {
                        assert(self.findings@[i] == before[i]);
                    }
                }
                if self.failed {
                    let i = choose|i: int| 0 <= i < before.len() && !(#[trigger] before[i]).ok;
                    assert(self.findings@[i] == before[i]);
                }
            }
        }
    }

    fn record_error(&mut self, e: AppError)
        requires
            old(self).wf(),
        ensures
            final(self).wf(),
            final(self).home() == old(self).home(),
            final(self).unix() == old(self).unix(),
            final(self).findings().len() == old(self).findings().len() + 1,
            final(self).findings().drop_last() == old(self).findings(),
            !final(self).findings().last().0,
            describes(final(self).findings().last().1, e),
    {
        let message = e.message();
        self.record(false, message);
    }

    /// The storage root: whether it exists and, if so, whether it is private.
    /// `observed` is what `fs::symlink_metadata` returned for it, or `None`
    /// when it does not exist.
    pub fn check_root(&mut self, root: &FsPath, observed: Option<core::result::Result<Metadata, std::io::Error>>)
        requires
            old(self).wf(),
        ensures
            final(self).wf(),
            final(self).home() == old(self).home(),
            final(self).unix() == old(self).unix(),
            final(self).findings().len() == old(self).findings().len() + 1,
            final(self).findings().drop_last() == old(self).findings(),
            ({
                let shown = redacted(root@, old(self).home());
                let f = final(self).findings().last();
                match observed {
                    None => f == (true, root_not_created(shown)),
                    Some(_) if !old(self).unix() => f == (true, root_private(shown)),
                    Some(Ok(m)) => if (m.mode & 0o777) == DIRECTORY_MODE {
                        f == (true, root_private(shown))
                    } else {
                        f == (false, root_too_open(shown))
                    },
                    Some(Err(_)) => !f.0 && is_io_message(f.1, inspect_context(root@)),
                }
            }),
    {
        let shown = display_redacted(root, &self.home);
        match observed {
            None => {
                let mut m = String::new();
                push_str(&mut m, "profile root ");
                push_str(&mut m, shown.as_str());
                push_str(&mut m, " has not been created yet");
                self.record(true, m);
            },
            Some(obs) => match private_mode(root, obs, DIRECTORY_MODE, self.unix) {
                Ok(true) => {
                    let mut m = String::new();
                    push_str(&mut m, "profile root ");
                    push_str(&mut m, shown.as_str());
                    push_str(&mut m, " is private");
                    self.record(true, m);
                },
                Ok(false) => {
                    let mut m = String::new();
                    push_str(&mut m, "profile root ");
                    push_str(&mut m, shown.as_str());
                    push_str(&mut m, " has broader permissions than expected");
                    self.record(false, m);
                },
                Err(e) => self.record_error(e),
            },
        }
    }
}

impl Doctor {
    /// The Codex executable: found, with the version it reports, or why not.
    pub fn check_codex(&mut self, outcome: Result<(Codex, Result<String>)>)
        requires
            old(self).wf(),
        ensures
            final(self).wf(),
            final(self).home() == old(self).home(),
            final(self).unix() == old(self).unix(),
            final(self).findings().len() == old(self).findings().len() + 1,
            final(self).findings().drop_last() == old(self).findings(),
            ({
                let f = final(self).findings().last();
                match outcome {
                    Ok((c, Ok(v))) => f == (true, codex_found(v@, redacted(c@, old(self).home()))),
                    Ok((_, Err(e))) => !f.0 && describes(f.1, e),
                    Err(e) => !f.0 && describes(f.1, e),
                }
            }),
    {
        match outcome {
            Ok((codex, Ok(version))) => {
                let mut m = String::new();
                push_str(&mut m, "found ");
                push_str(&mut m, version.as_str());
                push_str(&mut m, " at ");
                push_str(&mut m, display_redacted(codex.path(), &self.home).as_str());
                self.record(true, m);
            },
            Ok((_, Err(e))) => self.record_error(e),
            Err(e) => self.record_error(e),
        }
    }

    /// The profile asked about: whether it opens, with valid ownership
    /// metadata.
    pub fn check_profile(&mut self, opened: &Result<Profile>)
        requires
            old(self).wf(),
        ensures
            final(self).wf(),
            final(self).home() == old(self).home(),
            final(self).unix() == old(self).unix(),
            final(self).findings().len() == old(self).findings().len() + 1,
            final(self).findings().drop_last() == old(self).findings(),
            ({
                let f = final(self).findings().last();
                match opened {
                    Ok(p) => f == (true, marker_valid(p.name@, p.marker.created_by_version@)),
                    Err(e) => !f.0 && describes(f.1, *e),
                }
            }),
    {
        match opened {
            Ok(profile) => {
                let mut m = String::new();
                push_str(&mut m, "profile ");
                push_str(&mut m, quote_debug(profile.name.as_str()).as_str());
                push_str(&mut m, " has valid ownership metadata (created by ");
                push_str(&mut m, profile.marker.created_by_version.as_str());
                push_str(&mut m, ")");
                self.record(true, m);
            },
            Err(e) => {
                let message = e.message();
                self.record(false, message);
            },
        }
    }

    fn check_permission(
        &mut self,
        path: &FsPath,
        observed: core::result::Result<Metadata, std::io::Error>,
        expected: u32,
        label: &str,
    ) -> (valid: bool)
        requires
            old(self).wf(),
        ensures
            final(self).wf(),
            final(self).home() == old(self).home(),
            final(self).unix() == old(self).unix(),
            final(self).findings().len() == old(self).findings().len() + 1,
            final(self).findings().drop_last() == old(self).findings(),
            permission_finding(path@, observed, expected, label@, old(self).unix(), final(self).findings().last()),
            valid == final(self).findings().last().0,
    {
        match private_mode(path, observed, expected, self.unix) {
            Ok(true) => {
                let mut m = String::new();
                push_str(&mut m, label);
                push_str(&mut m, " permissions are private");
                self.record(true, m);
                true
            },
            Ok(false) => {
                let mut m = String::new();
                push_str(&mut m, label);
                push_str(&mut m, " permissions are broader than expected");
                self.record(false, m);
                false
            },
            Err(e) => {
                self.record_error(e);
                false
            },
        }
    }

    /// The permissions of a profile's directory, marker and Codex
    /// configuration (`check_profile_permissions`), from what
    /// `fs::symlink_metadata` returned for each of `permission_paths`. True
    /// when all three are private.
    pub fn check_profile_permissions(
        &mut self,
        profile: &Profile,
        directory: core::result::Result<Metadata, std::io::Error>,
        marker: core::result::Result<Metadata, std::io::Error>,
        config: core::result::Result<Metadata, std::io::Error>,
    ) -> (valid: bool)
        requires
            old(self).wf(),
        ensures
            final(self).wf(),
            final(self).home() == old(self).home(),
            final(self).unix() == old(self).unix(),
            final(self).findings().len() == old(self).findings().len() + 3,
            final(self).findings().take(old(self).findings().len() as int) == old(self).findings(),
            ({
                let n = old(self).findings().len() as int;
                let f = final(self).findings();
                let paths = permission_paths_of(profile.path@);
                &&& permission_finding(paths[0], directory, DIRECTORY_MODE, "profile directory"@, old(self).unix(), f[n])
                &&& permission_finding(paths[1], marker, FILE_MODE, "ownership marker"@, old(self).unix(), f[n + 1])
                &&& permission_finding(paths[2], config, FILE_MODE, "Codex config"@, old(self).unix(), f[n + 2])
                &&& valid == (f[n].0 && f[n + 1].0 && f[n + 2].0)
            }),
    {
        let ghost start = self.findings();
        let paths = permission_paths(profile);
        let a = self.check_permission(&paths.0, directory, DIRECTORY_MODE, "profile directory");
        let ghost after_a = self.findings();
        let b = self.check_permission(&paths.1, marker, FILE_MODE, "ownership marker");
        let ghost after_b = self.findings();
        let c = self.check_permission(&paths.2, config, FILE_MODE, "Codex config");
        proof {
            let f = self.findings();
            let n = start.len() as int;
            assert(f.drop_last() == after_b);
            assert(after_b.drop_last() == after_a);
            assert(after_a.drop_last() == start);
            assert(f[n] == after_a.last());
            assert(f[n + 1] == after_b.last());
            assert(f.take(n) =~= start);
        }
        a && b && c
    }

    /// The exit code of `doctor`: 1 when any check failed, 0 otherwise.
    pub fn exit_code(&self) -> (code: i32)
        requires
            self.wf(),
        ensures
            code == (if exists|i: int| 0 <= i < self.findings().len() && !(#[trigger] self.findings()[i]).0 {
                1i32
            } else {
                0i32
            }),
    {
        proof {
            if self.failed {
                let i = choose|i: int| 0 <= i < self.findings@.len() && !(#[trigger] self.findings@[i]).ok;
                assert(!self.findings()[i].0);
            } else {
                assert forall|i: int| 0 <= i < self.findings().len() implies (#[trigger] self.findings()[i]).0 by {
                    assert(self.findings()[i].0 == self.findings@[i].ok);
                }
            }
        }
        if self.failed {
            1
        } else {
            0
        }
    }

    /// The findings' printed lines, in order.
    pub fn lines(&self) -> (v: Vec<String>)
        ensures
            v@.len() == self.findings().len(),
            forall|i: int|
                0 <= i < v@.len() ==> #[trigger] v@[i]@ == finding_line(
                    self.findings()[i].0,
                    self.findings()[i].1,
                ),
    {
        let mut v: Vec<String> = Vec::new();
        let mut i: usize = 0;
        while i < self.findings.len()
            invariant
                i <= self.findings@.len(),
                v@.len() == i,
                forall|k: int|
                    0 <= k < i ==> #[trigger] v@[k]@ == finding_line(
                        self.findings()[k].0,
                        self.findings()[k].1,
                    ),
            decreases self.findings@.len() - i,
        {
            v.push(self.findings[i].line());
            i = i + 1;
        }
        v
    }
}

/// The finding about the permission bits of `path`, expected to be exactly
/// `expected`, given what its metadata read returned.
pub open spec fn permission_finding(
    path: Seq<PartView>,
    observed: core::result::Result<Metadata, std::io::Error>,
    expected: u32,
    label: Seq<char>,
    unix: bool,
    f: (bool, Seq<char>),
) -> bool {
    if !unix {
        f == (true, permissions_private(label))
    } else {
        match observed {
            Ok(m) => if (m.mode & 0o777) == expected {
            f == (true, permissions_private(label))
        } else {
            f == (false, permissions_too_open(label))
        },
            Err(_) => !f.0 && is_io_message(f.1, inspect_context(path)),
        }
    }
}

/// The profile directory, its ownership marker and its Codex configuration.
pub open spec fn permission_paths_of(dir: Seq<PartView>) -> Seq<Seq<PartView>> {
    seq![
        dir,
        dir.push(PartView::Normal(MARKER_FILE@)),
        dir.push(PartView::Normal(CODEX_CONFIG_FILE@)),
    ]
}

/// The paths whose permissions the health check inspects for a profile.
pub fn permission_paths(profile: &Profile) -> (r: (FsPath, FsPath, FsPath))
    ensures
        r.0@ == permission_paths_of(profile.path@)[0],
        r.1@ == permission_paths_of(profile.path@)[1],
        r.2@ == permission_paths_of(profile.path@)[2],
{
    let mut marker = profile.path.copy();
    marker.push(PathPart::Normal(MARKER_FILE.to_owned()));
    let mut config = profile.path.copy();
    config.push(PathPart::Normal(CODEX_CONFIG_FILE.to_owned()));
    (profile.path.copy(), marker, config)
}

} // verus!
