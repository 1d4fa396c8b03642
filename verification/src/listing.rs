//! Listing the storage root (`ProfileStore::list`): every entry that is not a
//! creation in progress goes through the ownership check, and its verdict
//! puts it among the profiles or, with the reason, among the ignored entries.

use vstd::prelude::*;

use crate::config::{marker_rejection, MARKER_FILE};
use crate::error::{describes, is_io_error, AppError, Result};
use crate::paths::{join, parse, render, FsPath, PartView};
use crate::permissions::{
    ensure_private_mode, ensure_private_mode_result, is_io_failure, DIRECTORY_MODE,
};
use crate::profile::{
    is_name_refusal, is_valid_name_text, join_valid_name, name_rejection, names, sort_by_name,
    sorted_by_name, Profile, ProfileListing, ProfileStore,
};
use crate::store::{
    check_of, ensure_real_directory, is_modification, owned_step, ownership_check_modifies_nothing,
    real_directory_result, starts_with, Event,
    OwnedCheck, Request, RequestView, Step,
};
use crate::text::{push_str, text_starts_with};

verus! {

/// Entries whose names begin so are creations in progress.
pub const TEMPORARY_PREFIX: &'static str = ".tmp-";

pub open spec fn is_temporary_name(name: Seq<char>) -> bool {
    starts_with(name, TEMPORARY_PREFIX@)
}

/// One entry of a directory listing: its file name as text, or the failure
/// to read it.
pub type DirEntry = core::result::Result<String, std::io::Error>;

/// The names a listing considers among `entries`: every readable entry's name
/// that is not a creation in progress, in order.
pub open spec fn listed_names(entries: Seq<DirEntry>) -> Seq<Seq<char>>
    decreases entries.len(),
{
    if entries.len() == 0 {
        Seq::empty()
    } else {
        let rest = listed_names(entries.drop_first());
        match entries[0] {
            Ok(n) => if is_temporary_name(n@) {
                rest
            } else {
                seq![n@] + rest
            },
            Err(_) => rest,
        }
    }
}

/// Some entry could not be read.
pub open spec fn has_unreadable(entries: Seq<DirEntry>) -> bool {
    exists|i: int| 0 <= i < entries.len() && #[trigger] entries[i] is Err
}

/// A listed profile: an owned profile directly inside the root whose marker
/// names it.
pub open spec fn is_listed_profile(root: Seq<PartView>, p: Profile) -> bool {
    &&& is_valid_name_text(p.name@)
    &&& p.path@ == root.push(PartView::Normal(p.name@))
    &&& marker_rejection(p.name@, p.marker.schema_version, p.marker.name@, p.marker.created_by_version@)
        is None
}

/// The verdict on one considered entry: its name and the outcome of its
/// ownership check.
pub struct Verdict {
    pub name: Seq<char>,
    pub outcome: Result<Profile>,
}

/// The names of the verdicts, in order.
pub open spec fn verdict_names(v: Seq<Verdict>) -> Seq<Seq<char>> {
    v.map_values(|x: Verdict| x.name)
}

/// The profiles of the favourable verdicts, in order.
pub open spec fn accepted(v: Seq<Verdict>) -> Seq<Profile>
    decreases v.len(),
{
    if v.len() == 0 {
        Seq::empty()
    } else {
        match v.last().outcome {
            Ok(p) => accepted(v.drop_last()).push(p),
            Err(_) => accepted(v.drop_last()),
        }
    }
}

/// The names and errors of the unfavourable verdicts, in order.
pub open spec fn refusals(v: Seq<Verdict>) -> Seq<(Seq<char>, AppError)>
    decreases v.len(),
{
    if v.len() == 0 {
        Seq::empty()
    } else {
        match v.last().outcome {
            Ok(_) => refusals(v.drop_last()),
            Err(e) => refusals(v.drop_last()).push((v.last().name, e)),
        }
    }
}

/// A favourable verdict is an owned profile of the root under its name.
pub open spec fn is_sound_verdict(root: Seq<PartView>, x: Verdict) -> bool {
    x.outcome matches Ok(p) ==> p.name@ == x.name && is_listed_profile(root, p)
}

/// A verdict the ownership check gives at once: the name itself is refused.
pub open spec fn is_name_verdict(x: Verdict) -> bool {
    &&& x.outcome is Err
    &&& name_rejection(x.name, vstd::utf8::encode_utf8(x.name).len()) matches Some(reason)
    &&& is_name_refusal(x.outcome->Err_0, x.name, reason)
}

/// `l` lists the entries `received` of the root `root` after the verdicts
/// `verdicts`: no entry was unreadable, each considered name got one verdict
/// in order, the profiles are exactly those of the favourable verdicts and
/// the ignored entries those of the others with their messages, both sorted
/// by name.
pub open spec fn is_listing_of(
    root: Seq<PartView>,
    received: Seq<DirEntry>,
    verdicts: Seq<Verdict>,
    l: ProfileListing,
) -> bool {
    &&& !has_unreadable(received)
    &&& verdict_names(verdicts) == listed_names(received)
    &&& forall|i: int| 0 <= i < verdicts.len() ==> is_sound_verdict(root, #[trigger] verdicts[i])
    &&& sorted_by_name(l.profiles@)
    &&& sorted_by_name(l.ignored@)
    &&& l.profiles@.to_multiset() == accepted(verdicts).to_multiset()
    &&& names(l.ignored@).to_multiset() == refusals(verdicts).map_values(
        |r: (Seq<char>, AppError)| r.0,
    ).to_multiset()
    &&& forall|i: int|
        0 <= i < l.ignored@.len() ==> exists|j: int|
            0 <= j < verdicts.len() && (#[trigger] verdicts[j]).name == (#[trigger] l.ignored@[i]).0@
                && verdicts[j].outcome is Err && describes(
                l.ignored@[i].1@,
                verdicts[j].outcome->Err_0,
            )
}

/// The context of a failure to open the root for listing.
pub open spec fn list_context(root: Seq<PartView>) -> Seq<char> {
    "could not list "@ + render(root)
}

/// The context of a failure to read one entry of the root.
pub open spec fn entry_context(root: Seq<PartView>) -> Seq<char> {
    "could not read an entry in "@ + render(root)
}

fn context_text(head: &str, path: &FsPath) -> (s: String)
    ensures
        s@ == head@ + render(path@),
{
    let mut s = String::new();
    push_str(&mut s, head);
    push_str(&mut s, path.display().as_str());
    s
}

/// A failed listing after the entries were obtained: only an unreadable
/// entry stops it.
pub open spec fn entry_failure(root: Seq<PartView>, received: Seq<DirEntry>, s: Step<ProfileListing>) -> bool {
    s matches Step::Finished(Err(e)) ==> is_io_error(e, entry_context(root)) && has_unreadable(
        received,
    )
}

/// The stages of `ProfileStore::list`, in order.
#[derive(Debug)]
pub enum ListStage {
    Begin,
    RootExists,
    RootKind,
    RootMode,
    Reading,
    Checking,
    Done,
}

pub open spec fn list_rank(s: ListStage) -> int {
    match s {
        ListStage::Begin => 0,
        ListStage::RootExists => 1,
        ListStage::RootKind => 2,
        ListStage::RootMode => 3,
        ListStage::Reading => 4,
        ListStage::Checking => 5,
        ListStage::Done => 6,
    }
}

/// Listing the storage root (`ProfileStore::list`): nothing when the root does
/// not exist; otherwise the root must be a real private directory, and each
/// entry that is not a creation in progress goes through the ownership check.
pub struct Listing {
    root: FsPath,
    unix: bool,
    stage: ListStage,
    received: Ghost<Seq<DirEntry>>,
    entries: Vec<DirEntry>,
    current: String,
    check: OwnedCheck,
    profiles: Vec<Profile>,
    ignored: Vec<(String, String)>,
    verdicts: Ghost<Seq<Verdict>>,
    judged: Ghost<OwnedCheck>,
    judgment: Ghost<Step<Profile>>,
}

/// The verdicts after `before` all follow at once from refused names.
pub open spec fn added_name_verdicts(before: Seq<Verdict>, after: Seq<Verdict>, from: int) -> bool {
    &&& before.len() <= from <= after.len()
    &&& after.take(before.len() as int) == before
    &&& forall|k: int| from <= k < after.len() ==> is_name_verdict(#[trigger] after[k])
}

/// The request the listing waits on at stages 1 to 4.
pub open spec fn listing_request_at(rank: int, root: Seq<PartView>) -> Option<RequestView> {
    if rank == 1 {
        Some(RequestView::Exists(root))
    } else if rank == 2 || rank == 3 {
        Some(RequestView::Inspect(root))
    } else if rank == 4 {
        Some(RequestView::ReadDir(root))
    } else {
        None
    }
}

/// The kind of outcome the listing waits for at stages 1 to 4; while an entry
/// is under check, its ownership check decides.
pub open spec fn listing_awaits(rank: int, event: Event) -> bool {
    if rank == 1 {
        event is Exists
    } else if rank == 4 {
        event is Entries
    } else {
        event is Inspected
    }
}

/// One step of a listing: `before`, given `event`, became `after` and
/// answered `s`. While an entry is under check, the event goes to its
/// ownership check (`judged` is that check after the step, `judgment` its
/// answer); a finished check adds the entry's verdict, and the following
/// entries whose names are refused at once add theirs.
pub open spec fn listing_step(before: Listing, event: Event, after: Listing, s: Step<ProfileListing>) -> bool {
    let root = before.root();
    let n = before.verdicts().len() as int;
    &&& 1 <= before.rank() <= 4 && !listing_awaits(before.rank(), event) ==> after == before && (
    s matches Step::Ask(r) && Some(r@) == before.pending())
    &&& s is Ask && (before.rank() == 0 || listing_awaits(before.rank(), event)) ==> after.rank()
        == if before.rank() >= 4 {
        5
    } else {
        before.rank() + 1
    }
    &&& s matches Step::Ask(r) ==> 1 <= after.rank() <= 4 ==> Some(r@) == listing_request_at(
        after.rank(),
        root,
    )
    &&& s matches Step::Ask(r) ==> after.rank() == 5 ==> after.check().pending() == Some(r@)
    &&& s is Ask && after.rank() == 5 && !(before.rank() == 5 && after.judgment() is Ask) ==> {
        &&& after.check().rank() == 1
        &&& is_valid_name_text(after.current())
        &&& after.check().name() == after.current()
        &&& after.check().root() == root
        &&& after.check().path() == root.push(PartView::Normal(after.current()))
    }
    &&& s matches Step::Finished(Ok(_)) ==> before.rank() == 1 || before.rank() >= 4
    &&& after.wf()
    &&& after.root() == root
    &&& after.unix() == before.unix()
    &&& match s {
        Step::Ask(req) => !after.is_done() && after.pending() == Some(req@),
        Step::Finished(Ok(l)) => after.is_done() && is_listing_of(
            root,
            after.received(),
            after.verdicts(),
            l,
        ),
        Step::Finished(Err(_)) => after.is_done(),
    }
    &&& before.rank() == 0 ==> (s matches Step::Ask(r) && r@ == RequestView::Exists(root))
    &&& event matches Event::Exists(found) ==> before.rank() == 1 ==> if found {
        s matches Step::Ask(r) && r@ == RequestView::Inspect(root)
    } else {
        s matches Step::Finished(Ok(l)) && l.profiles@.len() == 0 && l.ignored@.len() == 0
    }
    &&& event matches Event::Inspected(obs) ==> before.rank() == 2 ==> real_directory_result(
        root,
        obs,
        check_of(s),
    )
    &&& event matches Event::Inspected(obs) ==> before.rank() == 3 ==> ensure_private_mode_result(
        root,
        obs,
        DIRECTORY_MODE,
        "profile storage root",
        before.unix(),
        check_of(s),
    )
    &&& event matches Event::Entries(res) ==> before.rank() == 4 ==> match res {
        Err(error) => s matches Step::Finished(Err(e)) && is_io_failure(e, list_context(root), error),
        Ok(entries) => {
            &&& after.received() == entries@
            &&& entry_failure(root, after.received(), s)
            &&& added_name_verdicts(before.verdicts(), after.verdicts(), 0)
        },
    }
    &&& before.rank() == 5 ==> {
        &&& after.received() == before.received()
        &&& entry_failure(root, after.received(), s)
        &&& owned_step(before.check(), event, after.judged(), after.judgment())
        &&& match after.judgment() {
            Step::Ask(r) => {
                &&& s matches Step::Ask(q) && q@ == r@
                &&& after.check() == after.judged()
                &&& after.verdicts() == before.verdicts()
            },
            Step::Finished(v) => {
                &&& n < after.verdicts().len()
                &&& after.verdicts()[n] == (Verdict { name: before.current(), outcome: v })
                &&& added_name_verdicts(before.verdicts(), after.verdicts(), n + 1)
            },
        }
    }
}

impl Listing {
    pub closed spec fn root(&self) -> Seq<PartView> {
        self.root@
    }

    pub closed spec fn rank(&self) -> int {
        list_rank(self.stage)
    }

    /// Whether permission bits are checked.
    pub closed spec fn unix(&self) -> bool {
        self.unix
    }

    /// The entries the root was found to hold.
    pub closed spec fn received(&self) -> Seq<DirEntry> {
        self.received@
    }

    /// The verdicts so far, in the order the entries were considered.
    pub closed spec fn verdicts(&self) -> Seq<Verdict> {
        self.verdicts@
    }

    /// The name under check.
    pub closed spec fn current(&self) -> Seq<char> {
        self.current@
    }

    /// The ownership check of the entry under check.
    pub closed spec fn check(&self) -> OwnedCheck {
        self.check
    }

    /// The ownership check as the last step left it.
    pub closed spec fn judged(&self) -> OwnedCheck {
        self.judged@
    }

    /// What the ownership check answered at the last step.
    pub closed spec fn judgment(&self) -> Step<Profile> {
        self.judgment@
    }

    pub closed spec fn is_done(&self) -> bool {
        self.stage is Done
    }

    pub closed spec fn pending(&self) -> Option<RequestView> {
        match self.stage {
            ListStage::RootExists => Some(RequestView::Exists(self.root@)),
            ListStage::RootKind => Some(RequestView::Inspect(self.root@)),
            ListStage::RootMode => Some(RequestView::Inspect(self.root@)),
            ListStage::Reading => Some(RequestView::ReadDir(self.root@)),
            ListStage::Checking => self.check.pending(),
            _ => None,
        }
    }

    /// The running totals: the verdicts cover the names considered so far,
    /// in order, then comes the name under check (when `checking`), then the
    /// rest; the profiles and ignored entries are those of the verdicts.
    pub closed spec fn tallied(&self, checking: bool) -> bool {
        let consumed = self.received@.len() - self.entries@.len();
        let v = self.verdicts@;
        &&& self.entries@.len() <= self.received@.len()
        &&& self.entries@ == self.received@.skip(consumed)
        &&& forall|i: int| 0 <= i < consumed ==> #[trigger] self.received@[i] is Ok
        &&& verdict_names(v) + (if checking {
            seq![self.current@]
        } else {
            Seq::empty()
        }) + listed_names(self.entries@) == listed_names(self.received@)
        &&& forall|i: int| 0 <= i < v.len() ==> is_sound_verdict(self.root@, #[trigger] v[i])
        &&& self.profiles@ == accepted(v)
        &&& self.ignored@.len() == refusals(v).len()
        &&& forall|i: int|
            0 <= i < self.ignored@.len() ==> {
                &&& (#[trigger] self.ignored@[i]).0@ == refusals(v)[i].0
                &&& describes(self.ignored@[i].1@, refusals(v)[i].1)
            }
    }

    pub closed spec fn wf(&self) -> bool {
        &&& self.rank() <= 4 ==> {
            &&& self.received@.len() == 0
            &&& self.verdicts@.len() == 0
            &&& self.profiles@.len() == 0
            &&& self.ignored@.len() == 0
        }
        &&& self.stage is Checking ==> {
            &&& self.tallied(true)
            &&& self.check.wf()
            &&& !self.check.is_done()
            &&& self.check.name() == self.current@
            &&& self.check.root() == self.root@
            &&& self.check.path() == join(self.root@, parse(self.current@))
        }
    }

    fn pending_request(&self) -> (r: Request)
        requires
            self.pending() is Some,
            !(self.stage is Checking),
        ensures
            Some(r@) == self.pending(),
    {
        match self.stage {
            ListStage::RootExists => Request::Exists(self.root.copy()),
            ListStage::RootKind => Request::Inspect(self.root.copy()),
            ListStage::RootMode => Request::Inspect(self.root.copy()),
            _ => Request::ReadDir(self.root.copy()),
        }
    }
}

proof fn lemma_refusal_source(v: Seq<Verdict>, k: int)
    requires
        0 <= k < refusals(v).len(),
    ensures
        exists|j: int|
            0 <= j < v.len() && (#[trigger] v[j]).name == refusals(v)[k].0 && v[j].outcome == Err::<
                Profile,
                AppError,
            >(refusals(v)[k].1),
    decreases v.len(),
{
    let rest = v.drop_last();
    if k < refusals(rest).len() {
        lemma_refusal_source(rest, k);
        let j = choose|j: int|
            0 <= j < rest.len() && (#[trigger] rest[j]).name == refusals(rest)[k].0 && rest[j].outcome
                == Err::<Profile, AppError>(refusals(rest)[k].1);
        assert(v[j] == rest[j]);
    } else {
        assert(v[v.len() - 1] == v.last());
    }
}

proof fn lemma_verdict_push(v: Seq<Verdict>, x: Verdict)
    ensures
        verdict_names(v.push(x)) == verdict_names(v).push(x.name),
        accepted(v.push(x)) == match x.outcome {
            Ok(p) => accepted(v).push(p),
            Err(_) => accepted(v),
        },
        refusals(v.push(x)) == match x.outcome {
            Ok(_) => refusals(v),
            Err(e) => refusals(v).push((x.name, e)),
        },
{
    assert(v.push(x).drop_last() =~= v);
    assert(verdict_names(v.push(x)) =~= verdict_names(v).push(x.name));
}

impl Listing {
    /// Records the verdict `outcome` on the entry `name`: its profile joins
    /// the profiles, or it joins the ignored entries with its message.
    fn record(&mut self, name: String, outcome: Result<Profile>)
        requires
            old(self).profiles@ == accepted(old(self).verdicts()),
            old(self).ignored@.len() == refusals(old(self).verdicts()).len(),
            forall|i: int|
                0 <= i < old(self).ignored@.len() ==> {
                    &&& (#[trigger] old(self).ignored@[i]).0@ == refusals(old(self).verdicts())[i].0
                    &&& describes(old(self).ignored@[i].1@, refusals(old(self).verdicts())[i].1)
                },
        ensures
            final(self).verdicts() == old(self).verdicts().push(Verdict { name: name@, outcome }),
            final(self).profiles@ == accepted(final(self).verdicts()),
            final(self).ignored@.len() == refusals(final(self).verdicts()).len(),
            forall|i: int|
                0 <= i < final(self).ignored@.len() ==> {
                    &&& (#[trigger] final(self).ignored@[i]).0@ == refusals(final(self).verdicts())[i].0
                    &&& describes(final(self).ignored@[i].1@, refusals(final(self).verdicts())[i].1)
                },
            final(self).root == old(self).root,
            final(self).unix == old(self).unix,
            final(self).stage == old(self).stage,
            final(self).received == old(self).received,
            final(self).entries == old(self).entries,
            final(self).current == old(self).current,
            final(self).check == old(self).check,
            final(self).judged == old(self).judged,
            final(self).judgment == old(self).judgment,
    {
        let ghost before = self.verdicts@;
        let ghost x = Verdict { name: name@, outcome };
        proof {
            lemma_verdict_push(before, x);
        }
        self.verdicts = Ghost(before.push(x));
        match outcome {
            Ok(p) => {
                self.profiles.push(p);
            },
            Err(e) => {
                let reason = e.message();
                let ghost old_ignored = self.ignored@;
                self.ignored.push((name, reason));
                proof {
                    assert forall|i: int| 0 <= i < self.ignored@.len() implies {
                        &&& (#[trigger] self.ignored@[i]).0@ == refusals(self.verdicts@)[i].0
                        &&& describes(self.ignored@[i].1@, refusals(self.verdicts@)[i].1)
                    } by {
                        if i < old_ignored.len() {
                            assert(self.ignored@[i] == old_ignored[i]);
                        }
                    }
                }
            },
        }
    }
}

proof fn lemma_empty_multiset<T>(s: Seq<T>)
    requires
        s.len() == 0,
    ensures
        s.to_multiset() =~= vstd::multiset::Multiset::empty(),
{
    s.to_multiset_ensures();
    vstd::multiset::lemma_multiset_empty_len(s.to_multiset());
}

impl Listing {
    /// Moves on to the next entry worth checking, or finishes.
    fn advance(&mut self) -> (s: Step<ProfileListing>)
        requires
            old(self).tallied(false),
            old(self).received().len() > 0 || old(self).entries@.len() == 0,
        ensures
            final(self).wf(),
            final(self).root() == old(self).root(),
            final(self).unix() == old(self).unix(),
            final(self).received() == old(self).received(),
            final(self).judged() == old(self).judged(),
            final(self).judgment() == old(self).judgment(),
            added_name_verdicts(
                old(self).verdicts(),
                final(self).verdicts(),
                old(self).verdicts().len() as int,
            ),
            match s {
                Step::Ask(req) => !final(self).is_done() && final(self).pending() == Some(req@),
                Step::Finished(Ok(l)) => final(self).is_done() && is_listing_of(
                    old(self).root(),
                    old(self).received(),
                    final(self).verdicts(),
                    l,
                ),
                Step::Finished(Err(_)) => final(self).is_done(),
            },
            entry_failure(old(self).root(), old(self).received(), s),
            s is Ask ==> {
                &&& final(self).rank() == 5
                &&& final(self).check().rank() == 1
                &&& is_valid_name_text(final(self).current())
                &&& final(self).check().name() == final(self).current()
                &&& final(self).check().root() == old(self).root()
                &&& final(self).check().path() == old(self).root().push(
                    PartView::Normal(final(self).current()),
                )
            },
    {
        broadcast use vstd::seq_lib::group_to_multiset_ensures;

        let ghost start = self.verdicts@;
        assert(start.take(start.len() as int) =~= start);
        loop
            invariant
                self.tallied(false),
                self.root@ == old(self).root@,
                self.unix == old(self).unix,
                self.received@ == old(self).received@,
                self.judged == old(self).judged,
                self.judgment == old(self).judgment,
                added_name_verdicts(start, self.verdicts@, start.len() as int),
                start == old(self).verdicts(),
            decreases self.entries@.len(),
        {
            if self.entries.len() == 0 {
                let ghost v = self.verdicts@;
                let mut profiles: Vec<Profile> = Vec::new();
                let mut ignored: Vec<(String, String)> = Vec::new();
                core::mem::swap(&mut profiles, &mut self.profiles);
                core::mem::swap(&mut ignored, &mut self.ignored);
                let ghost unsorted = ignored@;
                let profiles = sort_by_name(profiles);
                let ignored = sort_by_name(ignored);
                proof {
                    assert(listed_names(self.entries@) =~= Seq::<Seq<char>>::empty());
                    assert(verdict_names(v) =~= listed_names(self.received@));
                    assert forall|i: int| 0 <= i < self.received@.len() implies #[trigger] self.received@[i] is Ok by {}
                    assert(names(unsorted) =~= refusals(v).map_values(|r: (Seq<char>, AppError)| r.0));
                    assert forall|i: int| 0 <= i < ignored@.len() implies exists|j: int|
                        0 <= j < v.len() && (#[trigger] v[j]).name == (#[trigger] ignored@[i]).0@
                            && v[j].outcome is Err && describes(ignored@[i].1@, v[j].outcome->Err_0) by {
                        ignored@.to_multiset_ensures();
                        unsorted.to_multiset_ensures();
                        assert(ignored@.contains(ignored@[i]));
                        assert(ignored@.to_multiset().count(ignored@[i]) > 0);
                        assert(unsorted.to_multiset().count(ignored@[i]) > 0);
                        assert(unsorted.contains(ignored@[i]));
                        let k = choose|k: int| 0 <= k < unsorted.len() && unsorted[k] == ignored@[i];
                        assert(unsorted[k].0@ == refusals(v)[k].0);
                        lemma_refusal_source(v, k);
                        let j = choose|j: int|
                            0 <= j < v.len() && (#[trigger] v[j]).name == refusals(v)[k].0
                                && v[j].outcome == Err::<Profile, AppError>(refusals(v)[k].1);
                        assert(v[j].name == ignored@[i].0@);
                    }
                }
                self.stage = ListStage::Done;
                return Step::Finished(Ok(ProfileListing { profiles, ignored }));
            }
            let ghost consumed = self.received@.len() - self.entries@.len();
            let ghost entries = self.entries@;
            proof {
                assert(self.received@[consumed] == entries[0]);
            }
            let entry = self.entries.remove(0);
            proof {
                assert(self.entries@ =~= entries.drop_first());
                assert(self.entries@ =~= self.received@.skip(consumed + 1));
            }
            match entry {
                Err(error) => {
                    self.stage = ListStage::Done;
                    let context = context_text("could not read an entry in ", &self.root);
                    return Step::Finished(Err(AppError::io(context, error)));
                },
                Ok(name) => {
                    if !text_starts_with(name.as_str(), TEMPORARY_PREFIX) {
                        let mut check = OwnedCheck::new(&self.root, name.as_str(), self.unix);
                        proof {
                            let v = self.verdicts@;
                            assert(verdict_names(v) + seq![name@] + listed_names(self.entries@)
                                =~= verdict_names(v) + Seq::<Seq<char>>::empty() + listed_names(entries));
                        }
                        match check.step(Event::Start) {
                            Step::Ask(req) => {
                                proof {
                                    join_valid_name(self.root@, name@);
                                }
                                self.current = name;
                                self.check = check;
                                self.stage = ListStage::Checking;
                                return Step::Ask(req);
                            },
                            Step::Finished(outcome) => {
                                let ghost v = self.verdicts@;
                                proof {
                                    if outcome is Ok {
                                        join_valid_name(self.root@, name@);
                                    }
                                }
                                self.record(name, outcome);
                                proof {
                                    let w = self.verdicts@;
                                    lemma_verdict_push(v, w.last());
                                    assert(verdict_names(w) + Seq::<Seq<char>>::empty() + listed_names(
                                        self.entries@,
                                    ) =~= verdict_names(v) + seq![w.last().name] + listed_names(
                                        self.entries@,
                                    ));
                                    assert forall|i: int| 0 <= i < w.len() implies is_sound_verdict(
                                        self.root@,
                                        #[trigger] w[i],
                                    ) by {
                                        if i < v.len() {
                                            assert(w[i] == v[i]);
                                        }
                                    }
                                    assert(w.take(start.len() as int) =~= v.take(start.len() as int));
                                    assert forall|k: int| start.len() <= k < w.len() implies is_name_verdict(
                                        #[trigger] w[k],
                                    ) by {
                                        if k < v.len() {
                                            assert(w[k] == v[k]);
                                        }
                                    }
                                }
                            },
                        }
                    } else {
                        proof {
                            let v = self.verdicts@;
                            assert(verdict_names(v) + Seq::<Seq<char>>::empty() + listed_names(self.entries@)
                                =~= verdict_names(v) + Seq::<Seq<char>>::empty() + listed_names(entries));
                        }
                    }
                },
            }
        }
    }
}

impl Listing {
    /// Advances the listing with the outcome of the pending request (or
    /// `Start`).
    #[verifier::rlimit(50)]
    pub fn step(&mut self, event: Event) -> (s: Step<ProfileListing>)
        requires
            old(self).wf(),
            !old(self).is_done(),
        ensures
            listing_step(*old(self), event, *final(self), s),
    {
        broadcast use vstd::seq_lib::group_to_multiset_ensures;

        match self.stage {
            ListStage::Begin => {
                self.stage = ListStage::RootExists;
                Step::Ask(self.pending_request())
            },
            ListStage::RootExists => match event {
                Event::Exists(found) => {
                    if found {
                        self.stage = ListStage::RootKind;
                        Step::Ask(self.pending_request())
                    } else {
                        self.stage = ListStage::Done;
                        let l = ProfileListing::default();
                        proof {
                            lemma_empty_multiset(accepted(self.verdicts@));
                            lemma_empty_multiset(l.profiles@);
                            lemma_empty_multiset(names(l.ignored@));
                            lemma_empty_multiset(
                                refusals(self.verdicts@).map_values(|r: (Seq<char>, AppError)| r.0),
                            );
                            assert(verdict_names(self.verdicts@) =~= listed_names(self.received@));
                        }
                        Step::Finished(Ok(l))
                    }
                },
                _ => Step::Ask(self.pending_request()),
            },
            ListStage::RootKind => match event {
                Event::Inspected(observed) => match ensure_real_directory(&self.root, observed) {
                    Ok(()) => {
                        self.stage = ListStage::RootMode;
                        Step::Ask(self.pending_request())
                    },
                    Err(e) => {
                        self.stage = ListStage::Done;
                        Step::Finished(Err(e))
                    },
                },
                _ => Step::Ask(self.pending_request()),
            },
            ListStage::RootMode => match event {
                Event::Inspected(observed) => match ensure_private_mode(
                    &self.root,
                    observed,
                    DIRECTORY_MODE,
                    "profile storage root",
                    self.unix,
                ) {
                    Ok(()) => {
                        self.stage = ListStage::Reading;
                        Step::Ask(self.pending_request())
                    },
                    Err(e) => {
                        self.stage = ListStage::Done;
                        Step::Finished(Err(e))
                    },
                },
                _ => Step::Ask(self.pending_request()),
            },
            ListStage::Reading => match event {
                Event::Entries(Err(error)) => {
                    self.stage = ListStage::Done;
                    let context = context_text("could not list ", &self.root);
                    Step::Finished(Err(AppError::io(context, error)))
                },
                Event::Entries(Ok(entries)) => {
                    self.received = Ghost(entries@);
                    self.entries = entries;
                    proof {
                        assert(self.entries@ =~= self.received@.skip(0));
                        assert(verdict_names(self.verdicts@) =~= Seq::<Seq<char>>::empty());
                        assert(verdict_names(self.verdicts@) + Seq::<Seq<char>>::empty()
                            + listed_names(self.entries@) =~= listed_names(self.received@));
                        assert(accepted(self.verdicts@) =~= self.profiles@);
                    }
                    self.stage = ListStage::Checking;
                    self.advance()
                },
                _ => Step::Ask(self.pending_request()),
            },
            ListStage::Checking => {
                let answer = self.check.step(event);
                let ghost stepped = self.check;
                let ghost said = answer;
                self.judged = Ghost(stepped);
                self.judgment = Ghost(said);
                match answer {
                    Step::Ask(req) => Step::Ask(req),
                    Step::Finished(outcome) => {
                        let ghost v = self.verdicts@;
                        let name = self.current.clone();
                        proof {
                            if outcome is Ok {
                                join_valid_name(self.root@, name@);
                            }
                        }
                        self.record(name, outcome);
                        proof {
                            let w = self.verdicts@;
                            lemma_verdict_push(v, w.last());
                            assert(verdict_names(w) + Seq::<Seq<char>>::empty() + listed_names(
                                self.entries@,
                            ) =~= verdict_names(v) + seq![self.current@] + listed_names(self.entries@));
                            assert forall|i: int| 0 <= i < w.len() implies is_sound_verdict(
                                self.root@,
                                #[trigger] w[i],
                            ) by {
                                if i < v.len() {
                                    assert(w[i] == v[i]);
                                }
                            }
                        }
                        let ghost w = self.verdicts@;
                        let s = self.advance();
                        proof {
                            let f = self.verdicts@;
                            assert(f.take(w.len() as int) == w);
                            assert(f[v.len() as int] == f.take(w.len() as int)[v.len() as int]);
                            assert(f.take(v.len() as int) =~= w.take(v.len() as int));
                            assert(w.take(v.len() as int) =~= v);
                        }
                        s
                    },
                }
            },
            ListStage::Done => Step::Ask(Request::ReadDir(self.root.copy())),
        }
    }
}

impl ProfileStore {
    /// Begins listing the profiles under the storage root
    /// (`ProfileStore::list`).
    pub fn list(&self) -> (l: Listing)
        ensures
            l.wf(),
            l.rank() == 0,
            !l.is_done(),
            l.root() == self@,
            l.unix() == self.unix(),
            l.received().len() == 0,
            l.verdicts().len() == 0,
            begins_listing(*self, l),
    {
        let unix = self.checks_permissions();
        let check = OwnedCheck::new(self.root(), "", unix);
        let ghost judged = check;
        Listing {
            root: self.root().copy(),
            unix,
            stage: ListStage::Begin,
            received: Ghost(Seq::empty()),
            entries: Vec::new(),
            current: String::new(),
            check,
            profiles: Vec::new(),
            ignored: Vec::new(),
            verdicts: Ghost(Seq::empty()),
            judged: Ghost(judged),
            judgment: Ghost(arbitrary()),
        }
    }
}

/// A listing reads no file but the ownership markers of entries with valid
/// names directly inside the root.
pub proof fn listing_reads_only_markers(l: Listing, p: Seq<PartView>)
    requires
        l.wf(),
        l.pending() == Some(RequestView::ReadText(p)),
    ensures
        exists|name: Seq<char>|
            is_valid_name_text(name) && p == l.root().push(PartView::Normal(name)).push(
                PartView::Normal(MARKER_FILE@),
            ),
{
    crate::store::ownership_check_reads_only_the_marker(l.check(), p);
    assert(is_valid_name_text(l.check().name()));
}

/// While an entry is under check, the verdicts so far and the name under
/// check are the first names the listing considers, in order.
pub proof fn listing_progress(l: Listing)
    requires
        l.wf(),
        l.rank() == 5,
    ensures
        verdict_names(l.verdicts()).push(l.current()) == listed_names(l.received()).take(
            l.verdicts().len() + 1int,
        ),
{
    let v = verdict_names(l.verdicts@);
    let whole = listed_names(l.received@);
    let rest = listed_names(l.entries@);
    assert(v + seq![l.current@] + rest == whole);
    assert(whole.take(v.len() + 1int) =~= v.push(l.current@));
}

} // verus!

verus! {

/// A listing first asks whether the root exists; when it does not, the
/// listing is empty.
pub proof fn missing_root_lists_nothing(
    l0: Listing,
    e0: Event,
    l1: Listing,
    s1: Step<ProfileListing>,
    l2: Listing,
    s2: Step<ProfileListing>,
)
    requires
        l0.wf(),
        l0.rank() == 0,
        listing_step(l0, e0, l1, s1),
        listing_step(l1, Event::Exists(false), l2, s2),
    ensures
        s1 matches Step::Ask(r) && r@ == RequestView::Exists(l0.root()),
        s2 matches Step::Finished(Ok(l)) && l.profiles@.len() == 0 && l.ignored@.len() == 0,
{
}

/// `l` is what `ProfileStore::list` on `store` begins with.
pub open spec fn begins_listing(store: ProfileStore, l: Listing) -> bool {
    &&& l.wf()
    &&& l.rank() == 0
    &&& !l.is_done()
    &&& l.root() == store@
    &&& l.unix() == store.unix()
    &&& l.received().len() == 0
    &&& l.verdicts().len() == 0
}

/// A run of a listing begun by `ProfileStore::list` on `store`: `ls[0]` is
/// what `list` returned, and stepping `ls[i]` with `events[i]` gave
/// `ls[i + 1]` and answered `answers[i]`.
pub open spec fn is_listing_run(
    store: ProfileStore,
    ls: Seq<Listing>,
    events: Seq<Event>,
    answers: Seq<Step<ProfileListing>>,
) -> bool {
    &&& ls.len() == events.len() + 1
    &&& answers.len() == events.len()
    &&& begins_listing(store, ls[0])
    &&& forall|i: int|
        0 <= i < events.len() ==> #[trigger] listing_step(ls[i], events[i], ls[i + 1], answers[i])
}

/// `p` is the ownership marker of a validly named entry directly inside
/// `root`.
pub open spec fn is_marker_in(root: Seq<PartView>, p: Seq<PartView>) -> bool {
    exists|name: Seq<char>|
        is_valid_name_text(name) && p == root.push(PartView::Normal(name)).push(
            PartView::Normal(MARKER_FILE@),
        )
}

/// What a listing may ask: nothing that changes the disk, and no file read
/// but an ownership marker in `root`.
pub open spec fn only_looks(root: Seq<PartView>, s: Step<ProfileListing>) -> bool {
    s matches Step::Ask(r) ==> {
        &&& !is_modification(r@)
        &&& r@ matches RequestView::ReadText(p) ==> is_marker_in(root, p)
    }
}

proof fn lemma_listing_run_prefix(
    store: ProfileStore,
    ls: Seq<Listing>,
    events: Seq<Event>,
    answers: Seq<Step<ProfileListing>>,
    k: int,
)
    requires
        is_listing_run(store, ls, events, answers),
        0 <= k < ls.len(),
    ensures
        ls[k].wf(),
        ls[k].root() == store@,
    decreases k,
{
    if k > 0 {
        let j = k - 1;
        lemma_listing_run_prefix(store, ls, events, answers, j);
        assert(0 <= j < events.len());
        assert(listing_step(ls[j], events[j], ls[j + 1], answers[j]));
        assert(j + 1 == k);
    }
}

/// Listing the profiles (`ProfileStore::list`) over a whole run: every step
/// works on the storage root of `store`; no request changes anything on
/// disk, and no file is read but the ownership markers of validly named
/// entries directly inside that root; and a run that succeeds lists that
/// root: each entry it considers got one verdict in order, the profiles are
/// the owned ones and the ignored entries the refused ones with their
/// messages, both sorted by name.
pub proof fn listing_run_lists_the_root(
    store: ProfileStore,
    ls: Seq<Listing>,
    events: Seq<Event>,
    answers: Seq<Step<ProfileListing>>,
)
    requires
        is_listing_run(store, ls, events, answers),
    ensures
        forall|i: int| 0 <= i < ls.len() ==> (#[trigger] ls[i]).root() == store@,
        forall|i: int| 0 <= i < answers.len() ==> only_looks(store@, #[trigger] answers[i]),
        forall|i: int|
            0 <= i < answers.len() ==> ((#[trigger] answers[i]) matches Step::Finished(Ok(pl))
                ==> is_listing_of(store@, ls[i + 1].received(), ls[i + 1].verdicts(), pl)),
{
    assert forall|i: int| 0 <= i < ls.len() implies (#[trigger] ls[i]).root() == store@ by {
        lemma_listing_run_prefix(store, ls, events, answers, i);
    }
    assert forall|i: int| 0 <= i < answers.len() implies only_looks(store@, #[trigger] answers[i]) by {
        lemma_listing_run_prefix(store, ls, events, answers, i);
        lemma_listing_run_prefix(store, ls, events, answers, i + 1);
        assert(listing_step(ls[i], events[i], ls[i + 1], answers[i]));
        let l = ls[i + 1];
        if let Step::Ask(r) = answers[i] {
            assert(l.pending() == Some(r@));
            if l.stage is Checking {
                ownership_check_modifies_nothing(l.check);
            }
            if let RequestView::ReadText(p) = r@ {
                listing_reads_only_markers(l, p);
            }
        }
    }
    assert forall|i: int|
        0 <= i < answers.len() implies ((#[trigger] answers[i]) matches Step::Finished(Ok(pl))
            ==> is_listing_of(store@, ls[i + 1].received(), ls[i + 1].verdicts(), pl)) by {
        lemma_listing_run_prefix(store, ls, events, answers, i);
        assert(listing_step(ls[i], events[i], ls[i + 1], answers[i]));
    }
}

} // verus!
