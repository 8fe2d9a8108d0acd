//! The refresh controller: one version counter per kind of mutation, and a
//! list that is fetched again exactly when the tuple of counters has
//! changed since the last fetch was started.

use vstd::prelude::*;
use crate::error::Failure;
use crate::error::FailureView;
use crate::model::AllApplicationsResponse;
use crate::model::AllApplicationsResponseView;

verus! {

/// The kinds of mutation, each with a version counter of its own.
#[derive(Clone, Copy, PartialEq, Eq, Structural, Debug, Hash)]
pub enum Mutation {
    Create,
    Delete,
    UpdateStatus,
}

/// The tuple of the three version counters. It is the key under which a
/// list result is cached, and the tag that a fetch carries.
#[derive(Clone, Copy, PartialEq, Eq, Structural, Debug, Hash)]
pub struct VersionKey {
    pub create: u64,
    pub delete: u64,
    pub update: u64,
}

impl VersionKey {
    /// The key before any mutation.
    pub open spec fn zero() -> VersionKey {
        VersionKey { create: 0, delete: 0, update: 0 }
    }

    /// The counter of one kind of mutation.
    pub open spec fn count(self, kind: Mutation) -> u64 {
        match kind {
            Mutation::Create => self.create,
            Mutation::Delete => self.delete,
            Mutation::UpdateStatus => self.update,
        }
    }

    /// The key after one more mutation of the given kind: that counter is
    /// one higher, the others are as they were.
    pub open spec fn bumped(self, kind: Mutation) -> VersionKey {
        match kind {
            Mutation::Create => VersionKey { create: (self.create + 1) as u64, ..self },
            Mutation::Delete => VersionKey { delete: (self.delete + 1) as u64, ..self },
            Mutation::UpdateStatus => VersionKey { update: (self.update + 1) as u64, ..self },
        }
    }

    /// Whether no counter of this key is behind the same counter of
    /// `earlier`.
    pub open spec fn covers(self, earlier: VersionKey) -> bool {
        &&& self.create >= earlier.create
        &&& self.delete >= earlier.delete
        &&& self.update >= earlier.update
    }
}

/// What the list shows. The three states exclude one another, and one of
/// them always holds: a list that failed to load is neither empty nor
/// loading.
#[derive(Debug, PartialEq, Eq)]
pub enum ListState {
    /// A fetch is under way and nothing can be shown yet.
    Loading,
    /// The last fetch failed.
    Failed(Failure),
    /// The last fetch delivered these entries.
    Ready(Vec<AllApplicationsResponse>),
}

/// The mathematical value of a `ListState`.
pub enum ListStateView {
    Loading,
    Failed(FailureView),
    Ready(Seq<AllApplicationsResponseView>),
}

impl View for ListState {
    type V = ListStateView;

    open spec fn view(&self) -> ListStateView {
        match *self {
            ListState::Loading => ListStateView::Loading,
            ListState::Failed(failure) => ListStateView::Failed(failure@),
            ListState::Ready(entries) => ListStateView::Ready(
                entries@.map_values(|entry: AllApplicationsResponse| entry@),
            ),
        }
    }
}

/// The state that the outcome of a fetch puts the list in.
pub open spec fn settled(
    outcome: Result<Vec<AllApplicationsResponse>, Failure>,
) -> ListStateView {
    match outcome {
        Ok(entries) => ListStateView::Ready(
            entries@.map_values(|entry: AllApplicationsResponse| entry@),
        ),
        Err(failure) => ListStateView::Failed(failure@),
    }
}

/// The mathematical value of a `Refresher`.
pub struct RefresherView {
    /// The present tuple of counters.
    pub versions: VersionKey,
    /// The key of the fetch that was started last, if any was.
    pub requested: Option<VersionKey>,
    /// What the list shows.
    pub list: ListStateView,
}

impl RefresherView {
    /// The controller before anything has happened: no mutation, no fetch,
    /// the list loading.
    pub open spec fn initial() -> RefresherView {
        RefresherView {
            versions: VersionKey::zero(),
            requested: None,
            list: ListStateView::Loading,
        }
    }

    /// What every controller maintains: the fetch that was started last was
    /// started for a key that the counters have reached.
    pub open spec fn wf(self) -> bool {
        self.requested matches Some(key) ==> self.versions.covers(key)
    }

    /// Whether a fetch is due: the counters have changed since the last
    /// fetch was started, or none was started yet.
    pub open spec fn is_stale(self) -> bool {
        self.requested != Some(self.versions)
    }

    /// The controller after a mutation of the given kind has completed. A
    /// mutation that failed changes nothing.
    pub open spec fn recorded(self, kind: Mutation, succeeded: bool) -> RefresherView {
        if succeeded {
            RefresherView { versions: self.versions.bumped(kind), ..self }
        } else {
            self
        }
    }

    /// The controller after a render cycle. Where a fetch is due, the cached
    /// list is dropped and one fetch is started for the present key.
    pub open spec fn polled(self) -> RefresherView {
        if self.is_stale() {
            RefresherView {
                versions: self.versions,
                requested: Some(self.versions),
                list: ListStateView::Loading,
            }
        } else {
            self
        }
    }

    /// The key of the fetch that a render cycle starts, if it starts one.
    pub open spec fn due(self) -> Option<VersionKey> {
        if self.is_stale() {
            Some(self.versions)
        } else {
            None
        }
    }

    /// Whether the result of a fetch with tag `tag` is still wanted: it is
    /// the fetch that was started last.
    pub open spec fn accepts(self, tag: VersionKey) -> bool {
        self.requested == Some(tag)
    }

    /// The controller after the fetch with tag `tag` has completed and left
    /// the list in `list`. The result of a fetch that was superseded is
    /// discarded.
    pub open spec fn delivered(self, tag: VersionKey, list: ListStateView) -> RefresherView {
        if self.accepts(tag) {
            RefresherView { list, ..self }
        } else {
            self
        }
    }
}

/// The refresh controller.
pub struct Refresher {
    versions: VersionKey,
    requested: Option<VersionKey>,
    list: ListState,
}

impl View for Refresher {
    type V = RefresherView;

    closed spec fn view(&self) -> RefresherView {
        RefresherView { versions: self.versions, requested: self.requested, list: self.list@ }
    }
}

impl Refresher {
    /// What holds of every controller.
    #[verifier::type_invariant]
    pub open spec fn well_formed(self) -> bool {
        self@.wf()
    }

    /// A controller before anything has happened.
    pub fn new() -> (refresher: Refresher)
        ensures
            refresher@ == RefresherView::initial(),
    {
        Refresher {
            versions: VersionKey { create: 0, delete: 0, update: 0 },
            requested: None,
            list: ListState::Loading,
        }
    }

    /// The present tuple of counters.
    pub fn key(&self) -> (key: VersionKey)
        ensures
            key == self@.versions,
    {
        self.versions
    }

    /// What the list shows.
    pub fn list(&self) -> (list: &ListState)
        ensures
            list@ == self@.list,
    {
        &self.list
    }

    /// The key of the fetch that the next render cycle starts, if it starts
    /// one.
    pub fn due(&self) -> (fetch: Option<VersionKey>)
        ensures
            fetch == self@.due(),
    {
        let stale = match self.requested {
            Some(key) => key != self.versions,
            None => true,
        };
        if stale {
            Some(self.versions)
        } else {
            None
        }
    }

    /// Whether one more mutation of the given kind can be counted.
    pub fn can_record(&self, kind: Mutation) -> (room: bool)
        ensures
            room == (self@.versions.count(kind) < u64::MAX),
    {
        match kind {
            Mutation::Create => self.versions.create < u64::MAX,
            Mutation::Delete => self.versions.delete < u64::MAX,
            Mutation::UpdateStatus => self.versions.update < u64::MAX,
        }
    }

    /// Takes note that a mutation of the given kind has completed. Its
    /// counter goes up by one if the mutation succeeded; a failed mutation
    /// leaves the counters, and with them the list, as they were.
    pub fn record(&mut self, kind: Mutation, succeeded: bool)
        requires
            succeeded ==> old(self)@.versions.count(kind) < u64::MAX,
        ensures
            final(self)@ == old(self)@.recorded(kind, succeeded),
            final(self)@.versions.covers(old(self)@.versions),
            final(self)@.wf(),
    {
        proof {
            use_type_invariant(&*self);
        }
        if succeeded {
            let now = self.versions;
            self.versions = match kind {
                Mutation::Create => VersionKey { create: now.create + 1, ..now },
                Mutation::Delete => VersionKey { delete: now.delete + 1, ..now },
                Mutation::UpdateStatus => VersionKey { update: now.update + 1, ..now },
            };
        }
    }

    /// One render cycle. Where the counters have changed since the last
    /// fetch was started, however many of them and however often, the cached
    /// list is dropped and the key for one new fetch is handed out;
    /// otherwise nothing changes and no fetch is asked for.
    pub fn poll(&mut self) -> (fetch: Option<VersionKey>)
        ensures
            fetch == old(self)@.due(),
            final(self)@ == old(self)@.polled(),
            final(self)@.wf(),
    {
        proof {
            use_type_invariant(&*self);
        }
        let fetch = self.due();
        if fetch.is_some() {
            self.requested = Some(self.versions);
            self.list = ListState::Loading;
        }
        fetch
    }

    /// Takes the outcome of the fetch that was started for the key `tag`.
    /// It becomes what the list shows if that fetch is the one started
    /// last; the outcome of a fetch that was superseded is discarded. Says
    /// whether the outcome was taken.
    pub fn deliver(
        &mut self,
        tag: VersionKey,
        outcome: Result<Vec<AllApplicationsResponse>, Failure>,
    ) -> (taken: bool)
        ensures
            taken == old(self)@.accepts(tag),
            final(self)@ == old(self)@.delivered(tag, settled(outcome)),
            final(self)@.wf(),
    {
        proof {
            use_type_invariant(&*self);
        }
        let wanted = match self.requested {
            Some(key) => key == tag,
            None => false,
        };
        if wanted {
            self.list = match outcome {
                Ok(entries) => ListState::Ready(entries),
                Err(failure) => ListState::Failed(failure),
            };
        }
        wanted
    }
}

impl RefresherView {
    /// The controller after the mutations `kinds` have all succeeded, in
    /// that order.
    pub open spec fn recorded_all(self, kinds: Seq<Mutation>) -> RefresherView
        decreases kinds.len(),
    {
        if kinds.len() == 0 {
            self
        } else {
            self.recorded_all(kinds.drop_last()).recorded(kinds.last(), true)
        }
    }

    /// Whether the counters have room for `count` more mutations of any
    /// kind.
    pub open spec fn has_room(self, count: nat) -> bool {
        &&& self.versions.create + count <= u64::MAX
        &&& self.versions.delete + count <= u64::MAX
        &&& self.versions.update + count <= u64::MAX
    }
}

/// No transition takes a counter back: after a completed mutation, a render
/// cycle or a delivered fetch, the key covers the key before.
pub proof fn lemma_key_never_goes_back(
    before: RefresherView,
    kind: Mutation,
    succeeded: bool,
    tag: VersionKey,
    list: ListStateView,
)
    requires
        before.versions.count(kind) < u64::MAX,
    ensures
        before.recorded(kind, succeeded).versions.covers(before.versions),
        before.polled().versions == before.versions,
        before.delivered(tag, list).versions == before.versions,
{
}

/// Every transition keeps the controller well formed.
pub proof fn lemma_transitions_keep_wf(
    before: RefresherView,
    kind: Mutation,
    succeeded: bool,
    tag: VersionKey,
    list: ListStateView,
)
    requires
        before.wf(),
        before.versions.count(kind) < u64::MAX,
    ensures
        RefresherView::initial().wf(),
        before.recorded(kind, succeeded).wf(),
        before.polled().wf(),
        before.delivered(tag, list).wf(),
{
}

/// A mutation that failed leaves the key and the list untouched.
pub proof fn lemma_failure_changes_nothing(before: RefresherView, kind: Mutation)
    ensures
        before.recorded(kind, false) == before,
{
}

/// No refresh is missed: after a mutation that succeeded, the next render
/// cycle starts a fetch, and starts it for the new key.
pub proof fn lemma_success_is_followed_by_a_fetch(before: RefresherView, kind: Mutation)
    requires
        before.wf(),
        before.versions.count(kind) < u64::MAX,
    ensures
        before.recorded(kind, true).due() == Some(before.versions.bumped(kind)),
        before.recorded(kind, true).polled().list == ListStateView::Loading,
{
}

/// No refresh is repeated: a render cycle that follows another, with no
/// mutation in between, starts no fetch and changes nothing. This holds
/// whether or not the fetch of the first cycle has been delivered.
pub proof fn lemma_one_fetch_per_change(before: RefresherView, tag: VersionKey, list: ListStateView)
    ensures
        before.polled().due() is None,
        before.polled().polled() == before.polled(),
        before.polled().delivered(tag, list).due() is None,
{
}

/// The key after a batch of successful mutations: each counter is higher by
/// the number of mutations of its kind, whatever their order.
pub proof fn lemma_batch_counts(before: RefresherView, kinds: Seq<Mutation>)
    requires
        before.has_room(kinds.len()),
    ensures
        before.recorded_all(kinds).versions.create == before.versions.create + kinds.filter(
            |kind: Mutation| kind == Mutation::Create,
        ).len(),
        before.recorded_all(kinds).versions.delete == before.versions.delete + kinds.filter(
            |kind: Mutation| kind == Mutation::Delete,
        ).len(),
        before.recorded_all(kinds).versions.update == before.versions.update + kinds.filter(
            |kind: Mutation| kind == Mutation::UpdateStatus,
        ).len(),
        before.recorded_all(kinds).requested == before.requested,
        before.recorded_all(kinds).list == before.list,
        before.recorded_all(kinds).versions.covers(before.versions),
    decreases kinds.len(),
{
    let creates = |kind: Mutation| kind == Mutation::Create;
    let deletes = |kind: Mutation| kind == Mutation::Delete;
    let updates = |kind: Mutation| kind == Mutation::UpdateStatus;
    if kinds.len() == 0 {
        assert(kinds.filter(creates).len() == 0);
        assert(kinds.filter(deletes).len() == 0);
        assert(kinds.filter(updates).len() == 0);
    } else {
        let front = kinds.drop_last();
        lemma_batch_counts(before, front);
        assert(front.push(kinds.last()) =~= kinds);
        front.lemma_filter_push(kinds.last(), creates);
        front.lemma_filter_push(kinds.last(), deletes);
        front.lemma_filter_push(kinds.last(), updates);
        front.lemma_filter_len(creates);
        front.lemma_filter_len(deletes);
        front.lemma_filter_len(updates);
    }
}

/// Mutations that complete within one render cycle are answered by one
/// fetch: after any batch of successful mutations, one or many, of one kind
/// or several, the next render cycle starts exactly one fetch, for the key
/// that counts them all, and the cycle after it starts none.
pub proof fn lemma_batch_is_answered_once(before: RefresherView, kinds: Seq<Mutation>)
    requires
        before.wf(),
        before.has_room(kinds.len()),
        kinds.len() > 0,
    ensures
        before.recorded_all(kinds).due() == Some(before.recorded_all(kinds).versions),
        before.recorded_all(kinds).polled().due() is None,
        before.recorded_all(kinds).polled().requested == Some(
            before.recorded_all(kinds).versions,
        ),
{
    let creates = |kind: Mutation| kind == Mutation::Create;
    let deletes = |kind: Mutation| kind == Mutation::Delete;
    let updates = |kind: Mutation| kind == Mutation::UpdateStatus;
    lemma_batch_counts(before, kinds);
    let front = kinds.drop_last();
    assert(front.push(kinds.last()) =~= kinds);
    front.lemma_filter_push(kinds.last(), creates);
    front.lemma_filter_push(kinds.last(), deletes);
    front.lemma_filter_push(kinds.last(), updates);
}

/// The last fetch wins: once a newer fetch has been started, the outcome of
/// an older one is discarded whenever it arrives, before or after the
/// newer one is delivered.
pub proof fn lemma_last_fetch_wins(
    before: RefresherView,
    kind: Mutation,
    older: ListStateView,
    newer: ListStateView,
)
    requires
        before.wf(),
        before.versions.count(kind) < u64::MAX,
    ensures
        ({
            let first = before.polled();
            let second = first.recorded(kind, true).polled();
            let old_tag = first.versions;
            let new_tag = second.versions;
            &&& old_tag != new_tag
            &&& second.delivered(old_tag, older) == second
            &&& second.delivered(new_tag, newer).list == newer
            &&& second.delivered(new_tag, newer).delivered(old_tag, older).list == newer
            &&& second.delivered(old_tag, older).delivered(new_tag, newer).list == newer
        }),
{
}

} // verus!
