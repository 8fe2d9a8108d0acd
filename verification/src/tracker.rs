//! The tracker: a record store and a refresh controller run together, so
//! that every mutation that commits is counted and the list that is shown
//! after a render cycle is the list that the store holds.

use vstd::prelude::*;
use crate::clock::Timestamp;
use crate::error::Failure;
use crate::error::FailureView;
use crate::ident::Id;
use crate::model::AllApplicationsResponse;
use crate::model::CreateApplicationRequest;
use crate::refresh::ListState;
use crate::refresh::ListStateView;
use crate::refresh::Mutation;
use crate::refresh::Refresher;
use crate::refresh::RefresherView;
use crate::refresh::VersionKey;
use crate::service::create_application;
use crate::service::create_application_as;
use crate::service::get_all_applications;
use crate::service::refused_by_store;
use crate::service::requested;
use crate::service::written_to_store;
use crate::status::Status;
use crate::store::Store;
use crate::store::StoreView;

verus! {

/// The mathematical value of a `Tracker`.
pub struct TrackerView {
    pub store: StoreView,
    pub refresher: RefresherView,
}

impl TrackerView {
    /// The tracker before anything has happened.
    pub open spec fn initial() -> TrackerView {
        TrackerView { store: StoreView::empty(), refresher: RefresherView::initial() }
    }

    /// What every tracker maintains: both parts are well formed, and the
    /// list is never stale. Unless a fetch is due, the list that is shown is
    /// the list that the store holds.
    pub open spec fn wf(self) -> bool {
        &&& self.store.wf()
        &&& self.refresher.wf()
        &&& !self.refresher.is_stale() ==> self.refresher.list == ListStateView::Ready(
            self.store.listing(),
        )
    }

    /// Whether the counter of the given kind of mutation can go up.
    pub open spec fn has_room(self, kind: Mutation) -> bool {
        self.refresher.versions.count(kind) < u64::MAX
    }
}

/// The two parts, as plain data.
struct Parts {
    store: Store,
    refresher: Refresher,
}

impl Parts {
    fn new() -> (parts: Parts)
        ensures
            parts.store@ == StoreView::empty(),
            parts.refresher@ == RefresherView::initial(),
    {
        Parts { store: Store::new(), refresher: Refresher::new() }
    }
}

/// The tracker.
pub struct Tracker {
    parts: Parts,
}

impl View for Tracker {
    type V = TrackerView;

    closed spec fn view(&self) -> TrackerView {
        TrackerView { store: self.parts.store@, refresher: self.parts.refresher@ }
    }
}

impl Tracker {
    /// What holds of every tracker.
    #[verifier::type_invariant]
    pub open spec fn well_formed(self) -> bool {
        self@.wf()
    }

    /// A tracker with an empty store, before anything has happened.
    pub fn new() -> (tracker: Tracker)
        ensures
            tracker@ == TrackerView::initial(),
            tracker@.wf(),
    {
        Tracker { parts: Parts::new() }
    }

    /// Hands out the parts and leaves a fresh tracker until they are put
    /// back.
    fn take_parts(&mut self) -> (parts: Parts)
        ensures
            parts.store@ == old(self)@.store,
            parts.refresher@ == old(self)@.refresher,
            old(self)@.wf(),
    {
        proof {
            use_type_invariant(&*self);
        }
        let mut parts = Parts::new();
        std::mem::swap(&mut self.parts, &mut parts);
        parts
    }

    /// The record store.
    pub fn store(&self) -> (store: &Store)
        ensures
            store@ == self@.store,
    {
        &self.parts.store
    }

    /// The present tuple of version counters.
    pub fn key(&self) -> (key: VersionKey)
        ensures
            key == self@.refresher.versions,
    {
        self.parts.refresher.key()
    }

    /// What the list shows.
    pub fn list(&self) -> (list: &ListState)
        ensures
            list@ == self@.refresher.list,
    {
        self.parts.refresher.list()
    }

    /// Whether the counter of the given kind of mutation can go up.
    pub fn has_room(&self, kind: Mutation) -> (room: bool)
        ensures
            room == self@.has_room(kind),
    {
        self.parts.refresher.can_record(kind)
    }

    /// Creates the application that `req` asks for under the given
    /// identifiers and creation instant, and counts the mutation if it
    /// committed.
    pub fn create_as(
        &mut self,
        req: CreateApplicationRequest,
        company_id: Id,
        application_id: Id,
        date: Timestamp,
    ) -> (outcome: Result<(), Failure>)
        requires
            old(self)@.has_room(Mutation::Create),
        ensures
            final(self)@.wf(),
            final(self)@.refresher == old(self)@.refresher.recorded(
                Mutation::Create,
                outcome is Ok,
            ),
            match req@.company.missing_field() {
                Some(field) => outcome matches Err(failure) && failure@ == (
                FailureView::MissingField { field }) && final(self)@.store == old(self)@.store,
                None => {
                    let application = requested(req, company_id, application_id, date)@;
                    &&& final(self)@.store == old(self)@.store.after_insertion(application)
                    &&& match old(self)@.store.refusal(application) {
                        Some(table) => outcome matches Err(failure) && failure@ == (
                        FailureView::DuplicateKey { table }),
                        None => outcome is Ok && old(self)@.store.gains(
                            final(self)@.store,
                            application.listed(),
                        ),
                    }
                },
            },
    {
        let mut parts = self.take_parts();
        let outcome = create_application_as(
            &mut parts.store,
            req,
            company_id,
            application_id,
            date,
        );
        parts.refresher.record(Mutation::Create, outcome.is_ok());
        self.parts = parts;
        outcome
    }

    /// Creates the application that `req` asks for, under fresh random
    /// identifiers and with the present instant as its creation instant, and
    /// counts the mutation if it committed. A request with an empty company
    /// field is rejected before anything is drawn or written; every other
    /// request is written unless an identifier that was drawn for it is
    /// taken.
    pub fn create(&mut self, req: CreateApplicationRequest) -> (outcome: Result<(), Failure>)
        requires
            old(self)@.has_room(Mutation::Create),
        ensures
            final(self)@.wf(),
            final(self)@.refresher == old(self)@.refresher.recorded(
                Mutation::Create,
                outcome is Ok,
            ),
            match req@.company.missing_field() {
                Some(field) => outcome matches Err(failure) && failure@ == (
                FailureView::MissingField { field }) && final(self)@.store == old(self)@.store,
                None => match outcome {
                    Ok(()) => written_to_store(old(self)@.store, final(self)@.store, req@),
                    Err(failure) => final(self)@.store == old(self)@.store && refused_by_store(
                        old(self)@.store,
                        req@,
                        failure@,
                    ),
                },
            },
    {
        let mut parts = self.take_parts();
        let outcome = create_application(&mut parts.store, req);
        parts.refresher.record(Mutation::Create, outcome.is_ok());
        self.parts = parts;
        outcome
    }

    /// Deletes the application with identifier `id` and counts the
    /// mutation. Where there is no such application the store stays as it
    /// is, and the mutation still counts as committed.
    pub fn delete(&mut self, id: Id) -> (outcome: Result<(), Failure>)
        requires
            old(self)@.has_room(Mutation::Delete),
        ensures
            outcome is Ok,
            final(self)@.wf(),
            final(self)@.store == old(self)@.store.without_application(id),
            final(self)@.refresher == old(self)@.refresher.recorded(Mutation::Delete, true),
    {
        let mut parts = self.take_parts();
        let outcome = parts.store.delete_application(id);
        parts.refresher.record(Mutation::Delete, outcome.is_ok());
        self.parts = parts;
        outcome
    }

    /// Gives the application with identifier `id` the status `status` and
    /// counts the mutation. Where there is no such application the store
    /// stays as it is, and the mutation still counts as committed.
    pub fn update_status(&mut self, id: Id, status: Status) -> (outcome: Result<(), Failure>)
        requires
            old(self)@.has_room(Mutation::UpdateStatus),
        ensures
            outcome is Ok,
            final(self)@.wf(),
            final(self)@.store == old(self)@.store.with_status(id, status),
            final(self)@.refresher == old(self)@.refresher.recorded(
                Mutation::UpdateStatus,
                true,
            ),
    {
        let mut parts = self.take_parts();
        let outcome = parts.store.update_application_status(id, status);
        parts.refresher.record(Mutation::UpdateStatus, outcome.is_ok());
        self.parts = parts;
        outcome
    }

    /// One render cycle. Where the counters have changed since the last
    /// fetch, the list is read from the store once; otherwise nothing is
    /// read. Either way the list that is shown afterwards is the list that
    /// the store holds. Says whether the list was read.
    pub fn render(&mut self) -> (fetched: bool)
        ensures
            final(self)@.wf(),
            fetched == old(self)@.refresher.is_stale(),
            final(self)@.store == old(self)@.store,
            final(self)@.refresher.versions == old(self)@.refresher.versions,
            final(self)@.refresher.requested == Some(old(self)@.refresher.versions),
            final(self)@.refresher.list == ListStateView::Ready(old(self)@.store.listing()),
    {
        let mut parts = self.take_parts();
        let fetched = match parts.refresher.poll() {
            Some(tag) => {
                let listed = get_all_applications(&parts.store);
                proof {
                    let entries = listed->Ok_0;
                    assert(entries@.map_values(|entry: AllApplicationsResponse| entry@)
                        =~= parts.store@.listing());
                }
                parts.refresher.deliver(tag, listed);
                true
            },
            None => false,
        };
        self.parts = parts;
        fetched
    }
}

} // verus!
