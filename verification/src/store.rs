//! The record store: a table of companies and a table of applications that
//! refer to them, written atomically and read as one joined, ordered list.
//! The tables are kept in memory.

use vstd::prelude::*;
use vstd::seq_lib::*;
use vstd::string::*;
use crate::error::Failure;
use crate::error::FailureView;
use crate::error::Table;
use crate::ident::Id;
use crate::model::AllApplicationsResponseView;
use crate::model::Application;
use crate::model::ApplicationRecord;
use crate::model::ApplicationRow;
use crate::model::ApplicationRowView;
use crate::model::ApplicationView;
use crate::model::Company;
use crate::model::CompanyView;
use crate::order::ids_differ;
use crate::order::lemma_newest_first_keeps;
use crate::order::lemma_newest_first_keeps_ids_apart;
use crate::order::lemma_newest_first_keeps_places;
use crate::order::lemma_newest_first_sorts;
use crate::order::lemma_newest_first_without;
use crate::order::lemma_rank_splits;
use crate::order::rank;
use crate::order::newest_first;
use crate::order::sort_newest_first;
use crate::status::lemma_token_round_trip;
use crate::status::Status;
use crate::writer::Step;
use crate::writer::Writing;

verus! {

/// The mathematical value of a `Store`: the rows of its two tables, each in
/// the order in which they were inserted.
pub struct StoreView {
    pub companies: Seq<CompanyView>,
    pub applications: Seq<ApplicationRecord>,
}

impl StoreView {
    /// The store without any row.
    pub open spec fn empty() -> StoreView {
        StoreView { companies: Seq::empty(), applications: Seq::empty() }
    }

    /// Whether `at` is the position of the company with identifier `id`.
    pub open spec fn company_is_at(self, id: Id, at: int) -> bool {
        0 <= at < self.companies.len() && self.companies[at].id == id
    }

    /// Whether `at` is the position of the application with identifier `id`.
    pub open spec fn application_is_at(self, id: Id, at: int) -> bool {
        0 <= at < self.applications.len() && self.applications[at].id == id
    }

    /// Whether the companies table holds a row with identifier `id`.
    pub open spec fn has_company(self, id: Id) -> bool {
        exists|at: int| self.company_is_at(id, at)
    }

    /// Whether the applications table holds a row with identifier `id`.
    pub open spec fn has_application(self, id: Id) -> bool {
        exists|at: int| self.application_is_at(id, at)
    }

    /// The position of the company with identifier `id`.
    pub open spec fn company_index(self, id: Id) -> int {
        choose|at: int| self.company_is_at(id, at)
    }

    /// The position of the application with identifier `id`.
    pub open spec fn application_index(self, id: Id) -> int {
        choose|at: int| self.application_is_at(id, at)
    }

    /// The company with identifier `id`.
    pub open spec fn company(self, id: Id) -> CompanyView {
        self.companies[self.company_index(id)]
    }

    /// What every store maintains: no two rows of a table share an
    /// identifier, and every application refers to a company that is there.
    pub open spec fn wf(self) -> bool {
        &&& forall|i: int, j: int|
            0 <= i < j < self.companies.len() ==> self.companies[i].id != self.companies[j].id
        &&& forall|i: int, j: int|
            0 <= i < j < self.applications.len() ==> self.applications[i].id
                != self.applications[j].id
        &&& forall|i: int|
            0 <= i < self.applications.len() ==> self.has_company(
                (#[trigger] self.applications[i]).company_id,
            )
    }

    /// The list entry for a row of the applications table: the row joined
    /// with its company.
    pub open spec fn entry(self, record: ApplicationRecord) -> AllApplicationsResponseView {
        AllApplicationsResponseView {
            id: record.id,
            company: self.company(record.company_id),
            status: record.status,
            date: record.date.text(),
        }
    }

    /// The row of the list for a row of the applications table: the row
    /// joined with its company, every column written as text.
    pub open spec fn row(self, record: ApplicationRecord) -> ApplicationRowView {
        let company = self.company(record.company_id);
        ApplicationRowView {
            id: record.id.text(),
            status: record.status.token(),
            date: record.date.text(),
            company_id: record.company_id.text(),
            name: company.name,
            website: company.website,
            ceo: company.ceo,
            industry: company.industry,
        }
    }

    /// The rows of the list, newest first.
    pub open spec fn rows(self) -> Seq<ApplicationRowView> {
        newest_first(self.applications).map_values(|record: ApplicationRecord| self.row(record))
    }

    /// The list: every application joined with its company, newest first.
    pub open spec fn listing(self) -> Seq<AllApplicationsResponseView> {
        newest_first(self.applications).map_values(|record: ApplicationRecord| self.entry(record))
    }

    /// Whether the list of `after` is the list of this store with exactly
    /// one row more, the row `entry`: every other row is there as before and
    /// in the same order.
    pub open spec fn gains(self, after: StoreView, entry: AllApplicationsResponseView) -> bool {
        exists|at: int|
            0 <= at <= self.listing().len() && after.listing() == #[trigger] self.listing().insert(
                at,
                entry,
            )
    }

    /// The store after the company and the application of `application`
    /// were inserted.
    pub open spec fn with_application(self, application: ApplicationView) -> StoreView {
        StoreView {
            companies: self.companies.push(application.company),
            applications: self.applications.push(application.record()),
        }
    }

    /// The store after the application with identifier `id` was deleted;
    /// the same store where there is none.
    pub open spec fn without_application(self, id: Id) -> StoreView {
        if self.has_application(id) {
            StoreView {
                companies: self.companies,
                applications: self.applications.remove(self.application_index(id)),
            }
        } else {
            self
        }
    }

    /// The store after the application with identifier `id` was given the
    /// status `status`; the same store where there is none.
    pub open spec fn with_status(self, id: Id, status: Status) -> StoreView {
        if self.has_application(id) {
            let at = self.application_index(id);
            StoreView {
                companies: self.companies,
                applications: self.applications.update(
                    at,
                    ApplicationRecord { status, ..self.applications[at] },
                ),
            }
        } else {
            self
        }
    }

    /// The store after an attempt to insert `application`: with both rows
    /// where the insertion is not refused, and as it was where it is.
    pub open spec fn after_insertion(self, application: ApplicationView) -> StoreView {
        if self.refusal(application) is None {
            self.with_application(application)
        } else {
            self
        }
    }

    /// The failure that refuses the insertion of `application`, if any: the
    /// company is inserted first and the application second, and each is
    /// refused where its table already holds a row with that identifier.
    pub open spec fn refusal(self, application: ApplicationView) -> Option<Table> {
        if self.has_company(application.company.id) {
            Some(Table::Companies)
        } else if self.has_application(application.id) {
            Some(Table::Applications)
        } else {
            None
        }
    }
}

/// In a store that is well formed, a company is found at one position only.
pub proof fn lemma_company_position(store: StoreView, id: Id, at: int)
    requires
        store.wf(),
        store.company_is_at(id, at),
    ensures
        store.has_company(id),
        store.company_index(id) == at,
{
    let chosen = store.company_index(id);
    assert(store.company_is_at(id, chosen));
    if chosen < at {
        assert(store.companies[chosen].id != store.companies[at].id);
    } else if at < chosen {
        assert(store.companies[at].id != store.companies[chosen].id);
    }
}

/// In a store that is well formed, an application is found at one position
/// only.
pub proof fn lemma_application_position(store: StoreView, id: Id, at: int)
    requires
        store.wf(),
        store.application_is_at(id, at),
    ensures
        store.has_application(id),
        store.application_index(id) == at,
{
    let chosen = store.application_index(id);
    assert(store.application_is_at(id, chosen));
    if chosen < at {
        assert(store.applications[chosen].id != store.applications[at].id);
    } else if at < chosen {
        assert(store.applications[at].id != store.applications[chosen].id);
    }
}

/// Inserting a company under an identifier that is not taken keeps the
/// store well formed and every company where it was.
pub proof fn lemma_company_insertion(store: StoreView, company: CompanyView)
    requires
        store.wf(),
        !store.has_company(company.id),
    ensures
        (StoreView { companies: store.companies.push(company), ..store }).wf(),
        (StoreView { companies: store.companies.push(company), ..store }).has_company(company.id),
        forall|id: Id| #[trigger]
            store.has_company(id) ==> (StoreView {
                companies: store.companies.push(company),
                ..store
            }).has_company(id) && (StoreView {
                companies: store.companies.push(company),
                ..store
            }).company(id) == store.company(id),
{
    let after = StoreView { companies: store.companies.push(company), ..store };
    assert forall|i: int, j: int| 0 <= i < j < after.companies.len() implies after.companies[i].id
        != after.companies[j].id by {
        if j == store.companies.len() {
            assert(!store.company_is_at(company.id, i));
        }
    }
    assert(after.company_is_at(company.id, store.companies.len() as int));
    assert forall|id: Id| #[trigger] store.has_company(id) implies after.company_is_at(
        id,
        store.company_index(id),
    ) by {
        assert(store.company_is_at(id, store.company_index(id)));
    }
    assert forall|i: int| 0 <= i < after.applications.len() implies after.has_company(
        (#[trigger] after.applications[i]).company_id,
    ) by {
        assert(store.has_company(store.applications[i].company_id));
    }
    assert forall|id: Id| #[trigger] store.has_company(id) implies after.has_company(id)
        && after.company(id) == store.company(id) by {
        lemma_company_position(after, id, store.company_index(id));
    }
}

/// Inserting an application whose company is there, under an identifier
/// that is not taken, keeps the store well formed.
pub proof fn lemma_application_insertion(store: StoreView, record: ApplicationRecord)
    requires
        store.wf(),
        store.has_company(record.company_id),
        !store.has_application(record.id),
    ensures
        (StoreView { applications: store.applications.push(record), ..store }).wf(),
{
    let after = StoreView { applications: store.applications.push(record), ..store };
    assert forall|i: int, j: int|
        0 <= i < j < after.applications.len() implies after.applications[i].id
        != after.applications[j].id by {
        if j == store.applications.len() {
            assert(!store.application_is_at(record.id, i));
        }
    }
    assert forall|i: int| 0 <= i < after.applications.len() implies after.has_company(
        (#[trigger] after.applications[i]).company_id,
    ) by {
        if i < store.applications.len() {
            let id = store.applications[i].company_id;
            assert(store.has_company(id));
            assert(store.company_is_at(id, store.company_index(id)));
            assert(after.company_is_at(id, store.company_index(id)));
        } else {
            let id = record.company_id;
            assert(store.company_is_at(id, store.company_index(id)));
            assert(after.company_is_at(id, store.company_index(id)));
        }
    }
}

/// Two stores with the same applications table hold the same applications.
pub proof fn lemma_applications_untouched(before: StoreView, after: StoreView, id: Id)
    requires
        after.applications == before.applications,
    ensures
        after.has_application(id) == before.has_application(id),
{
    if after.has_application(id) {
        let at = after.application_index(id);
        assert(after.application_is_at(id, at));
        assert(before.application_is_at(id, at));
    }
    if before.has_application(id) {
        let at = before.application_index(id);
        assert(before.application_is_at(id, at));
        assert(after.application_is_at(id, at));
    }
}

/// Deleting an application keeps the store well formed.
pub proof fn lemma_application_removal(store: StoreView, at: int)
    requires
        store.wf(),
        0 <= at < store.applications.len(),
    ensures
        (StoreView { applications: store.applications.remove(at), ..store }).wf(),
{
    let after = StoreView { applications: store.applications.remove(at), ..store };
    assert forall|i: int, j: int|
        0 <= i < j < after.applications.len() implies after.applications[i].id
        != after.applications[j].id by {
        let from_i = if i < at { i } else { i + 1 };
        let from_j = if j < at { j } else { j + 1 };
        assert(after.applications[i] == store.applications[from_i]);
        assert(after.applications[j] == store.applications[from_j]);
    }
    assert forall|i: int| 0 <= i < after.applications.len() implies after.has_company(
        (#[trigger] after.applications[i]).company_id,
    ) by {
        let from = if i < at { i } else { i + 1 };
        let id = store.applications[from].company_id;
        assert(store.has_company(id));
        assert(store.company_is_at(id, store.company_index(id)));
        assert(after.company_is_at(id, store.company_index(id)));
    }
}

/// Changing the status of an application keeps the store well formed.
pub proof fn lemma_status_change(store: StoreView, at: int, status: Status)
    requires
        store.wf(),
        0 <= at < store.applications.len(),
    ensures
        (StoreView {
            applications: store.applications.update(
                at,
                ApplicationRecord { status, ..store.applications[at] },
            ),
            ..store
        }).wf(),
{
    let after = StoreView {
        applications: store.applications.update(
            at,
            ApplicationRecord { status, ..store.applications[at] },
        ),
        ..store
    };
    assert forall|i: int, j: int|
        0 <= i < j < after.applications.len() implies after.applications[i].id
        != after.applications[j].id by {
        assert(after.applications[i].id == store.applications[i].id);
        assert(after.applications[j].id == store.applications[j].id);
    }
    assert forall|i: int| 0 <= i < after.applications.len() implies after.has_company(
        (#[trigger] after.applications[i]).company_id,
    ) by {
        let id = store.applications[i].company_id;
        assert(store.has_company(id));
        assert(store.company_is_at(id, store.company_index(id)));
        assert(after.company_is_at(id, store.company_index(id)));
    }
}

/// In a store that is well formed, every listed application has its
/// company.
pub proof fn lemma_listed_have_companies(store: StoreView)
    requires
        store.wf(),
    ensures
        forall|i: int|
            0 <= i < newest_first(store.applications).len() ==> store.has_company(
                (#[trigger] newest_first(store.applications)[i]).company_id,
            ),
{
    let listed = newest_first(store.applications);
    assert forall|i: int| 0 <= i < listed.len() implies store.has_company(
        (#[trigger] listed[i]).company_id,
    ) by {
        assert(listed.contains(listed[i]));
        lemma_newest_first_keeps(store.applications, listed[i]);
        let from = choose|from: int|
            0 <= from < store.applications.len() && store.applications[from] == listed[i];
        assert(store.has_company(store.applications[from].company_id));
    }
}

/// After an application has been inserted, the list holds exactly one new
/// row, which shows the application with its company and status; every
/// other row is as it was and where it was relative to the others.
pub proof fn lemma_insertion_lists_one_new_row(store: StoreView, application: ApplicationView) -> (at:
    int)
    requires
        store.wf(),
        store.refusal(application) is None,
    ensures
        store.with_application(application).wf(),
        0 <= at <= store.listing().len(),
        store.with_application(application).listing() == store.listing().insert(
            at,
            application.listed(),
        ),
        store.gains(store.with_application(application), application.listed()),
{
    let company = application.company;
    let record = application.record();
    let between = StoreView { companies: store.companies.push(company), ..store };
    let after = store.with_application(application);
    lemma_company_insertion(store, company);
    assert(!between.has_application(record.id)) by {
        if between.has_application(record.id) {
            let found = between.application_index(record.id);
            assert(between.application_is_at(record.id, found));
            assert(store.application_is_at(record.id, found));
        }
    }
    lemma_application_insertion(between, record);
    assert(after == (StoreView { applications: between.applications.push(record), ..between }));
    let earlier = newest_first(store.applications);
    let at = rank(earlier, record.date);
    lemma_rank_splits(earlier, record.date);
    lemma_newest_first_sorts(store.applications);
    lemma_listed_have_companies(store);
    assert(after.applications.drop_last() =~= store.applications);
    assert(newest_first(after.applications) == earlier.insert(at, record));
    assert(after.company_is_at(company.id, store.companies.len() as int));
    lemma_company_position(after, company.id, store.companies.len() as int);
    assert(after.entry(record) == application.listed());
    assert forall|i: int| 0 <= i < earlier.len() implies after.entry(#[trigger] earlier[i])
        == store.entry(earlier[i]) by {
        let id = earlier[i].company_id;
        assert(store.has_company(id));
        assert(store.company_is_at(id, store.company_index(id)));
        assert(after.company_is_at(id, store.company_index(id)));
        lemma_company_position(after, id, store.company_index(id));
    }
    assert(after.listing() =~= store.listing().insert(at, application.listed()));
    at
}

/// A write that fails leaves no trace. Where the insertion of an
/// application is refused, be it at the company or, with the company
/// already inserted, at the application, the store is as it was: the list
/// is the same, and a company is there exactly if it was there before.
pub proof fn lemma_refused_insertion_leaves_no_trace(
    store: StoreView,
    application: ApplicationView,
)
    requires
        store.refusal(application) is Some,
    ensures
        store.after_insertion(application) == store,
        store.after_insertion(application).listing() == store.listing(),
        forall|id: Id| #[trigger]
            store.after_insertion(application).has_company(id) == store.has_company(id),
{
}

/// After an application has been deleted, the list is the list without the
/// row of that application.
pub proof fn lemma_deletion_unlists_one_row(store: StoreView, id: Id) -> (at: int)
    requires
        store.wf(),
        store.has_application(id),
    ensures
        store.without_application(id).wf(),
        0 <= at < store.listing().len(),
        store.listing()[at].id == id,
        store.without_application(id).listing() == store.listing().remove(at),
{
    let from = store.application_index(id);
    assert(store.application_is_at(id, from));
    let after = store.without_application(id);
    lemma_application_removal(store, from);
    let at = lemma_newest_first_without(store.applications, from);
    let listed = newest_first(store.applications);
    lemma_listed_have_companies(store);
    assert forall|i: int| 0 <= i < listed.len() implies after.entry(#[trigger] listed[i])
        == store.entry(listed[i]) by {
        let company_id = listed[i].company_id;
        assert(store.has_company(company_id));
        assert(store.company_is_at(company_id, store.company_index(company_id)));
        assert(after.company_is_at(company_id, store.company_index(company_id)));
        lemma_company_position(after, company_id, store.company_index(company_id));
    }
    assert(after.listing() =~= store.listing().remove(at));
    at
}

/// Deleting an application that is not there leaves the store, and with it
/// the list, unchanged.
pub proof fn lemma_deleting_nothing_changes_nothing(store: StoreView, id: Id)
    requires
        !store.has_application(id),
    ensures
        store.without_application(id) == store,
        store.without_application(id).listing() == store.listing(),
{
}

/// After the status of an application has been changed, its row of the list
/// shows the new status; the row stays in its place, and every other row is
/// as it was.
pub proof fn lemma_status_change_relists_one_row(store: StoreView, id: Id, status: Status) -> (at:
    int)
    requires
        store.wf(),
        store.has_application(id),
    ensures
        store.with_status(id, status).wf(),
        0 <= at < store.listing().len(),
        store.listing()[at].id == id,
        store.with_status(id, status).listing() == store.listing().update(
            at,
            AllApplicationsResponseView { status, ..store.listing()[at] },
        ),
{
    let from = store.application_index(id);
    assert(store.application_is_at(id, from));
    let after = store.with_status(id, status);
    lemma_status_change(store, from, status);
    let change = |record: ApplicationRecord|
        if record.id == id {
            ApplicationRecord { status, ..record }
        } else {
            record
        };
    assert(after.applications =~= store.applications.map_values(change)) by {
        assert forall|i: int| 0 <= i < store.applications.len() implies after.applications[i]
            == change(store.applications[i]) by {
            if i != from {
                if i < from {
                    assert(store.applications[i].id != store.applications[from].id);
                } else {
                    assert(store.applications[from].id != store.applications[i].id);
                }
            }
        }
    }
    lemma_newest_first_keeps_places(store.applications, change);
    let at = lemma_newest_first_without(store.applications, from);
    let listed = newest_first(store.applications);
    assert(ids_differ(store.applications));
    lemma_newest_first_keeps_ids_apart(store.applications);
    lemma_listed_have_companies(store);
    assert forall|i: int| 0 <= i < listed.len() implies after.listing()[i]
        == store.listing().update(
        at,
        AllApplicationsResponseView { status, ..store.listing()[at] },
    )[i] by {
        let company_id = listed[i].company_id;
        assert(store.has_company(company_id));
        assert(store.company_is_at(company_id, store.company_index(company_id)));
        assert(after.company_is_at(company_id, store.company_index(company_id)));
        lemma_company_position(after, company_id, store.company_index(company_id));
        if i != at {
            if i < at {
                assert(listed[i].id != listed[at].id);
            } else {
                assert(listed[at].id != listed[i].id);
            }
        }
    }
    assert(after.listing() =~= store.listing().update(
        at,
        AllApplicationsResponseView { status, ..store.listing()[at] },
    ));
    at
}

/// Changing the status of an application that is not there leaves the
/// store, and with it the list, unchanged.
pub proof fn lemma_changing_nothing_changes_nothing(store: StoreView, id: Id, status: Status)
    requires
        !store.has_application(id),
    ensures
        store.with_status(id, status) == store,
        store.with_status(id, status).listing() == store.listing(),
{
}

/// The two tables, as plain data.
struct Tables {
    companies: Vec<Company>,
    applications: Vec<ApplicationRecord>,
}

impl View for Tables {
    type V = StoreView;

    closed spec fn view(&self) -> StoreView {
        StoreView {
            companies: self.companies@.map_values(|company: Company| company@),
            applications: self.applications@,
        }
    }
}

impl Tables {
    fn new() -> (tables: Tables)
        ensures
            tables@ == StoreView::empty(),
    {
        let tables = Tables { companies: Vec::new(), applications: Vec::new() };
        assert(tables@.companies =~= Seq::empty());
        tables
    }

    /// The position of the company with identifier `id`, if there is one.
    fn find_company(&self, id: Id) -> (found: Option<usize>)
        requires
            self@.wf(),
        ensures
            match found {
                Some(at) => self@.has_company(id) && self@.company_index(id) == at
                    && at < self.companies.len(),
                None => !self@.has_company(id),
            },
    {
        let mut at: usize = 0;
        while at < self.companies.len()
            invariant
                self@.wf(),
                at <= self.companies.len(),
                forall|i: int| 0 <= i < at ==> !self@.company_is_at(id, i),
            decreases self.companies.len() - at,
        {
            if self.companies[at].id == id {
                proof {
                    lemma_company_position(self@, id, at as int);
                }
                return Some(at);
            }
            at += 1;
        }
        None
    }

    /// The position of the application with identifier `id`, if there is
    /// one.
    fn find_application(&self, id: Id) -> (found: Option<usize>)
        requires
            self@.wf(),
        ensures
            match found {
                Some(at) => self@.has_application(id) && self@.application_index(id) == at
                    && at < self.applications.len(),
                None => !self@.has_application(id),
            },
    {
        let mut at: usize = 0;
        while at < self.applications.len()
            invariant
                self@.wf(),
                at <= self.applications.len(),
                forall|i: int| 0 <= i < at ==> !self@.application_is_at(id, i),
            decreases self.applications.len() - at,
        {
            if self.applications[at].id == id {
                proof {
                    lemma_application_position(self@, id, at as int);
                }
                return Some(at);
            }
            at += 1;
        }
        None
    }

    /// Inserts a company; refused where the identifier is taken.
    fn insert_company(&mut self, company: Company) -> (inserted: bool)
        requires
            old(self)@.wf(),
        ensures
            final(self)@.wf(),
            inserted == !old(self)@.has_company(company.id),
            final(self)@ == if inserted {
                StoreView { companies: old(self)@.companies.push(company@), ..old(self)@ }
            } else {
                old(self)@
            },
    {
        if self.find_company(company.id).is_some() {
            return false;
        }
        proof {
            lemma_company_insertion(self@, company@);
            assert(self.companies@.push(company).map_values(|company: Company| company@)
                =~= self@.companies.push(company@));
        }
        self.companies.push(company);
        true
    }

    /// Inserts an application whose company is there; refused where the
    /// identifier is taken.
    fn insert_record(&mut self, record: ApplicationRecord) -> (inserted: bool)
        requires
            old(self)@.wf(),
            old(self)@.has_company(record.company_id),
        ensures
            final(self)@.wf(),
            inserted == !old(self)@.has_application(record.id),
            final(self)@ == if inserted {
                StoreView { applications: old(self)@.applications.push(record), ..old(self)@ }
            } else {
                old(self)@
            },
    {
        if self.find_application(record.id).is_some() {
            return false;
        }
        proof {
            lemma_application_insertion(self@, record);
        }
        self.applications.push(record);
        true
    }

    /// The row of the list for `record`, whose company is there.
    fn row(&self, record: &ApplicationRecord) -> (row: ApplicationRow)
        requires
            self@.wf(),
            self@.has_company(record.company_id),
        ensures
            row@ == self@.row(*record),
            row@.holds(self@.entry(*record)),
    {
        let company = match self.find_company(record.company_id) {
            Some(at) => &self.companies[at],
            None => {
                proof {
                    assert(false);
                }
                &self.companies[0]
            },
        };
        proof {
            lemma_token_round_trip(record.status);
            assert(self@.company_is_at(record.company_id, self@.company_index(record.company_id)));
        }
        ApplicationRow {
            id: record.id.to_text(),
            status: String::from_str(record.status.as_str()),
            date: record.date.to_text(),
            company_id: record.company_id.to_text(),
            name: company.name.clone(),
            website: company.website.clone(),
            ceo: company.ceo.clone(),
            industry: company.industry.clone(),
        }
    }

    /// Takes back what was written since the tables held `companies`
    /// companies and were in the state `before`: at most the company row
    /// that was inserted last.
    fn roll_back(
        &mut self,
        companies: usize,
        Ghost(before): Ghost<StoreView>,
        Ghost(company): Ghost<CompanyView>,
    )
        requires
            companies == before.companies.len(),
            old(self)@ == before || old(self)@ == (StoreView {
                companies: before.companies.push(company),
                ..before
            }),
        ensures
            final(self)@ == before,
    {
        proof {
            let kept = self.companies@.subrange(0, companies as int).map_values(
                |company: Company| company@,
            );
            assert(self@.companies.len() == self.companies@.len());
            assert forall|i: int| 0 <= i < kept.len() implies kept[i] == before.companies[i] by {
                assert(self@.companies[i] == self.companies@[i]@);
            }
            assert(kept =~= before.companies);
        }
        self.companies.truncate(companies);
    }
}

/// The record store.
pub struct Store {
    tables: Tables,
}

impl View for Store {
    type V = StoreView;

    closed spec fn view(&self) -> StoreView {
        self.tables@
    }
}

impl Store {
    /// What holds of every store: its tables are well formed.
    #[verifier::type_invariant]
    pub open spec fn well_formed(self) -> bool {
        self@.wf()
    }

    /// A store without any row.
    pub fn new() -> (store: Store)
        ensures
            store@ == StoreView::empty(),
            store@.wf(),
    {
        Store { tables: Tables::new() }
    }

    /// Hands out the tables and leaves the store empty until they are put
    /// back.
    fn take_tables(&mut self) -> (tables: Tables)
        ensures
            tables@ == old(self)@,
            tables@.wf(),
    {
        proof {
            use_type_invariant(&*self);
        }
        let mut tables = Tables::new();
        std::mem::swap(&mut self.tables, &mut tables);
        tables
    }

    /// How many applications the store holds.
    pub fn len(&self) -> (count: usize)
        ensures
            count == self@.applications.len(),
    {
        self.tables.applications.len()
    }

    /// Inserts the company of `application` and then the application
    /// itself, as one atomic unit: both rows are there afterwards, or
    /// neither. The steps are those that the writer asks for. An insert is
    /// refused where the table already holds a row with that identifier, and
    /// a refusal is answered by a rollback, which takes back the company
    /// insert if it had succeeded.
    pub fn insert_application(&mut self, application: &Application) -> (outcome: Result<
        (),
        Failure,
    >)
        ensures
            final(self)@.wf(),
            final(self)@ == old(self)@.after_insertion(application@),
            match old(self)@.refusal(application@) {
                Some(table) => outcome matches Err(failure) && failure@ == (
                FailureView::DuplicateKey { table }),
                None => outcome is Ok && old(self)@.gains(final(self)@, application@.listed()),
            },
    {
        let record = ApplicationRecord {
            id: application.id,
            company_id: application.company.id,
            status: application.status,
            date: application.date,
        };
        let mut tables = self.take_tables();
        let ghost before = tables@;
        let ghost between = StoreView {
            companies: before.companies.push(application.company@),
            ..before
        };
        let companies = tables.companies.len();
        let mut refused = Table::Companies;
        let mut writing = Writing::begin();
        while !writing.is_over()
            invariant
                before.wf(),
                companies == before.companies.len(),
                tables@.wf(),
                record == application@.record(),
                between == (StoreView {
                    companies: before.companies.push(application.company@),
                    ..before
                }),
                match writing {
                    Writing::Asking(Step::Begin) => tables@ == before,
                    Writing::Asking(Step::InsertCompany) => tables@ == before,
                    Writing::Asking(Step::InsertApplication) => !before.has_company(
                        application.company.id,
                    ) && tables@ == between,
                    Writing::Asking(Step::Commit) => before.refusal(application@) is None
                        && tables@ == before.with_application(application@),
                    Writing::Asking(Step::RollBack) => before.refusal(application@) == Some(
                        refused,
                    ) && (tables@ == before || tables@ == between),
                    Writing::Committed => before.refusal(application@) is None && tables@
                        == before.with_application(application@),
                    Writing::Aborted => before.refusal(application@) == Some(refused) && tables@
                        == before,
                },
            decreases writing.steps_left(),
        {
            let succeeded = match writing {
                Writing::Asking(Step::Begin) => true,
                Writing::Asking(Step::InsertCompany) => {
                    refused = Table::Companies;
                    tables.insert_company(application.company.clone())
                },
                Writing::Asking(Step::InsertApplication) => {
                    proof {
                        lemma_company_insertion(before, application.company@);
                        lemma_applications_untouched(before, between, record.id);
                    }
                    refused = Table::Applications;
                    tables.insert_record(record)
                },
                Writing::Asking(Step::Commit) => true,
                Writing::Asking(Step::RollBack) => {
                    tables.roll_back(companies, Ghost(before), Ghost(application.company@));
                    true
                },
                _ => true,
            };
            writing = writing.next(succeeded);
        }
        self.tables = tables;
        if writing.is_committed() {
            proof {
                lemma_insertion_lists_one_new_row(before, application@);
            }
            Ok(())
        } else {
            Err(Failure::DuplicateKey { table: refused })
        }
    }

    /// Deletes the application with identifier `id`. Where there is none,
    /// nothing changes, and that is no failure.
    pub fn delete_application(&mut self, id: Id) -> (outcome: Result<(), Failure>)
        ensures
            outcome is Ok,
            final(self)@.wf(),
            final(self)@ == old(self)@.without_application(id),
    {
        let mut tables = self.take_tables();
        match tables.find_application(id) {
            Some(at) => {
                proof {
                    lemma_application_removal(tables@, at as int);
                }
                tables.applications.remove(at);
            },
            None => {},
        }
        self.tables = tables;
        Ok(())
    }

    /// Gives the application with identifier `id` the status `status`.
    /// Where there is none, nothing changes, and that is no failure.
    pub fn update_application_status(&mut self, id: Id, status: Status) -> (outcome: Result<
        (),
        Failure,
    >)
        ensures
            outcome is Ok,
            final(self)@.wf(),
            final(self)@ == old(self)@.with_status(id, status),
    {
        let mut tables = self.take_tables();
        match tables.find_application(id) {
            Some(at) => {
                proof {
                    lemma_status_change(tables@, at as int, status);
                }
                let record = tables.applications[at];
                tables.applications.set(at, ApplicationRecord { status, ..record });
            },
            None => {},
        }
        self.tables = tables;
        Ok(())
    }

    /// The rows of the list as the store delivers them: every application
    /// joined with its company, newest first, every column as text. Each
    /// row decodes to the list entry in its place.
    pub fn rows(&self) -> (rows: Vec<ApplicationRow>)
        ensures
            self@.wf(),
            rows.len() == self@.listing().len(),
            forall|i: int| 0 <= i < rows.len() ==> (#[trigger] rows[i])@ == self@.rows()[i],
            forall|i: int|
                0 <= i < rows.len() ==> (#[trigger] rows[i])@.holds(self@.listing()[i]),
    {
        proof {
            use_type_invariant(self);
            lemma_listed_have_companies(self@);
        }
        let listed = sort_newest_first(&self.tables.applications);
        let mut rows: Vec<ApplicationRow> = Vec::new();
        let mut done: usize = 0;
        while done < listed.len()
            invariant
                self@.wf(),
                listed@ == newest_first(self@.applications),
                forall|i: int|
                    0 <= i < listed.len() ==> self@.has_company((#[trigger] listed[i]).company_id),
                done <= listed.len(),
                rows.len() == done,
                forall|i: int| 0 <= i < done ==> (#[trigger] rows[i])@ == self@.rows()[i],
                forall|i: int| 0 <= i < done ==> (#[trigger] rows[i])@.holds(self@.listing()[i]),
            decreases listed.len() - done,
        {
            let row = self.tables.row(&listed[done]);
            rows.push(row);
            done += 1;
        }
        rows
    }
}

} // verus!
