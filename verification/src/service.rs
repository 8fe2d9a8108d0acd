//! Reading the list, from the record store or from what a storage handed
//! over, and creating an application from a request.

use vstd::prelude::*;
use crate::clock::Timestamp;
use crate::error::fetch_failure_message;
use crate::error::Failure;
use crate::error::FailureView;
use crate::ident::has_random_layout;
use crate::ident::Id;
use crate::model::AllApplicationsResponse;
use crate::model::AllApplicationsResponseView;
use crate::model::Application;
use crate::model::ApplicationRow;
use crate::model::ApplicationView;
use crate::model::Company;
use crate::model::CreateApplicationRequest;
use crate::model::CreateApplicationRequestView;
use crate::model::CreateCompanyRequestView;
use crate::status::Status;
use crate::store::Store;
use crate::store::StoreView;

verus! {

/// Whether the row at `at` is the first one of `rows` that cannot be
/// decoded.
pub open spec fn is_first_defect(rows: Seq<ApplicationRow>, at: int) -> bool {
    &&& 0 <= at < rows.len()
    &&& rows[at]@.defect() is Some
    &&& forall|i: int| 0 <= i < at ==> (#[trigger] rows[i])@.defect() is None
}

/// Whether `entries` are the list entries of `rows`, row by row.
pub open spec fn entries_of(
    rows: Seq<ApplicationRow>,
    entries: Seq<AllApplicationsResponse>,
) -> bool {
    &&& entries.len() == rows.len()
    &&& forall|i: int| 0 <= i < rows.len() ==> (#[trigger] entries[i])@ == rows[i]@.entry()
}

/// Whether `entries` show exactly the list of views `listing`, in order.
pub open spec fn shows(
    entries: Seq<AllApplicationsResponse>,
    listing: Seq<AllApplicationsResponseView>,
) -> bool {
    &&& entries.len() == listing.len()
    &&& forall|i: int| 0 <= i < entries.len() ==> (#[trigger] entries[i])@ == listing[i]
}

/// Decodes the rows of a list read, in order. One row that cannot be
/// decoded fails the whole read, with the failure of the first such row:
/// no part of the list is handed out.
pub fn decode_rows(rows: Vec<ApplicationRow>) -> (decoded: Result<
    Vec<AllApplicationsResponse>,
    Failure,
>)
    ensures
        decoded is Ok <==> forall|i: int| 0 <= i < rows.len() ==> (#[trigger] rows[i])@.defect()
            is None,
        decoded matches Ok(entries) ==> entries_of(rows@, entries@),
        decoded matches Err(failure) ==> exists|at: int|
            is_first_defect(rows@, at) && (#[trigger] rows[at])@.rejected_with(failure@),
{
    let mut entries: Vec<AllApplicationsResponse> = Vec::new();
    let mut done: usize = 0;
    while done < rows.len()
        invariant
            done <= rows.len(),
            entries.len() == done,
            forall|i: int| 0 <= i < done ==> (#[trigger] rows[i])@.defect() is None,
            forall|i: int| 0 <= i < done ==> (#[trigger] entries[i])@ == rows[i]@.entry(),
        decreases rows.len() - done,
    {
        match AllApplicationsResponse::try_from(rows[done].clone()) {
            Ok(entry) => {
                entries.push(entry);
            },
            Err(failure) => {
                assert(is_first_defect(rows@, done as int));
                return Err(failure);
            },
        }
        done += 1;
    }
    Ok(entries)
}

/// Reads the list: every application joined with its company, newest
/// first.
pub fn get_all_applications(store: &Store) -> (listed: Result<
    Vec<AllApplicationsResponse>,
    Failure,
>)
    ensures
        store@.wf(),
        listed matches Ok(entries) && shows(entries@, store@.listing()),
{
    let rows = store.rows();
    let listed = decode_rows(rows);
    proof {
        assert forall|i: int| 0 <= i < rows.len() implies (#[trigger] rows[i])@.defect()
            is None by {
            assert(rows[i]@.holds(store@.listing()[i]));
        }
        if listed is Ok {
            let entries = listed->Ok_0;
            assert forall|i: int| 0 <= i < entries.len() implies (#[trigger] entries[i])@
                == store@.listing()[i] by {
                assert(rows[i]@.holds(store@.listing()[i]));
            }
        }
    }
    listed
}

/// The application that a request asks for, once its two identifiers and
/// its creation instant are chosen.
pub open spec fn requested(
    req: CreateApplicationRequest,
    company_id: Id,
    application_id: Id,
    date: Timestamp,
) -> Application {
    Application {
        id: application_id,
        company: Company {
            id: company_id,
            name: req.company.name,
            website: req.company.website,
            ceo: req.company.ceo,
            industry: req.company.industry,
        },
        status: req.status,
        date,
    }
}

/// What a create leaves behind where it fails in the store: some
/// application that the request asks for, under identifiers as they are
/// drawn, was refused by the table that `failure` names.
pub open spec fn refused_by_store(
    store: StoreView,
    req: CreateApplicationRequestView,
    failure: FailureView,
) -> bool {
    exists|application: ApplicationView|
        {
            &&& req.company.describes(application.company)
            &&& application.status == req.status
            &&& has_random_layout(application.id.bits)
            &&& has_random_layout(application.company.id.bits)
            &&& #[trigger] store.refusal(application) matches Some(table)
            &&& failure == (FailureView::DuplicateKey { table })
        }
}

/// What a create leaves behind where it commits: some application that the
/// request asks for, under identifiers as they are drawn, was not refused,
/// both its rows are in the store, and the list has gained its row and no
/// other.
pub open spec fn written_to_store(
    before: StoreView,
    after: StoreView,
    req: CreateApplicationRequestView,
) -> bool {
    exists|application: ApplicationView|
        {
            &&& req.company.describes(application.company)
            &&& application.status == req.status
            &&& has_random_layout(application.id.bits)
            &&& has_random_layout(application.company.id.bits)
            &&& before.refusal(application) is None
            &&& after == #[trigger] before.with_application(application)
            &&& before.gains(after, application.listed())
        }
}

/// Reads the list from what the storage handed over: the rows, or its
/// account of why it has none. A storage failure fails the read with the
/// storage's account, and so does one row that cannot be decoded, with the
/// failure of the first such row; otherwise the rows are decoded in order.
pub fn list_from(fetched: Result<Vec<ApplicationRow>, String>) -> (listed: Result<
    Vec<AllApplicationsResponse>,
    Failure,
>)
    ensures
        match fetched {
            Err(detail) => listed matches Err(failure) && failure@ == (FailureView::Storage {
                message: fetch_failure_message(detail@),
            }),
            Ok(rows) => {
                &&& listed is Ok <==> forall|i: int|
                    0 <= i < rows.len() ==> (#[trigger] rows[i])@.defect() is None
                &&& listed matches Ok(entries) ==> entries_of(rows@, entries@)
                &&& listed matches Err(failure) ==> exists|at: int|
                    is_first_defect(rows@, at) && (#[trigger] rows[at])@.rejected_with(failure@)
            },
        },
{
    match fetched {
        Err(detail) => Err(Failure::fetch(detail.as_str())),
        Ok(rows) => decode_rows(rows),
    }
}

/// The application that `req` asks for under the given identifiers and
/// creation instant. A request with an empty company field is rejected.
pub fn application_as(
    req: CreateApplicationRequest,
    company_id: Id,
    application_id: Id,
    date: Timestamp,
) -> (built: Result<Application, Failure>)
    ensures
        match req@.company.missing_field() {
            Some(field) => built matches Err(failure) && failure@ == (FailureView::MissingField {
                field,
            }),
            None => built == Ok::<Application, Failure>(
                requested(req, company_id, application_id, date),
            ),
        },
{
    match req.validate() {
        Err(failure) => {
            return Err(failure);
        },
        Ok(()) => {},
    }
    let company = Company::with_id(
        company_id,
        req.company.name,
        req.company.website,
        req.company.ceo,
        req.company.industry,
    );
    Ok(Application::with_id(application_id, &company, req.status, date))
}

/// The application that `req` asks for, under fresh random identifiers and
/// with the present instant as its creation instant. A request with an
/// empty company field is rejected, and then nothing is drawn; every other
/// request gets its application.
pub fn application_for(req: CreateApplicationRequest) -> (built: Result<Application, Failure>)
    ensures
        match req@.company.missing_field() {
            Some(field) => built matches Err(failure) && failure@ == (FailureView::MissingField {
                field,
            }),
            None => built matches Ok(application) && {
                &&& req@.company.describes(application@.company)
                &&& application.status == req.status
                &&& has_random_layout(application.id.bits)
                &&& has_random_layout(application.company.id.bits)
            },
        },
{
    match req.validate() {
        Err(failure) => {
            return Err(failure);
        },
        Ok(()) => {},
    }
    application_as(req, Id::new_v4(), Id::new_v4(), Timestamp::now())
}

/// Creates the application that `req` asks for under the given
/// identifiers and creation instant. A request with an empty company field
/// is rejected before anything is written; an identifier that is taken
/// fails the write. In both cases the store is left as it was. Otherwise
/// both rows are written, and the list gains the row of the application.
pub fn create_application_as(
    store: &mut Store,
    req: CreateApplicationRequest,
    company_id: Id,
    application_id: Id,
    date: Timestamp,
) -> (outcome: Result<(), Failure>)
    ensures
        final(store)@.wf(),
        match req@.company.missing_field() {
            Some(field) => outcome matches Err(failure) && failure@ == (
            FailureView::MissingField { field }) && final(store)@ == old(store)@,
            None => {
                let application = requested(req, company_id, application_id, date)@;
                &&& final(store)@ == old(store)@.after_insertion(application)
                &&& match old(store)@.refusal(application) {
                    Some(table) => outcome matches Err(failure) && failure@ == (
                    FailureView::DuplicateKey { table }),
                    None => outcome is Ok && old(store)@.gains(
                        final(store)@,
                        application.listed(),
                    ),
                }
            },
        },
{
    match application_as(req, company_id, application_id, date) {
        Err(failure) => {
            proof {
                use_type_invariant(&*store);
            }
            Err(failure)
        },
        Ok(application) => store.insert_application(&application),
    }
}

/// Creates the application that `req` asks for, under fresh random
/// identifiers and with the present instant as its creation instant. A
/// request with an empty company field is rejected before anything is
/// drawn or written. Every other request is written, both rows at once,
/// unless an identifier that was drawn for it is taken: the write fails
/// only then, and only then is the store left as it was. A store in which
/// no identifier of that layout is taken therefore takes every such request.
pub fn create_application(store: &mut Store, req: CreateApplicationRequest) -> (outcome: Result<
    (),
    Failure,
>)
    ensures
        final(store)@.wf(),
        match req@.company.missing_field() {
            Some(field) => outcome matches Err(failure) && failure@ == (
            FailureView::MissingField { field }) && final(store)@ == old(store)@,
            None => match outcome {
                Ok(()) => written_to_store(old(store)@, final(store)@, req@),
                Err(failure) => final(store)@ == old(store)@ && refused_by_store(
                    old(store)@,
                    req@,
                    failure@,
                ),
            },
        },
{
    match application_for(req) {
        Err(failure) => {
            proof {
                use_type_invariant(&*store);
            }
            Err(failure)
        },
        Ok(application) => {
            let outcome = store.insert_application(&application);
            proof {
                if outcome is Ok {
                    assert(final(store)@ == old(store)@.with_application(application@));
                } else {
                    assert(old(store)@.refusal(application@) is Some);
                }
            }
            outcome
        },
    }
}

/// Whether no row of the store has an identifier of the layout in which
/// identifiers are drawn.
pub open spec fn holds_no_drawn_identifier(store: StoreView) -> bool {
    &&& forall|id: Id| has_random_layout(id.bits) ==> !(#[trigger] store.has_company(id))
    &&& forall|id: Id| has_random_layout(id.bits) ==> !(#[trigger] store.has_application(id))
}

/// Where no identifier that could be drawn is taken, no create fails in
/// the store: a request with all its fields is then written for certain.
/// The store without any row is such a store.
pub proof fn lemma_free_store_takes_every_request(
    store: StoreView,
    req: CreateApplicationRequestView,
    failure: FailureView,
)
    requires
        holds_no_drawn_identifier(store),
    ensures
        !refused_by_store(store, req, failure),
        holds_no_drawn_identifier(StoreView::empty()),
{
    if refused_by_store(store, req, failure) {
        let application = choose|application: ApplicationView|
            {
                &&& req.company.describes(application.company)
                &&& application.status == req.status
                &&& has_random_layout(application.id.bits)
                &&& has_random_layout(application.company.id.bits)
                &&& #[trigger] store.refusal(application) matches Some(table)
                &&& failure == (FailureView::DuplicateKey { table })
            };
        assert(!store.has_company(application.company.id));
        assert(!store.has_application(application.id));
    }
}

/// After a create has committed, the list holds exactly one new row; its
/// company carries the fields of the request and its status is the status
/// of the request, which is `ToDo` where the request was made without one.
pub proof fn lemma_created_application_is_listed(
    before: StoreView,
    after: StoreView,
    company: CreateCompanyRequestView,
    status: Option<Status>,
)
    requires
        before.wf(),
        written_to_store(before, after, CreateApplicationRequestView::asking(company, status)),
    ensures
        after.listing().len() == before.listing().len() + 1,
        exists|at: int|
            {
                &&& 0 <= at < after.listing().len()
                &&& company.describes((#[trigger] after.listing()[at]).company)
                &&& after.listing()[at].status == match status {
                    Some(status) => status,
                    None => Status::ToDo,
                }
                &&& before.listing() == after.listing().remove(at)
            },
{
    let req = CreateApplicationRequestView::asking(company, status);
    let application = choose|application: ApplicationView|
        {
            &&& req.company.describes(application.company)
            &&& application.status == req.status
            &&& has_random_layout(application.id.bits)
            &&& has_random_layout(application.company.id.bits)
            &&& before.refusal(application) is None
            &&& after == #[trigger] before.with_application(application)
            &&& before.gains(after, application.listed())
        };
    let at = choose|at: int|
        0 <= at <= before.listing().len() && after.listing() == #[trigger] before.listing().insert(
            at,
            application.listed(),
        );
    assert(after.listing()[at] == application.listed());
    assert(before.listing().insert(at, application.listed()).remove(at) =~= before.listing());
}

} // verus!
