use soulcrush::clock::Timestamp;
use soulcrush::error::{Failure, Field, Table};
use soulcrush::ident::Id;
use soulcrush::model::{AllApplicationsResponse, CreateApplicationRequest, CreateCompanyRequest};
use soulcrush::refresh::{ListState, Mutation, VersionKey};
use soulcrush::service::{
    application_as, application_for, create_application, create_application_as,
    get_all_applications, list_from,
};
use soulcrush::status::Status;
use soulcrush::store::Store;
use soulcrush::tracker::Tracker;

fn request(name: &str, status: Option<Status>) -> CreateApplicationRequest {
    CreateApplicationRequest::new(
        CreateCompanyRequest {
            name: String::from(name),
            website: format!("https://{}.com", name.to_lowercase()),
            ceo: String::from("J"),
            industry: String::from("Tech"),
        },
        status,
    )
}

fn shown(tracker: &Tracker) -> Vec<AllApplicationsResponse> {
    match tracker.list() {
        ListState::Ready(entries) => entries.clone(),
        other => panic!("the list is not ready: {other:?}"),
    }
}

fn key(create: u64, delete: u64, update: u64) -> VersionKey {
    VersionKey { create, delete, update }
}

#[test]
fn create_then_update_then_delete_end_to_end() {
    let mut tracker = Tracker::new();
    assert!(tracker.render());
    assert_eq!(shown(&tracker), vec![]);

    let acme = CreateApplicationRequest::from_fields(
        String::from("Acme"),
        String::from("https://acme.com"),
        String::from("J"),
        String::from("Tech"),
        Some("ToDo"),
    )
    .unwrap();
    assert_eq!(tracker.create(acme), Ok(()));
    assert!(tracker.render());
    let listed = shown(&tracker);
    assert_eq!(listed.len(), 1);
    assert_eq!(listed[0].status.as_str(), "ToDo");
    assert_eq!(listed[0].company.name, "Acme");
    assert_eq!(listed[0].company.website, "https://acme.com");
    assert_eq!(listed[0].company.ceo, "J");
    assert_eq!(listed[0].company.industry, "Tech");
    let that_id = listed[0].id;

    let pending = Status::from_str("Pending").unwrap();
    assert_eq!(tracker.update_status(that_id, pending), Ok(()));
    assert!(tracker.render());
    let listed = shown(&tracker);
    assert_eq!(listed.len(), 1);
    assert_eq!(listed[0].id, that_id);
    assert_eq!(listed[0].status.as_str(), "Pending");
    assert_eq!(listed[0].company.name, "Acme");

    assert_eq!(tracker.delete(that_id), Ok(()));
    assert!(tracker.render());
    assert_eq!(shown(&tracker), vec![]);
    assert_eq!(tracker.key(), key(1, 1, 1));
}

#[test]
fn a_created_application_is_the_one_new_row_of_the_list() {
    let mut store = Store::new();
    create_application(&mut store, request("First", Some(Status::Accepted))).unwrap();
    let before = get_all_applications(&store).unwrap();
    create_application(&mut store, request("Second", None)).unwrap();
    let after = get_all_applications(&store).unwrap();
    assert_eq!(after.len(), before.len() + 1);
    let new: Vec<&AllApplicationsResponse> =
        after.iter().filter(|entry| !before.contains(entry)).collect();
    assert_eq!(new.len(), 1);
    assert_eq!(new[0].company.name, "Second");
    assert_eq!(new[0].company.website, "https://second.com");
    assert_eq!(new[0].company.ceo, "J");
    assert_eq!(new[0].company.industry, "Tech");
    assert_eq!(new[0].status, Status::ToDo);
    assert!(before.iter().all(|entry| after.contains(entry)));
}

#[test]
fn a_request_with_an_empty_field_writes_nothing_and_is_not_counted() {
    let mut tracker = Tracker::new();
    tracker.render();
    let mut bad = request("Acme", None);
    bad.company.ceo = String::new();
    assert_eq!(tracker.create(bad), Err(Failure::MissingField { field: Field::Ceo }));
    assert_eq!(tracker.key(), key(0, 0, 0));
    assert!(!tracker.render());
    assert_eq!(shown(&tracker), vec![]);
    assert_eq!(tracker.store().len(), 0);
}

#[test]
fn a_create_that_fails_in_the_store_leaves_list_and_key_untouched() {
    let mut tracker = Tracker::new();
    let date = Timestamp::from_unix_nanos(0).unwrap();
    assert_eq!(
        tracker.create_as(request("Acme", None), Id::from_u128(100), Id::from_u128(1), date),
        Ok(())
    );
    tracker.render();
    let before = shown(&tracker);
    // A new company, but the application identifier is taken.
    assert_eq!(
        tracker.create_as(request("Ghost", None), Id::from_u128(200), Id::from_u128(1), date),
        Err(Failure::DuplicateKey { table: Table::Applications })
    );
    assert_eq!(tracker.key(), key(1, 0, 0));
    assert!(!tracker.render());
    assert_eq!(shown(&tracker), before);
    assert!(shown(&tracker).iter().all(|entry| entry.company.name != "Ghost"));
    // The company identifier is free: nothing of the failed write is left.
    assert_eq!(
        tracker.create_as(request("Real", None), Id::from_u128(200), Id::from_u128(2), date),
        Ok(())
    );
}

#[test]
fn create_as_writes_what_the_request_asks_for() {
    let mut store = Store::new();
    let date = Timestamp::from_unix_nanos(86_400_000_000_000).unwrap();
    assert_eq!(
        create_application_as(
            &mut store,
            request("Acme", Some(Status::Solicitated)),
            Id::from_u128(100),
            Id::from_u128(1),
            date,
        ),
        Ok(())
    );
    let listed = get_all_applications(&store).unwrap();
    assert_eq!(listed.len(), 1);
    assert_eq!(listed[0].id, Id::from_u128(1));
    assert_eq!(listed[0].company.id, Id::from_u128(100));
    assert_eq!(listed[0].company.name, "Acme");
    assert_eq!(listed[0].status, Status::Solicitated);
    assert_eq!(listed[0].date, "1970-01-02 0:00:00.0 +00:00:00");
    assert_eq!(
        create_application_as(
            &mut store,
            request("Other", None),
            Id::from_u128(100),
            Id::from_u128(2),
            date,
        ),
        Err(Failure::DuplicateKey { table: Table::Companies })
    );
}

#[test]
fn deleting_what_is_not_there_counts_and_shows_the_same_list() {
    let mut tracker = Tracker::new();
    tracker.create(request("Acme", None)).unwrap();
    tracker.render();
    let before = shown(&tracker);
    assert_eq!(tracker.delete(Id::from_u128(12345)), Ok(()));
    assert_eq!(tracker.key(), key(1, 1, 0));
    assert!(tracker.render());
    assert_eq!(shown(&tracker), before);
    assert_eq!(tracker.update_status(Id::from_u128(12345), Status::Rejected), Ok(()));
    assert_eq!(tracker.key(), key(1, 1, 1));
    assert!(tracker.render());
    assert_eq!(shown(&tracker), before);
}

#[test]
fn three_mutations_are_reflected_by_one_fetch() {
    let mut tracker = Tracker::new();
    let date = Timestamp::from_unix_nanos(0).unwrap();
    tracker
        .create_as(request("Old", None), Id::from_u128(100), Id::from_u128(1), date)
        .unwrap();
    tracker
        .create_as(request("Kept", None), Id::from_u128(101), Id::from_u128(2), date)
        .unwrap();
    tracker.render();
    let start = tracker.key();

    tracker.create(request("New", Some(Status::Pending))).unwrap();
    tracker.delete(Id::from_u128(1)).unwrap();
    tracker.update_status(Id::from_u128(2), Status::Accepted).unwrap();
    assert_eq!(
        tracker.key(),
        key(start.create + 1, start.delete + 1, start.update + 1)
    );
    assert!(tracker.has_room(Mutation::Create));

    assert!(tracker.render());
    assert!(!tracker.render());
    let listed = shown(&tracker);
    assert_eq!(listed.len(), 2);
    assert_eq!(listed[0].company.name, "New");
    assert_eq!(listed[0].status, Status::Pending);
    assert_eq!(listed[1].id, Id::from_u128(2));
    assert_eq!(listed[1].status, Status::Accepted);
    assert_eq!(listed, get_all_applications(tracker.store()).unwrap());
}

#[test]
fn a_create_on_an_empty_store_succeeds_and_defaults_to_to_do() {
    let mut store = Store::new();
    assert_eq!(create_application(&mut store, request("Acme", None)), Ok(()));
    let listed = get_all_applications(&store).unwrap();
    assert_eq!(listed.len(), 1);
    assert_eq!(listed[0].status, Status::ToDo);
    assert_eq!(listed[0].company.name, "Acme");
    assert_eq!((listed[0].id.bits >> 76) & 0xf, 4);
    assert_eq!((listed[0].company.id.bits >> 76) & 0xf, 4);
    assert_ne!(listed[0].id, listed[0].company.id);
}

#[test]
fn an_application_is_built_from_a_request() {
    let date = Timestamp::from_unix_nanos(0).unwrap();
    let built = application_as(
        request("Acme", Some(Status::Accepted)),
        Id::from_u128(100),
        Id::from_u128(1),
        date,
    )
    .unwrap();
    assert_eq!(built.id, Id::from_u128(1));
    assert_eq!(built.company.id, Id::from_u128(100));
    assert_eq!(built.company.name, "Acme");
    assert_eq!(built.company.website, "https://acme.com");
    assert_eq!(built.company.ceo, "J");
    assert_eq!(built.company.industry, "Tech");
    assert_eq!(built.status, Status::Accepted);
    assert_eq!(built.date, date);

    let mut bad = request("Acme", None);
    bad.company.website = String::new();
    assert_eq!(
        application_as(bad, Id::from_u128(100), Id::from_u128(1), date),
        Err(Failure::MissingField { field: Field::Website })
    );
}

#[test]
fn a_valid_request_always_gets_its_application() {
    let built = application_for(request("Acme", None)).unwrap();
    assert_eq!(built.company.name, "Acme");
    assert_eq!(built.status, Status::ToDo);
    assert_eq!((built.id.bits >> 62) & 0x3, 2);
    assert_eq!((built.company.id.bits >> 62) & 0x3, 2);
    assert_ne!(built.id, built.company.id);

    let mut bad = request("Acme", Some(Status::Pending));
    bad.company.industry = String::new();
    assert_eq!(
        application_for(bad),
        Err(Failure::MissingField { field: Field::Industry })
    );
}

#[test]
fn a_list_read_takes_what_the_storage_handed_over() {
    let mut store = Store::new();
    let date = Timestamp::from_unix_nanos(0).unwrap();
    create_application_as(
        &mut store,
        request("Acme", Some(Status::Pending)),
        Id::from_u128(100),
        Id::from_u128(1),
        date,
    )
    .unwrap();

    let listed = list_from(Ok(store.rows())).unwrap();
    assert_eq!(listed, get_all_applications(&store).unwrap());
    assert_eq!(listed[0].status, Status::Pending);

    assert_eq!(list_from(Ok(vec![])), Ok(vec![]));
    assert_eq!(
        list_from(Err(String::from("database is locked"))),
        Err(Failure::Storage {
            message: String::from("Failed to fetch applications: database is locked"),
        })
    );

    let mut rows = store.rows();
    rows[0].id = String::from("not an identifier");
    match list_from(Ok(rows)) {
        Err(Failure::CorruptRow { column, message }) => {
            assert_eq!(column, soulcrush::error::Column::Id);
            assert!(!message.is_empty());
        }
        other => panic!("unexpected {other:?}"),
    }
}
