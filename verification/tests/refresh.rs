use soulcrush::error::Failure;
use soulcrush::ident::Id;
use soulcrush::model::{AllApplicationsResponse, Company};
use soulcrush::refresh::{ListState, Mutation, Refresher, VersionKey};
use soulcrush::status::Status;

fn key(create: u64, delete: u64, update: u64) -> VersionKey {
    VersionKey { create, delete, update }
}

fn entry(id: u128) -> AllApplicationsResponse {
    AllApplicationsResponse {
        id: Id::from_u128(id),
        company: Company::with_id(
            Id::from_u128(id + 1000),
            String::from("Acme"),
            String::from("https://acme.com"),
            String::from("J"),
            String::from("Tech"),
        ),
        status: Status::ToDo,
        date: String::from("1970-01-01 0:00:00.0 +00:00:00"),
    }
}

#[test]
fn a_new_controller_is_loading_and_asks_for_the_first_fetch() {
    let mut refresher = Refresher::new();
    assert_eq!(refresher.key(), key(0, 0, 0));
    assert_eq!(refresher.list(), &ListState::Loading);
    assert_eq!(refresher.poll(), Some(key(0, 0, 0)));
    assert_eq!(refresher.poll(), None);
    assert_eq!(refresher.list(), &ListState::Loading);
}

#[test]
fn each_kind_of_mutation_has_its_own_counter() {
    let mut refresher = Refresher::new();
    refresher.record(Mutation::Create, true);
    assert_eq!(refresher.key(), key(1, 0, 0));
    refresher.record(Mutation::Delete, true);
    assert_eq!(refresher.key(), key(1, 1, 0));
    refresher.record(Mutation::UpdateStatus, true);
    assert_eq!(refresher.key(), key(1, 1, 1));
    refresher.record(Mutation::UpdateStatus, true);
    assert_eq!(refresher.key(), key(1, 1, 2));
    assert!(refresher.can_record(Mutation::Create));
}

#[test]
fn a_failed_mutation_is_not_counted_and_asks_for_no_fetch() {
    let mut refresher = Refresher::new();
    let tag = refresher.poll().unwrap();
    assert!(refresher.deliver(tag, Ok(vec![entry(1)])));
    refresher.record(Mutation::Create, false);
    refresher.record(Mutation::Delete, false);
    refresher.record(Mutation::UpdateStatus, false);
    assert_eq!(refresher.key(), key(0, 0, 0));
    assert_eq!(refresher.poll(), None);
    assert_eq!(refresher.list(), &ListState::Ready(vec![entry(1)]));
}

#[test]
fn a_successful_mutation_invalidates_the_list_and_asks_for_one_fetch() {
    let mut refresher = Refresher::new();
    let tag = refresher.poll().unwrap();
    refresher.deliver(tag, Ok(vec![entry(1)]));
    refresher.record(Mutation::Delete, true);
    // Until the next render cycle the old list is still shown.
    assert_eq!(refresher.list(), &ListState::Ready(vec![entry(1)]));
    assert_eq!(refresher.poll(), Some(key(0, 1, 0)));
    assert_eq!(refresher.list(), &ListState::Loading);
    assert_eq!(refresher.poll(), None);
    assert!(refresher.deliver(key(0, 1, 0), Ok(vec![])));
    assert_eq!(refresher.list(), &ListState::Ready(vec![]));
    assert_eq!(refresher.poll(), None);
}

#[test]
fn three_mutations_within_one_cycle_are_answered_by_one_fetch() {
    let mut refresher = Refresher::new();
    let tag = refresher.poll().unwrap();
    refresher.deliver(tag, Ok(vec![]));
    refresher.record(Mutation::Create, true);
    refresher.record(Mutation::Delete, true);
    refresher.record(Mutation::UpdateStatus, true);
    assert_eq!(refresher.poll(), Some(key(1, 1, 1)));
    assert_eq!(refresher.poll(), None);
    assert!(refresher.deliver(key(1, 1, 1), Ok(vec![entry(3)])));
    assert_eq!(refresher.poll(), None);
    assert_eq!(refresher.list(), &ListState::Ready(vec![entry(3)]));
}

#[test]
fn a_failed_fetch_is_an_error_state_of_its_own() {
    let mut refresher = Refresher::new();
    let tag = refresher.poll().unwrap();
    assert!(refresher.deliver(tag, Err(Failure::fetch("connection lost"))));
    assert_eq!(
        refresher.list(),
        &ListState::Failed(Failure::Storage {
            message: String::from("Failed to fetch applications: connection lost"),
        })
    );
    assert_ne!(refresher.list(), &ListState::Loading);
    assert_ne!(refresher.list(), &ListState::Ready(vec![]));
    // The failure is shown until a mutation asks for a new fetch: there is
    // no retry.
    assert_eq!(refresher.poll(), None);
    refresher.record(Mutation::Create, true);
    assert_eq!(refresher.poll(), Some(key(1, 0, 0)));
    assert_eq!(refresher.list(), &ListState::Loading);
}

#[test]
fn the_outcome_of_a_superseded_fetch_is_discarded() {
    let mut refresher = Refresher::new();
    let first = refresher.poll().unwrap();
    refresher.record(Mutation::Create, true);
    let second = refresher.poll().unwrap();
    assert_ne!(first, second);
    // The newer fetch completes first.
    assert!(refresher.deliver(second, Ok(vec![entry(2)])));
    // The older one arrives late and must not overwrite it.
    assert!(!refresher.deliver(first, Ok(vec![])));
    assert_eq!(refresher.list(), &ListState::Ready(vec![entry(2)]));
}

#[test]
fn a_superseded_fetch_that_arrives_first_is_discarded_too() {
    let mut refresher = Refresher::new();
    let first = refresher.poll().unwrap();
    refresher.record(Mutation::UpdateStatus, true);
    let second = refresher.poll().unwrap();
    assert!(!refresher.deliver(first, Err(Failure::fetch("late"))));
    assert_eq!(refresher.list(), &ListState::Loading);
    assert!(refresher.deliver(second, Ok(vec![entry(5)])));
    assert_eq!(refresher.list(), &ListState::Ready(vec![entry(5)]));
}

#[test]
fn an_outcome_that_no_fetch_asked_for_is_discarded() {
    let mut refresher = Refresher::new();
    assert!(!refresher.deliver(key(0, 0, 0), Ok(vec![entry(1)])));
    assert_eq!(refresher.list(), &ListState::Loading);
    refresher.poll();
    assert!(!refresher.deliver(key(9, 9, 9), Ok(vec![entry(1)])));
    assert_eq!(refresher.list(), &ListState::Loading);
}

#[test]
fn the_key_never_goes_back() {
    let mut refresher = Refresher::new();
    let mut last = refresher.key();
    let steps = [
        (Mutation::Create, true),
        (Mutation::Delete, false),
        (Mutation::UpdateStatus, true),
        (Mutation::Create, true),
        (Mutation::Delete, true),
        (Mutation::Create, false),
    ];
    for (kind, succeeded) in steps {
        refresher.record(kind, succeeded);
        if let Some(tag) = refresher.poll() {
            refresher.deliver(tag, Ok(vec![]));
        }
        let now = refresher.key();
        assert!(now.create >= last.create && now.delete >= last.delete && now.update >= last.update);
        last = now;
    }
    assert_eq!(last, key(2, 1, 1));
}

#[test]
fn due_tells_what_the_next_cycle_will_fetch_without_starting_it() {
    let mut refresher = Refresher::new();
    assert_eq!(refresher.due(), Some(key(0, 0, 0)));
    assert_eq!(refresher.due(), Some(key(0, 0, 0)));
    assert_eq!(refresher.poll(), Some(key(0, 0, 0)));
    assert_eq!(refresher.due(), None);
    refresher.record(Mutation::Create, false);
    assert_eq!(refresher.due(), None);
    refresher.record(Mutation::Create, true);
    refresher.record(Mutation::Create, true);
    assert_eq!(refresher.due(), Some(key(2, 0, 0)));
    assert_eq!(refresher.poll(), Some(key(2, 0, 0)));
    assert_eq!(refresher.due(), None);
}
