use soulcrush::clock::Timestamp;
use soulcrush::error::{Column, Failure, FailureKind, Field};
use soulcrush::ident::Id;
use soulcrush::model::{
    AllApplicationsResponse, Application, ApplicationRow, Company, CreateApplicationRequest,
    CreateCompanyRequest,
};
use soulcrush::status::Status;

fn acme_request() -> CreateCompanyRequest {
    CreateCompanyRequest {
        name: String::from("Acme"),
        website: String::from("https://acme.com"),
        ceo: String::from("J"),
        industry: String::from("Tech"),
    }
}

fn row() -> ApplicationRow {
    ApplicationRow {
        id: String::from("550e8400-e29b-41d4-a716-446655440000"),
        status: String::from("Pending"),
        date: String::from("2024-01-02 9:04:05.5 +00:00:00"),
        company_id: String::from("a1a2a3a4-b1b2-c1c2-d1d2-d3d4d5d6d7d8"),
        name: String::from("Acme"),
        website: String::from("https://acme.com"),
        ceo: String::from("J"),
        industry: String::from("Tech"),
    }
}

#[test]
fn a_new_company_keeps_its_metadata_under_a_fresh_identifier() {
    let company = Company::new(
        String::from("Acme"),
        String::from("https://acme.com"),
        String::from("J"),
        String::from("Tech"),
    );
    assert_eq!(company.name, "Acme");
    assert_eq!(company.website, "https://acme.com");
    assert_eq!(company.ceo, "J");
    assert_eq!(company.industry, "Tech");
    assert_eq!((company.id.bits >> 76) & 0xf, 4);
    let other = Company::new(
        String::from("Acme"),
        String::from("https://acme.com"),
        String::from("J"),
        String::from("Tech"),
    );
    assert_ne!(company.id, other.id);
}

#[test]
fn a_new_application_refers_to_its_company() {
    let company = Company::with_id(
        Id::from_u128(7),
        String::from("Acme"),
        String::from("https://acme.com"),
        String::from("J"),
        String::from("Tech"),
    );
    let application = Application::new(&company, Status::Solicitated);
    assert_eq!(application.company, company);
    assert_eq!(application.status, Status::Solicitated);
    assert_eq!((application.id.bits >> 76) & 0xf, 4);
    assert!(application
        .date
        .is_after(&Timestamp::from_unix_nanos(1_577_836_800_000_000_000).unwrap()));
}

#[test]
fn a_list_entry_shows_the_application_with_its_date_as_text() {
    let company = Company::with_id(
        Id::from_u128(7),
        String::from("Acme"),
        String::from("https://acme.com"),
        String::from("J"),
        String::from("Tech"),
    );
    let application = Application::with_id(
        Id::from_u128(9),
        &company,
        Status::Accepted,
        Timestamp::from_unix_nanos(0).unwrap(),
    );
    let entry = AllApplicationsResponse::from(application);
    assert_eq!(entry.id, Id::from_u128(9));
    assert_eq!(entry.company, company);
    assert_eq!(entry.status, Status::Accepted);
    assert_eq!(entry.date, "1970-01-01 0:00:00.0 +00:00:00");
}

#[test]
fn a_row_is_decoded_column_by_column() {
    let entry = AllApplicationsResponse::try_from(row()).unwrap();
    assert_eq!(entry.id, Id::from_u128(0x550e8400e29b41d4a716446655440000));
    assert_eq!(entry.status, Status::Pending);
    assert_eq!(entry.date, "2024-01-02 9:04:05.5 +00:00:00");
    assert_eq!(
        entry.company,
        Company {
            id: Id::from_u128(0xa1a2a3a4b1b2c1c2d1d2d3d4d5d6d7d8),
            name: String::from("Acme"),
            website: String::from("https://acme.com"),
            ceo: String::from("J"),
            industry: String::from("Tech"),
        }
    );
}

#[test]
fn a_row_with_a_malformed_identifier_is_corrupt() {
    let mut bad = row();
    bad.id = String::from("nonsense");
    match AllApplicationsResponse::try_from(bad) {
        Err(Failure::CorruptRow { column, message }) => {
            assert_eq!(column, Column::Id);
            assert!(!message.is_empty());
        }
        other => panic!("unexpected {other:?}"),
    }
    let mut bad = row();
    bad.company_id = String::from("");
    match AllApplicationsResponse::try_from(bad) {
        Err(failure @ Failure::CorruptRow { column: Column::CompanyId, .. }) => {
            assert_eq!(failure.kind(), FailureKind::Decode);
        }
        other => panic!("unexpected {other:?}"),
    }
}

#[test]
fn a_row_with_an_unknown_status_is_corrupt() {
    let mut bad = row();
    bad.status = String::from("pending");
    assert_eq!(
        AllApplicationsResponse::try_from(bad),
        Err(Failure::CorruptRow {
            column: Column::Status,
            message: String::from("Invalid status: pending"),
        })
    );
}

#[test]
fn the_first_column_at_fault_is_reported() {
    let mut bad = row();
    bad.id = String::from("x");
    bad.status = String::from("y");
    bad.company_id = String::from("z");
    match AllApplicationsResponse::try_from(bad) {
        Err(Failure::CorruptRow { column, .. }) => assert_eq!(column, Column::Id),
        other => panic!("unexpected {other:?}"),
    }
    let mut bad = row();
    bad.status = String::from("y");
    bad.company_id = String::from("z");
    match AllApplicationsResponse::try_from(bad) {
        Err(Failure::CorruptRow { column, .. }) => assert_eq!(column, Column::Status),
        other => panic!("unexpected {other:?}"),
    }
}

#[test]
fn from_columns_keeps_the_message_of_a_malformed_identifier() {
    let decoded = AllApplicationsResponse::from_columns(
        Err(String::from("bad application id")),
        Err(String::from("bad company id")),
        row(),
    );
    assert_eq!(
        decoded,
        Err(Failure::CorruptRow {
            column: Column::Id,
            message: String::from("bad application id"),
        })
    );
    let decoded = AllApplicationsResponse::from_columns(
        Ok(Id::from_u128(1)),
        Err(String::from("bad company id")),
        row(),
    );
    assert_eq!(
        decoded,
        Err(Failure::CorruptRow {
            column: Column::CompanyId,
            message: String::from("bad company id"),
        })
    );
    let decoded =
        AllApplicationsResponse::from_columns(Ok(Id::from_u128(1)), Ok(Id::from_u128(2)), row())
            .unwrap();
    assert_eq!(decoded.id, Id::from_u128(1));
    assert_eq!(decoded.company.id, Id::from_u128(2));
    assert_eq!(decoded.status, Status::Pending);
}

#[test]
fn a_request_without_a_status_asks_for_to_do() {
    let request = CreateApplicationRequest::new(acme_request(), None);
    assert_eq!(request.status, Status::ToDo);
    assert_eq!(request.company, acme_request());
    let request = CreateApplicationRequest::new(acme_request(), Some(Status::Rejected));
    assert_eq!(request.status, Status::Rejected);
}

#[test]
fn a_request_with_an_empty_field_is_not_valid() {
    let complete = CreateApplicationRequest::new(acme_request(), None);
    assert_eq!(complete.validate(), Ok(()));
    assert_eq!(complete.company.missing_field(), None);

    let mut request = CreateApplicationRequest::new(acme_request(), None);
    request.company.name = String::new();
    assert_eq!(
        request.validate(),
        Err(Failure::MissingField { field: Field::Name })
    );
    let mut request = CreateApplicationRequest::new(acme_request(), None);
    request.company.website = String::new();
    assert_eq!(
        request.validate(),
        Err(Failure::MissingField { field: Field::Website })
    );
    let mut request = CreateApplicationRequest::new(acme_request(), None);
    request.company.ceo = String::new();
    assert_eq!(
        request.validate(),
        Err(Failure::MissingField { field: Field::Ceo })
    );
    let mut request = CreateApplicationRequest::new(acme_request(), None);
    request.company.industry = String::new();
    request.company.ceo = String::new();
    assert_eq!(
        request.validate(),
        Err(Failure::MissingField { field: Field::Ceo })
    );
    let mut request = CreateApplicationRequest::new(acme_request(), None);
    request.company.industry = String::new();
    assert_eq!(
        request.validate(),
        Err(Failure::MissingField { field: Field::Industry })
    );
}

#[test]
fn a_form_is_read_into_a_request() {
    let read = CreateApplicationRequest::from_fields(
        String::from("Acme"),
        String::from("https://acme.com"),
        String::from("J"),
        String::from("Tech"),
        Some("Pending"),
    );
    assert_eq!(
        read,
        Ok(CreateApplicationRequest { company: acme_request(), status: Status::Pending })
    );
    let read = CreateApplicationRequest::from_fields(
        String::from("Acme"),
        String::from("https://acme.com"),
        String::from("J"),
        String::from("Tech"),
        None,
    );
    assert_eq!(
        read,
        Ok(CreateApplicationRequest { company: acme_request(), status: Status::ToDo })
    );
}

#[test]
fn a_form_with_a_malformed_status_or_an_empty_field_is_rejected() {
    let read = CreateApplicationRequest::from_fields(
        String::from("Acme"),
        String::from("https://acme.com"),
        String::from("J"),
        String::from("Tech"),
        Some("Applied"),
    );
    assert_eq!(
        read,
        Err(Failure::InvalidStatus { message: String::from("Invalid status: Applied") })
    );
    let read = CreateApplicationRequest::from_fields(
        String::from("Acme"),
        String::new(),
        String::from("J"),
        String::from("Tech"),
        Some("Applied"),
    );
    assert_eq!(read, Err(Failure::MissingField { field: Field::Website }));
}

#[test]
fn failures_have_a_kind_and_a_message() {
    let missing = Failure::MissingField { field: Field::Industry };
    assert_eq!(missing.kind(), FailureKind::Validation);
    assert_eq!(missing.message(), "Missing required field: industry");
    let invalid = Failure::InvalidStatus { message: String::from("Invalid status: x") };
    assert_eq!(invalid.kind(), FailureKind::Validation);
    assert_eq!(invalid.message(), "Invalid status: x");
    let duplicate = Failure::DuplicateKey { table: soulcrush::error::Table::Companies };
    assert_eq!(duplicate.kind(), FailureKind::Store);
    assert_eq!(duplicate.message(), "Duplicate id in table: companies");
    let duplicate = Failure::DuplicateKey { table: soulcrush::error::Table::Applications };
    assert_eq!(duplicate.message(), "Duplicate id in table: applications");
    let fetch = Failure::fetch("disk I/O error");
    assert_eq!(fetch.kind(), FailureKind::Store);
    assert_eq!(fetch.message(), "Failed to fetch applications: disk I/O error");
    assert_eq!(
        fetch,
        Failure::Storage { message: String::from("Failed to fetch applications: disk I/O error") }
    );
    let corrupt = Failure::CorruptRow { column: Column::Id, message: String::from("bad") };
    assert_eq!(corrupt.kind(), FailureKind::Decode);
    assert_eq!(corrupt.message(), "bad");
    assert_eq!(Field::Name.name(), "name");
    assert_eq!(Field::Website.name(), "website");
    assert_eq!(Field::Ceo.name(), "ceo");
}
