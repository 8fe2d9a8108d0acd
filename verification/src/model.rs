//! Companies, applications, the requests that create them and the rows and
//! responses of the list.

use vstd::prelude::*;
use vstd::string::*;
use crate::clock::Timestamp;
use crate::error::Column;
use crate::error::Failure;
use crate::error::FailureView;
use crate::error::Field;
use crate::ident::has_random_layout;
use crate::ident::Id;
use crate::status::invalid_status_message;
use crate::status::lemma_invalid_status_message_is_not_empty;
use crate::status::Status;

verus! {

/// Employer metadata. A company is created together with its first
/// application and is not changed afterwards.
#[derive(PartialEq, Eq, Debug)]
pub struct Company {
    pub id: Id,
    pub name: String,
    pub website: String,
    pub ceo: String,
    pub industry: String,
}

/// The mathematical value of a `Company`.
pub struct CompanyView {
    pub id: Id,
    pub name: Seq<char>,
    pub website: Seq<char>,
    pub ceo: Seq<char>,
    pub industry: Seq<char>,
}

impl View for Company {
    type V = CompanyView;

    open spec fn view(&self) -> CompanyView {
        CompanyView {
            id: self.id,
            name: self.name@,
            website: self.website@,
            ceo: self.ceo@,
            industry: self.industry@,
        }
    }
}

impl Clone for Company {
    fn clone(&self) -> (copy: Self)
        ensures
            copy == *self,
    {
        Company {
            id: self.id,
            name: self.name.clone(),
            website: self.website.clone(),
            ceo: self.ceo.clone(),
            industry: self.industry.clone(),
        }
    }
}

impl Company {
    /// The company with the given identifier and metadata.
    pub fn with_id(id: Id, name: String, website: String, ceo: String, industry: String) -> (company:
        Self)
        ensures
            company == (Company { id, name, website, ceo, industry }),
    {
        Company { id, name, website, ceo, industry }
    }

    /// A company with the given metadata under a fresh random identifier.
    pub fn new(name: String, website: String, ceo: String, industry: String) -> (company: Self)
        ensures
            company == (Company { id: company.id, name, website, ceo, industry }),
            has_random_layout(company.id.bits),
    {
        Company::with_id(Id::new_v4(), name, website, ceo, industry)
    }
}

/// A tracked job application together with the company it belongs to.
#[derive(PartialEq, Eq, Debug)]
pub struct Application {
    pub id: Id,
    pub company: Company,
    pub status: Status,
    pub date: Timestamp,
}

/// The mathematical value of an `Application`.
pub struct ApplicationView {
    pub id: Id,
    pub company: CompanyView,
    pub status: Status,
    pub date: Timestamp,
}

impl View for Application {
    type V = ApplicationView;

    open spec fn view(&self) -> ApplicationView {
        ApplicationView {
            id: self.id,
            company: self.company@,
            status: self.status,
            date: self.date,
        }
    }
}

impl Clone for Application {
    fn clone(&self) -> (copy: Self)
        ensures
            copy == *self,
    {
        Application {
            id: self.id,
            company: self.company.clone(),
            status: self.status,
            date: self.date,
        }
    }
}

impl Application {
    /// The application with the given identifier and creation instant.
    pub fn with_id(id: Id, company: &Company, status: Status, date: Timestamp) -> (application:
        Self)
        ensures
            application == (Application { id, company: *company, status, date }),
    {
        Application { id, company: company.clone(), status, date }
    }

    /// An application to `company` in the given status, under a fresh random
    /// identifier and created at the present instant.
    pub fn new(company: &Company, status: Status) -> (application: Self)
        ensures
            application.company == *company,
            application.status == status,
            has_random_layout(application.id.bits),
    {
        Application::with_id(Id::new_v4(), company, status, Timestamp::now())
    }
}

/// The company part of a create request.
#[derive(PartialEq, Eq, Debug)]
pub struct CreateCompanyRequest {
    pub name: String,
    pub website: String,
    pub ceo: String,
    pub industry: String,
}

/// The mathematical value of a `CreateCompanyRequest`.
pub struct CreateCompanyRequestView {
    pub name: Seq<char>,
    pub website: Seq<char>,
    pub ceo: Seq<char>,
    pub industry: Seq<char>,
}

impl View for CreateCompanyRequest {
    type V = CreateCompanyRequestView;

    open spec fn view(&self) -> CreateCompanyRequestView {
        CreateCompanyRequestView {
            name: self.name@,
            website: self.website@,
            ceo: self.ceo@,
            industry: self.industry@,
        }
    }
}

impl Clone for CreateCompanyRequest {
    fn clone(&self) -> (copy: Self)
        ensures
            copy == *self,
    {
        CreateCompanyRequest {
            name: self.name.clone(),
            website: self.website.clone(),
            ceo: self.ceo.clone(),
            industry: self.industry.clone(),
        }
    }
}

impl CreateCompanyRequestView {
    /// The first required field that is empty, in the order name, website,
    /// ceo, industry.
    pub open spec fn missing_field(self) -> Option<Field> {
        if self.name.len() == 0 {
            Some(Field::Name)
        } else if self.website.len() == 0 {
            Some(Field::Website)
        } else if self.ceo.len() == 0 {
            Some(Field::Ceo)
        } else if self.industry.len() == 0 {
            Some(Field::Industry)
        } else {
            None
        }
    }

    /// Whether a company carries exactly the metadata of this request.
    pub open spec fn describes(self, company: CompanyView) -> bool {
        &&& company.name == self.name
        &&& company.website == self.website
        &&& company.ceo == self.ceo
        &&& company.industry == self.industry
    }
}

impl CreateCompanyRequest {
    /// The first required field that is empty, if any.
    pub fn missing_field(&self) -> (missing: Option<Field>)
        ensures
            missing == self@.missing_field(),
    {
        if self.name.as_str().is_empty() {
            Some(Field::Name)
        } else if self.website.as_str().is_empty() {
            Some(Field::Website)
        } else if self.ceo.as_str().is_empty() {
            Some(Field::Ceo)
        } else if self.industry.as_str().is_empty() {
            Some(Field::Industry)
        } else {
            None
        }
    }
}

/// A request to create an application together with its company.
#[derive(PartialEq, Eq, Debug)]
pub struct CreateApplicationRequest {
    pub company: CreateCompanyRequest,
    pub status: Status,
}

/// The mathematical value of a `CreateApplicationRequest`.
pub struct CreateApplicationRequestView {
    pub company: CreateCompanyRequestView,
    pub status: Status,
}

impl View for CreateApplicationRequest {
    type V = CreateApplicationRequestView;

    open spec fn view(&self) -> CreateApplicationRequestView {
        CreateApplicationRequestView { company: self.company@, status: self.status }
    }
}

impl CreateApplicationRequestView {
    /// The request for an application to the given company. A request made
    /// without a status asks for the default one, `ToDo`.
    pub open spec fn asking(
        company: CreateCompanyRequestView,
        status: Option<Status>,
    ) -> CreateApplicationRequestView {
        CreateApplicationRequestView {
            company,
            status: match status {
                Some(status) => status,
                None => Status::ToDo,
            },
        }
    }
}

impl Clone for CreateApplicationRequest {
    fn clone(&self) -> (copy: Self)
        ensures
            copy == *self,
    {
        CreateApplicationRequest { company: self.company.clone(), status: self.status }
    }
}

impl CreateApplicationRequest {
    /// The request for an application to the given company. A caller that
    /// names no status asks for the default one, `ToDo`.
    pub fn new(company: CreateCompanyRequest, status: Option<Status>) -> (request: Self)
        ensures
            request.company == company,
            request@ == CreateApplicationRequestView::asking(company@, status),
    {
        let status = match status {
            Some(status) => status,
            None => Status::default(),
        };
        CreateApplicationRequest { company, status }
    }

    /// Reads a request from the fields of a form. An empty company field
    /// is rejected, the first one in the order name, website, ceo, industry;
    /// then a status that is no token is rejected. A form without a status
    /// asks for `ToDo`.
    pub fn from_fields(
        name: String,
        website: String,
        ceo: String,
        industry: String,
        status: Option<&str>,
    ) -> (read: Result<Self, Failure>)
        ensures
            match (CreateCompanyRequestView {
                name: name@,
                website: website@,
                ceo: ceo@,
                industry: industry@,
            }).missing_field() {
                Some(field) => read matches Err(failure) && failure@ == (
                FailureView::MissingField { field }),
                None => match status {
                    None => read matches Ok(request) && request == (CreateApplicationRequest {
                        company: CreateCompanyRequest { name, website, ceo, industry },
                        status: Status::ToDo,
                    }),
                    Some(token) => match Status::from_token(token@) {
                        Some(status) => read matches Ok(request) && request == (
                        CreateApplicationRequest {
                            company: CreateCompanyRequest { name, website, ceo, industry },
                            status,
                        }),
                        None => read matches Err(failure) && failure@ == (
                        FailureView::InvalidStatus { message: invalid_status_message(token@) }),
                    },
                },
            },
    {
        let company = CreateCompanyRequest { name, website, ceo, industry };
        match company.missing_field() {
            Some(field) => {
                return Err(Failure::MissingField { field });
            },
            None => {},
        }
        let status = match status {
            None => None,
            Some(token) => match Status::from_str(token) {
                Ok(status) => Some(status),
                Err(message) => {
                    return Err(Failure::InvalidStatus { message });
                },
            },
        };
        Ok(CreateApplicationRequest::new(company, status))
    }

    /// Checks the request before anything is written: every company field
    /// must be non-empty.
    pub fn validate(&self) -> (checked: Result<(), Failure>)
        ensures
            match self@.company.missing_field() {
                Some(field) => checked matches Err(failure) && failure@ == (
                FailureView::MissingField { field }),
                None => checked is Ok,
            },
    {
        match self.company.missing_field() {
            Some(field) => Err(Failure::MissingField { field }),
            None => Ok(()),
        }
    }
}

/// One entry of the list: an application with its company, the creation
/// instant as text.
#[derive(PartialEq, Eq, Debug)]
pub struct AllApplicationsResponse {
    pub id: Id,
    pub company: Company,
    pub status: Status,
    pub date: String,
}

/// The mathematical value of an `AllApplicationsResponse`.
pub struct AllApplicationsResponseView {
    pub id: Id,
    pub company: CompanyView,
    pub status: Status,
    pub date: Seq<char>,
}

impl View for AllApplicationsResponse {
    type V = AllApplicationsResponseView;

    open spec fn view(&self) -> AllApplicationsResponseView {
        AllApplicationsResponseView {
            id: self.id,
            company: self.company@,
            status: self.status,
            date: self.date@,
        }
    }
}

impl Clone for AllApplicationsResponse {
    fn clone(&self) -> (copy: Self)
        ensures
            copy == *self,
    {
        AllApplicationsResponse {
            id: self.id,
            company: self.company.clone(),
            status: self.status,
            date: self.date.clone(),
        }
    }
}

/// A row of the applications table: an application with the identifier of
/// its company in place of the company.
#[derive(Clone, Copy, PartialEq, Eq, Structural, Debug, Hash)]
pub struct ApplicationRecord {
    pub id: Id,
    pub company_id: Id,
    pub status: Status,
    pub date: Timestamp,
}

impl ApplicationView {
    /// The row that the applications table holds for this application.
    pub open spec fn record(self) -> ApplicationRecord {
        ApplicationRecord {
            id: self.id,
            company_id: self.company.id,
            status: self.status,
            date: self.date,
        }
    }

    /// The list entry that shows this application.
    pub open spec fn listed(self) -> AllApplicationsResponseView {
        AllApplicationsResponseView {
            id: self.id,
            company: self.company,
            status: self.status,
            date: self.date.text(),
        }
    }
}

/// A row of the list as the record store delivers it: the application
/// joined with its company, every column as text.
#[derive(PartialEq, Eq, Debug)]
pub struct ApplicationRow {
    pub id: String,
    pub status: String,
    pub date: String,
    pub company_id: String,
    pub name: String,
    pub website: String,
    pub ceo: String,
    pub industry: String,
}

/// The mathematical value of an `ApplicationRow`.
pub struct ApplicationRowView {
    pub id: Seq<char>,
    pub status: Seq<char>,
    pub date: Seq<char>,
    pub company_id: Seq<char>,
    pub name: Seq<char>,
    pub website: Seq<char>,
    pub ceo: Seq<char>,
    pub industry: Seq<char>,
}

impl View for ApplicationRow {
    type V = ApplicationRowView;

    open spec fn view(&self) -> ApplicationRowView {
        ApplicationRowView {
            id: self.id@,
            status: self.status@,
            date: self.date@,
            company_id: self.company_id@,
            name: self.name@,
            website: self.website@,
            ceo: self.ceo@,
            industry: self.industry@,
        }
    }
}

impl Clone for ApplicationRow {
    fn clone(&self) -> (copy: Self)
        ensures
            copy == *self,
    {
        ApplicationRow {
            id: self.id.clone(),
            status: self.status.clone(),
            date: self.date.clone(),
            company_id: self.company_id.clone(),
            name: self.name.clone(),
            website: self.website.clone(),
            ceo: self.ceo.clone(),
            industry: self.industry.clone(),
        }
    }
}

impl ApplicationRowView {
    /// The first column that cannot be decoded, in the order in which the
    /// columns are read: application id, status, company id.
    pub open spec fn defect(self) -> Option<Column> {
        if Id::from_text(self.id) is None {
            Some(Column::Id)
        } else if Status::from_token(self.status) is None {
            Some(Column::Status)
        } else if Id::from_text(self.company_id) is None {
            Some(Column::CompanyId)
        } else {
            None
        }
    }

    /// The list entry that a row without defect stands for.
    pub open spec fn entry(self) -> AllApplicationsResponseView {
        AllApplicationsResponseView {
            id: Id::from_text(self.id)->0,
            company: CompanyView {
                id: Id::from_text(self.company_id)->0,
                name: self.name,
                website: self.website,
                ceo: self.ceo,
                industry: self.industry,
            },
            status: Status::from_token(self.status)->0,
            date: self.date,
        }
    }

    /// Whether `failure` is the failure that rejects this row: it names the
    /// first column that cannot be decoded and describes the fault in a
    /// message that is not empty; for a status column that is the message
    /// that quotes the token.
    pub open spec fn rejected_with(self, failure: FailureView) -> bool {
        &&& failure matches FailureView::CorruptRow { column, message }
        &&& self.defect() == Some(column)
        &&& message.len() > 0
        &&& column == Column::Status ==> message == invalid_status_message(self.status)
    }

    /// The row that holds the list entry `entry` as text.
    pub open spec fn holds(self, entry: AllApplicationsResponseView) -> bool {
        self.defect() is None && self.entry() == entry
    }
}

impl AllApplicationsResponse {
    /// The list entry for an application, its creation instant written out.
    pub fn from(s: Application) -> (entry: Self)
        ensures
            entry@ == s@.listed(),
    {
        let date = s.date.to_text();
        AllApplicationsResponse { id: s.id, company: s.company, status: s.status, date }
    }

    /// Builds the list entry of a row from its two identifier columns as
    /// already read, `id` and `company_id`, and the other columns as they
    /// are. The columns are judged in the order application id, status,
    /// company id, and the first one at fault is reported: an identifier with
    /// the message that came with it, a status with the message that quotes
    /// the token.
    pub fn from_columns(
        id: Result<Id, String>,
        company_id: Result<Id, String>,
        r: ApplicationRow,
    ) -> (decoded: Result<Self, Failure>)
        ensures
            match (id, Status::from_token(r.status@), company_id) {
                (Err(message), _, _) => decoded matches Err(failure) && failure@ == (
                FailureView::CorruptRow { column: Column::Id, message: message@ }),
                (Ok(_), None, _) => decoded matches Err(failure) && failure@ == (
                FailureView::CorruptRow {
                    column: Column::Status,
                    message: invalid_status_message(r.status@),
                }),
                (Ok(_), Some(_), Err(message)) => decoded matches Err(failure) && failure@ == (
                FailureView::CorruptRow { column: Column::CompanyId, message: message@ }),
                (Ok(id), Some(status), Ok(company_id)) => decoded matches Ok(entry) && entry@ == (
                AllApplicationsResponseView {
                    id,
                    company: CompanyView {
                        id: company_id,
                        name: r.name@,
                        website: r.website@,
                        ceo: r.ceo@,
                        industry: r.industry@,
                    },
                    status,
                    date: r.date@,
                }),
            },
    {
        let id = match id {
            Ok(id) => id,
            Err(message) => {
                return Err(Failure::CorruptRow { column: Column::Id, message });
            },
        };
        let status = match Status::from_str(r.status.as_str()) {
            Ok(status) => status,
            Err(message) => {
                return Err(Failure::CorruptRow { column: Column::Status, message });
            },
        };
        let company_id = match company_id {
            Ok(company_id) => company_id,
            Err(message) => {
                return Err(Failure::CorruptRow { column: Column::CompanyId, message });
            },
        };
        Ok(
            AllApplicationsResponse {
                id,
                status,
                date: r.date,
                company: Company {
                    id: company_id,
                    name: r.name,
                    website: r.website,
                    ceo: r.ceo,
                    industry: r.industry,
                },
            },
        )
    }

    /// Decodes a row into a list entry. The row is rejected as corrupt at
    /// its first column that cannot be decoded.
    pub fn try_from(r: ApplicationRow) -> (decoded: Result<Self, Failure>)
        ensures
            match r@.defect() {
                None => decoded matches Ok(entry) && entry@ == r@.entry(),
                Some(_) => decoded matches Err(failure) && r@.rejected_with(failure@),
            },
    {
        let id = Id::parse_str(r.id.as_str());
        let company_id = Id::parse_str(r.company_id.as_str());
        proof {
            lemma_invalid_status_message_is_not_empty(r.status@);
        }
        AllApplicationsResponse::from_columns(id, company_id, r)
    }
}

} // verus!
