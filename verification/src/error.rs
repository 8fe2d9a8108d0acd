//! The failures that an operation can report, by kind.

use vstd::prelude::*;
use vstd::string::*;

verus! {

/// A required field of a create request.
#[derive(Clone, Copy, PartialEq, Eq, Structural, Debug, Hash)]
pub enum Field {
    Name,
    Website,
    Ceo,
    Industry,
}

/// A column of a listed row that has to be decoded.
#[derive(Clone, Copy, PartialEq, Eq, Structural, Debug, Hash)]
pub enum Column {
    Id,
    Status,
    CompanyId,
}

/// One of the two tables of the record store.
#[derive(Clone, Copy, PartialEq, Eq, Structural, Debug, Hash)]
pub enum Table {
    Companies,
    Applications,
}

/// The three kinds of failure. A write that finds no row to change is none
/// of them: it succeeds without effect.
#[derive(Clone, Copy, PartialEq, Eq, Structural, Debug, Hash)]
pub enum FailureKind {
    /// The input was rejected before any write.
    Validation,
    /// The record store refused or failed.
    Store,
    /// A stored row does not have the expected shape.
    Decode,
}

/// Why an operation failed.
#[derive(PartialEq, Eq, Debug)]
pub enum Failure {
    /// A required field of the request is empty.
    MissingField { field: Field },
    /// A text that should be a status token is none.
    InvalidStatus { message: String },
    /// A row with the same primary key is already in the table.
    DuplicateKey { table: Table },
    /// The storage behind the record store reported a failure.
    Storage { message: String },
    /// A column of a stored row could not be decoded.
    CorruptRow { column: Column, message: String },
}

/// The mathematical value of a `Failure`.
pub enum FailureView {
    MissingField { field: Field },
    InvalidStatus { message: Seq<char> },
    DuplicateKey { table: Table },
    Storage { message: Seq<char> },
    CorruptRow { column: Column, message: Seq<char> },
}

impl View for Failure {
    type V = FailureView;

    open spec fn view(&self) -> FailureView {
        match *self {
            Failure::MissingField { field } => FailureView::MissingField { field },
            Failure::InvalidStatus { message } => FailureView::InvalidStatus { message: message@ },
            Failure::DuplicateKey { table } => FailureView::DuplicateKey { table },
            Failure::Storage { message } => FailureView::Storage { message: message@ },
            Failure::CorruptRow { column, message } => FailureView::CorruptRow {
                column,
                message: message@,
            },
        }
    }
}

impl Clone for Failure {
    fn clone(&self) -> (copy: Self)
        ensures
            copy == *self,
    {
        match self {
            Failure::MissingField { field } => Failure::MissingField { field: *field },
            Failure::InvalidStatus { message } => Failure::InvalidStatus {
                message: message.clone(),
            },
            Failure::DuplicateKey { table } => Failure::DuplicateKey { table: *table },
            Failure::Storage { message } => Failure::Storage { message: message.clone() },
            Failure::CorruptRow { column, message } => Failure::CorruptRow {
                column: *column,
                message: message.clone(),
            },
        }
    }
}

impl Field {
    /// The name of the field as a request spells it.
    pub open spec fn name_text(self) -> Seq<char> {
        match self {
            Field::Name => "name"@,
            Field::Website => "website"@,
            Field::Ceo => "ceo"@,
            Field::Industry => "industry"@,
        }
    }

    /// The name of the field as a request spells it.
    pub fn name(&self) -> (name: &'static str)
        ensures
            name@ == self.name_text(),
    {
        match self {
            Field::Name => "name",
            Field::Website => "website",
            Field::Ceo => "ceo",
            Field::Industry => "industry",
        }
    }
}

impl Table {
    /// The name of the table in the persisted schema.
    pub open spec fn name_text(self) -> Seq<char> {
        match self {
            Table::Companies => "companies"@,
            Table::Applications => "applications"@,
        }
    }

    /// The name of the table in the persisted schema.
    pub fn name(&self) -> (name: &'static str)
        ensures
            name@ == self.name_text(),
    {
        match self {
            Table::Companies => "companies",
            Table::Applications => "applications",
        }
    }
}

impl FailureView {
    /// The kind of the failure.
    pub open spec fn kind(self) -> FailureKind {
        match self {
            FailureView::MissingField { .. } => FailureKind::Validation,
            FailureView::InvalidStatus { .. } => FailureKind::Validation,
            FailureView::DuplicateKey { .. } => FailureKind::Store,
            FailureView::Storage { .. } => FailureKind::Store,
            FailureView::CorruptRow { .. } => FailureKind::Decode,
        }
    }

    /// The text that describes the failure to a reader.
    pub open spec fn message(self) -> Seq<char> {
        match self {
            FailureView::MissingField { field } => "Missing required field: "@ + field.name_text(),
            FailureView::InvalidStatus { message } => message,
            FailureView::DuplicateKey { table } => "Duplicate id in table: "@ + table.name_text(),
            FailureView::Storage { message } => message,
            FailureView::CorruptRow { message, .. } => message,
        }
    }
}

/// The message of a list read that the storage failed, given the storage's
/// own account of the failure.
pub open spec fn fetch_failure_message(detail: Seq<char>) -> Seq<char> {
    "Failed to fetch applications: "@ + detail
}

impl Failure {
    /// The kind of the failure.
    pub fn kind(&self) -> (kind: FailureKind)
        ensures
            kind == self@.kind(),
    {
        match self {
            Failure::MissingField { .. } => FailureKind::Validation,
            Failure::InvalidStatus { .. } => FailureKind::Validation,
            Failure::DuplicateKey { .. } => FailureKind::Store,
            Failure::Storage { .. } => FailureKind::Store,
            Failure::CorruptRow { .. } => FailureKind::Decode,
        }
    }

    /// The text that describes the failure to a reader.
    pub fn message(&self) -> (message: String)
        ensures
            message@ == self@.message(),
    {
        match self {
            Failure::MissingField { field } => {
                let mut text = String::from_str("Missing required field: ");
                text.append(field.name());
                text
            },
            Failure::InvalidStatus { message } => message.clone(),
            Failure::DuplicateKey { table } => {
                let mut text = String::from_str("Duplicate id in table: ");
                text.append(table.name());
                text
            },
            Failure::Storage { message } => message.clone(),
            Failure::CorruptRow { message, .. } => message.clone(),
        }
    }

    /// The failure of a list read whose rows the storage could not deliver.
    pub fn fetch(detail: &str) -> (failure: Failure)
        ensures
            failure@ == (FailureView::Storage { message: fetch_failure_message(detail@) }),
    {
        let mut message = String::from_str("Failed to fetch applications: ");
        message.append(detail);
        Failure::Storage { message }
    }
}

} // verus!
