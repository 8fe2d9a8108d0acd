//! Record identifiers: 128-bit values that the `uuid` crate generates,
//! writes as text and reads back.

use vstd::prelude::*;

verus! {

/// `uuid::Error`, the error with which `uuid::Uuid::parse_str` rejects a
/// text. Nothing is known of what it holds.
#[verifier::external_type_specification]
#[verifier::external_body]
pub struct ExUuidError(uuid::Error);

/// What `uuid::Uuid::parse_str` makes of a text: the 128-bit value it reads,
/// or nothing where it rejects the text.
pub uninterp spec fn parsed_uuid(text: Seq<char>) -> Option<u128>;

/// The lower-case hexadecimal digit for a value below sixteen.
pub open spec fn hex_digit(value: u128) -> char {
    if value == 0 {
        '0'
    } else if value == 1 {
        '1'
    } else if value == 2 {
        '2'
    } else if value == 3 {
        '3'
    } else if value == 4 {
        '4'
    } else if value == 5 {
        '5'
    } else if value == 6 {
        '6'
    } else if value == 7 {
        '7'
    } else if value == 8 {
        '8'
    } else if value == 9 {
        '9'
    } else if value == 10 {
        'a'
    } else if value == 11 {
        'b'
    } else if value == 12 {
        'c'
    } else if value == 13 {
        'd'
    } else if value == 14 {
        'e'
    } else {
        'f'
    }
}

/// The `index`-th of the 32 four-bit groups of `bits`, counted from the most
/// significant.
pub open spec fn nibble(bits: u128, index: int) -> u128 {
    (bits >> ((4 * (31 - index)) as u128)) & 0xf
}

/// The hyphenated form `xxxxxxxx-xxxx-xxxx-xxxx-xxxxxxxxxxxx`: 32 lower-case
/// hexadecimal digits, most significant first, in groups of 8, 4, 4, 4 and
/// 12.
pub open spec fn hyphenated(bits: u128) -> Seq<char> {
    Seq::new(
        36,
        |at: int|
            if at == 8 || at == 13 || at == 18 || at == 23 {
                '-'
            } else if at < 8 {
                hex_digit(nibble(bits, at))
            } else if at < 13 {
                hex_digit(nibble(bits, at - 1))
            } else if at < 18 {
                hex_digit(nibble(bits, at - 2))
            } else if at < 23 {
                hex_digit(nibble(bits, at - 3))
            } else {
                hex_digit(nibble(bits, at - 4))
            },
    )
}

/// Calls `uuid::Uuid::parse_str` and hands out the value as a `u128`. The
/// result is `Ok` exactly where `parsed_uuid` has a value for the text, and
/// then holds that value.
#[verifier::external_body]
fn parse_uuid(text: &str) -> (outcome: Result<u128, uuid::Error>)
    ensures
        match outcome {
            Ok(bits) => parsed_uuid(text@) == Some(bits),
            Err(_) => parsed_uuid(text@) is None,
        },
{
    match uuid::Uuid::parse_str(text) {
        Ok(uuid) => Ok(uuid.as_u128()),
        Err(error) => Err(error),
    }
}

/// The message of a `uuid::Error`, as its `Display` writes it. Every kind
/// of error is written with some words of its own, so the text is never
/// empty; which words they are is not claimed.
#[verifier::external_body]
fn uuid_error_text(error: &uuid::Error) -> (message: String)
    ensures
        message@.len() > 0,
{
    error.to_string()
}

/// Writes the value as `uuid::Uuid` displays it: in the hyphenated lower-case
/// form, which `uuid::Uuid::parse_str` reads back as the same value.
#[verifier::external_body]
fn uuid_text(bits: u128) -> (text: String)
    ensures
        text@ == hyphenated(bits),
        parsed_uuid(text@) == Some(bits),
{
    uuid::Uuid::from_u128(bits).to_string()
}

/// Calls `uuid::Uuid::new_v4`, which does not return where the operating
/// system has no random bytes to give. Whatever the random bits, the version
/// field holds 4 and the variant field starts with the bits `10`.
#[verifier::external_body]
fn random_uuid() -> (bits: u128)
    ensures
        has_random_layout(bits),
{
    uuid::Uuid::new_v4().as_u128()
}

/// Whether the version field holds 4 and the variant field starts with the
/// bits `10`, as in every randomly generated identifier.
pub open spec fn has_random_layout(bits: u128) -> bool {
    &&& (bits >> 76) & 0xf == 4
    &&& (bits >> 62) & 0x3 == 2
}

/// The identifier of a company or an application.
#[derive(Clone, Copy, PartialEq, Eq, Structural, Debug, Hash)]
pub struct Id {
    pub bits: u128,
}

impl Id {
    /// The text that stands for the identifier in a stored row.
    pub open spec fn text(self) -> Seq<char> {
        hyphenated(self.bits)
    }

    /// The identifier that a text stands for, if it is well formed.
    pub open spec fn from_text(text: Seq<char>) -> Option<Id> {
        match parsed_uuid(text) {
            Some(bits) => Some(Id { bits }),
            None => None,
        }
    }

    /// The identifier with the given 128 bits.
    pub fn from_u128(bits: u128) -> (id: Id)
        ensures
            id.bits == bits,
    {
        Id { bits }
    }

    /// A fresh random identifier.
    pub fn new_v4() -> (id: Id)
        ensures
            has_random_layout(id.bits),
    {
        Id { bits: random_uuid() }
    }

    /// Reads an identifier from text. A malformed text is rejected with a
    /// message, never empty, that describes what is wrong with it.
    pub fn parse_str(text: &str) -> (parsed: Result<Id, String>)
        ensures
            match Id::from_text(text@) {
                Some(id) => parsed == Ok::<Id, String>(id),
                None => parsed matches Err(message) && message@.len() > 0,
            },
    {
        match parse_uuid(text) {
            Ok(bits) => Ok(Id { bits }),
            Err(error) => Err(uuid_error_text(&error)),
        }
    }

    /// Writes the identifier as text. Reading the text gives the identifier
    /// back.
    pub fn to_text(&self) -> (text: String)
        ensures
            text@ == self.text(),
            Id::from_text(text@) == Some(*self),
    {
        uuid_text(self.bits)
    }
}

} // verus!
