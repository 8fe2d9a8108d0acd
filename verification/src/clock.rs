//! Creation timestamps: nanoseconds since the Unix epoch, read from the
//! clock and written as text by the `time` crate.

use vstd::prelude::*;

verus! {

/// The text that `time::OffsetDateTime` displays for the instant `nanos`
/// nanoseconds after the Unix epoch, taken in UTC; nothing where the crate
/// has no date for that instant.
pub uninterp spec fn timestamp_text(nanos: i128) -> Option<Seq<char>>;

/// Reads the clock with `time::OffsetDateTime::now_utc` and hands out the
/// instant as nanoseconds since the Unix epoch. The call does not return
/// where the clock stands outside the range of dates that the crate knows;
/// for every instant that it returns, the crate has a date.
#[verifier::external_body]
fn clock_nanos() -> (nanos: i128)
    ensures
        timestamp_text(nanos) is Some,
{
    time::OffsetDateTime::now_utc().unix_timestamp_nanos()
}

/// Builds the `time::OffsetDateTime` for the instant with
/// `from_unix_timestamp_nanos` and displays it. The result is the text that
/// `timestamp_text` names, and nothing where the crate rejects the instant.
#[verifier::external_body]
fn display_nanos(nanos: i128) -> (text: Option<String>)
    ensures
        match text {
            Some(text) => timestamp_text(nanos) == Some(text@),
            None => timestamp_text(nanos) is None,
        },
{
    match time::OffsetDateTime::from_unix_timestamp_nanos(nanos) {
        Ok(instant) => Some(instant.to_string()),
        Err(_) => None,
    }
}

/// The instant at which an application was created. Only instants that have
/// a date can be constructed.
#[derive(Clone, Copy, PartialEq, Eq, Structural, Debug, Hash)]
pub struct Timestamp {
    nanos: i128,
}

impl Timestamp {
    #[verifier::type_invariant]
    spec fn has_date(self) -> bool {
        timestamp_text(self.nanos) is Some
    }

    /// Nanoseconds since the Unix epoch; negative before it.
    pub closed spec fn nanos(self) -> int {
        self.nanos as int
    }

    /// The text that stands for the instant in a stored row and in the list.
    pub closed spec fn text(self) -> Seq<char> {
        timestamp_text(self.nanos)->0
    }

    /// The present instant, as the clock of the machine gives it. Which
    /// instant that is depends on the clock; whichever is returned, it has a
    /// date, and its text is the text written for its nanosecond count.
    pub fn now() -> (instant: Timestamp)
        ensures
            timestamp_text(instant.nanos() as i128) == Some(instant.text()),
    {
        Timestamp { nanos: clock_nanos() }
    }

    /// The instant `nanos` nanoseconds after the Unix epoch, if it has a
    /// date.
    pub fn from_unix_nanos(nanos: i128) -> (instant: Option<Timestamp>)
        ensures
            instant is Some <==> timestamp_text(nanos) is Some,
            instant matches Some(instant) ==> instant.nanos() == nanos && timestamp_text(nanos)
                == Some(instant.text()),
    {
        match display_nanos(nanos) {
            Some(_) => Some(Timestamp { nanos }),
            None => None,
        }
    }

    /// Nanoseconds since the Unix epoch; negative before it.
    pub fn unix_nanos(&self) -> (nanos: i128)
        ensures
            nanos == self.nanos(),
    {
        self.nanos
    }

    /// Writes the instant as text.
    pub fn to_text(&self) -> (text: String)
        ensures
            text@ == self.text(),
    {
        proof {
            use_type_invariant(self);
        }
        match display_nanos(self.nanos) {
            Some(text) => text,
            None => String::new(),
        }
    }

    /// Whether this instant is strictly later than `other`.
    pub fn is_after(&self, other: &Timestamp) -> (later: bool)
        ensures
            later == (self.nanos() > other.nanos()),
    {
        self.nanos > other.nanos
    }
}

/// Two instants with the same nanosecond count are the same instant.
pub proof fn lemma_nanos_identify(a: Timestamp, b: Timestamp)
    requires
        a.nanos() == b.nanos(),
    ensures
        a == b,
{
}

} // verus!
