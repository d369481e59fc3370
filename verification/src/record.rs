//! Commit records: what the picker knows about one commit.

use vstd::prelude::*;

verus! {

/// The date and time that `chrono` prints for a moment given in whole seconds
/// since the Unix epoch, or `None` where the moment lies outside the years
/// that `chrono` can represent.
pub uninterp spec fn date_text(seconds: int) -> Option<Seq<char>>;

/// The mathematical content of a [`CommitRecord`].
pub ghost struct RecordView {
    pub identifier: Seq<char>,
    pub message: Seq<char>,
    pub timestamp: int,
    pub date: Seq<char>,
}

/// One commit of the history: its identifier, its message, the moment it was
/// made and that moment written out for display.
#[derive(Debug)]
pub struct CommitRecord {
    identifier: String,
    message: String,
    timestamp: i64,
    date: String,
}

impl View for CommitRecord {
    type V = RecordView;

    closed spec fn view(&self) -> RecordView {
        RecordView {
            identifier: self.identifier@,
            message: self.message@,
            timestamp: self.timestamp as int,
            date: self.date@,
        }
    }
}

impl DeepView for CommitRecord {
    type V = RecordView;

    open spec fn deep_view(&self) -> RecordView {
        self@
    }
}

/// Calls `chrono::DateTime::from_timestamp(seconds, 0)` and prints the moment
/// with `DateTime::naive_utc` and the `Display` of `NaiveDateTime`, as in
/// `2024-01-01 00:00:00`. Believed without proof: what comes back depends on
/// `seconds` alone, `None` where `from_timestamp` finds the seconds out of
/// range and the printed text otherwise.
#[verifier::external_body]
fn format_timestamp(seconds: i64) -> (text: Option<String>)
    ensures
        match text {
            Some(t) => date_text(seconds as int) == Some(t@),
            None => date_text(seconds as int) is None,
        },
{
    match chrono::DateTime::from_timestamp(seconds, 0) {
        Some(moment) => Some(moment.naive_utc().to_string()),
        None => None,
    }
}

impl CommitRecord {
    /// A record whose date text is supplied by the caller.
    pub fn with_date(identifier: String, message: String, timestamp: i64, date: String) -> (record:
        CommitRecord)
        ensures
            record@ == (RecordView {
                identifier: identifier@,
                message: message@,
                timestamp: timestamp as int,
                date: date@,
            }),
    {
        CommitRecord { identifier, message, timestamp, date }
    }

    /// A record for a commit made `timestamp` seconds after the Unix epoch,
    /// or `None` where that moment has no calendar date.
    pub fn new(identifier: String, message: String, timestamp: i64) -> (record: Option<
        CommitRecord,
    >)
        ensures
            match record {
                Some(r) => date_text(timestamp as int) == Some(r@.date) && r@ == (RecordView {
                    identifier: identifier@,
                    message: message@,
                    timestamp: timestamp as int,
                    date: r@.date,
                }),
                None => date_text(timestamp as int) is None,
            },
    {
        match format_timestamp(timestamp) {
            Some(date) => Some(CommitRecord::with_date(identifier, message, timestamp, date)),
            None => None,
        }
    }

    /// The full identifier of the commit.
    pub fn identifier(&self) -> (identifier: &String)
        ensures
            identifier@ == self@.identifier,
    {
        &self.identifier
    }

    /// The commit message as it was written.
    pub fn message(&self) -> (message: &String)
        ensures
            message@ == self@.message,
    {
        &self.message
    }

    /// Seconds since the Unix epoch.
    pub fn timestamp(&self) -> (timestamp: i64)
        ensures
            timestamp == self@.timestamp,
    {
        self.timestamp
    }

    /// The moment of the commit as it is displayed.
    pub fn date(&self) -> (date: &String)
        ensures
            date@ == self@.date,
    {
        &self.date
    }
}

} // verus!
