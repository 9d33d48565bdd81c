//! A log record, and the instant in time that it carries.

use vstd::prelude::*;

verus! {

/// `std::io::Error`, the error type of the standard library's I/O. Nothing
/// is claimed of it: a value of it is carried through unopened.
#[verifier::external_type_specification]
#[verifier::external_body]
pub struct ExIoError(std::io::Error);

/// An instant in time: whole seconds since the start of 1970 in UTC, and the
/// nanoseconds since that second began. During a leap second the nanoseconds
/// run past 999,999,999.
#[derive(Clone, Copy, Debug, PartialEq, Eq, Structural)]
pub struct Timestamp {
    pub secs: i64,
    pub nanos: u32,
}

impl Timestamp {
    /// `self` is not earlier than `other`.
    pub open spec fn at_or_after(self, other: Timestamp) -> bool {
        self.secs > other.secs || (self.secs == other.secs && self.nanos >= other.nanos)
    }

    /// Whether `self` is not earlier than `other`.
    pub fn is_at_or_after(&self, other: &Timestamp) -> (later: bool)
        ensures
            later == self.at_or_after(*other),
    {
        self.secs > other.secs || (self.secs == other.secs && self.nanos >= other.nanos)
    }

    /// Reads a date and time with its offset from UTC, written as RFC 3339
    /// has it or with a space in place of the `T`.
    pub fn parse(text: &str) -> (parsed: Option<Timestamp>)
        ensures
            parsed == instant_of(parsed_instant(text@)),
    {
        Timestamp::from_parts(parse_instant(text))
    }

    /// The instant made of seconds and nanoseconds, where there is one.
    pub fn from_parts(parts: Option<(i64, u32)>) -> (instant: Option<Timestamp>)
        ensures
            instant == instant_of(parts),
    {
        match parts {
            Some((secs, nanos)) => Some(Timestamp { secs, nanos }),
            None => None,
        }
    }
}

/// The instant made of seconds and nanoseconds, where there is one.
pub open spec fn instant_of(parts: Option<(i64, u32)>) -> Option<Timestamp> {
    match parts {
        Some(p) => Some(Timestamp { secs: p.0, nanos: p.1 }),
        None => None,
    }
}

/// What chrono's `FromStr` for `DateTime<FixedOffset>` reads out of a text:
/// the seconds and nanoseconds of the instant, or nothing where the text is
/// no date and time. The grammar is chrono's and is not written out here.
pub uninterp spec fn parsed_instant(text: Seq<char>) -> Option<(i64, u32)>;

/// Calls chrono's `FromStr` for `DateTime<FixedOffset>`, then
/// `DateTime::timestamp` and `DateTime::timestamp_subsec_nanos` on what it
/// read. Trusted: the result depends on the text alone, since the text
/// carries its own offset from UTC and no clock, zone or locale of the
/// machine is asked. Chrono orders two dates by the UTC date, the second of
/// the day and the nanosecond, which is the order of these two numbers taken
/// as a pair; read for the local zone, the same text gives the same instant.
#[verifier::external_body]
fn parse_instant(text: &str) -> (parts: Option<(i64, u32)>)
    ensures
        parts == parsed_instant(text@),
{
    match text.parse::<chrono::DateTime<chrono::FixedOffset>>() {
        Ok(moment) => Some((moment.timestamp(), moment.timestamp_subsec_nanos())),
        Err(_) => None,
    }
}

/// Calls chrono's `Local::now`, then `DateTime::timestamp` and
/// `DateTime::timestamp_subsec_nanos`. Nothing is claimed of the result: it is
/// what the machine's clock says. Chrono gives up where that clock stands
/// before 1970.
#[verifier::external_body]
fn current_instant() -> (now: Timestamp) {
    let now = chrono::Local::now();
    Timestamp { secs: now.timestamp(), nanos: now.timestamp_subsec_nanos() }
}

/// One entry of a log. The `id` is given when the log is loaded and names the
/// record from then on, wherever the record is stored.
#[derive(Debug, Clone, PartialEq)]
pub struct Record {
    pub id: u64,
    pub date: Timestamp,
    pub computer_name: String,
    pub process_id: u32,
    pub process_user: String,
    pub module_name: String,
    pub message_id: u32,
    pub log_level: u8,
    pub facility: u32,
    pub log_message: String,
}

impl Record {
    /// `self` is the built-in sample entry, whatever its date.
    pub open spec fn is_sample(self) -> bool {
        &&& self.id == 0
        &&& self.computer_name@ == "My PC"@
        &&& self.process_id == 1234
        &&& self.process_user@ == "My User"@
        &&& self.module_name@ == "Hello"@
        &&& self.message_id == 1
        &&& self.log_level == 3
        &&& self.facility == 5
        &&& self.log_message@ == "This is a log message 1"@
    }

    /// The built-in sample entry, dated `date`.
    pub fn sample(date: Timestamp) -> (record: Record)
        ensures
            record.is_sample(),
            record.date == date,
    {
        Record {
            id: 0,
            date,
            computer_name: "My PC".to_owned(),
            process_id: 1234,
            process_user: "My User".to_owned(),
            module_name: "Hello".to_owned(),
            message_id: 1,
            log_level: 3,
            facility: 5,
            log_message: "This is a log message 1".to_owned(),
        }
    }

    /// The records to show: one sample entry, dated now.
    pub fn read_records() -> (loaded: std::io::Result<Vec<Record>>)
        ensures
            loaded is Ok,
            loaded->Ok_0@.len() == 1,
            loaded->Ok_0@[0].is_sample(),
    {
        let mut records: Vec<Record> = Vec::new();
        records.push(Record::sample(current_instant()));
        Ok(records)
    }
}

} // verus!
