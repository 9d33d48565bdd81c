use log_reader::record::{Record, Timestamp};

#[test]
fn test_load_small_file() {
    let events = Record::read_records();
    assert_eq!(events.is_ok(), true);
}

#[test]
fn read_records_gives_the_sample_entry() {
    let events = Record::read_records().unwrap();
    assert_eq!(events.len(), 1);
    let record = &events[0];
    assert_eq!(record.id, 0);
    assert_eq!(record.computer_name, "My PC");
    assert_eq!(record.process_id, 1234);
    assert_eq!(record.process_user, "My User");
    assert_eq!(record.module_name, "Hello");
    assert_eq!(record.message_id, 1);
    assert_eq!(record.log_level, 3);
    assert_eq!(record.facility, 5);
    assert_eq!(record.log_message, "This is a log message 1");
}

#[test]
fn read_records_dates_the_entry_by_the_clock() {
    let events = Record::read_records().unwrap();
    // Later than the start of 2024, and the nanoseconds are those of a second.
    assert!(events[0].date.secs > 1_704_067_200);
    assert!(events[0].date.nanos < 2_000_000_000);
}

#[test]
fn sample_takes_the_date_it_is_given() {
    let date = Timestamp { secs: 42, nanos: 7 };
    let record = Record::sample(date);
    assert_eq!(record.date, date);
    assert_eq!(record.id, 0);
    assert_eq!(record.log_message, "This is a log message 1");
}

#[test]
fn timestamp_order_goes_by_seconds_first() {
    let early = Timestamp { secs: 10, nanos: 999_999_999 };
    let late = Timestamp { secs: 11, nanos: 0 };
    assert!(late.is_at_or_after(&early));
    assert!(!early.is_at_or_after(&late));
}

#[test]
fn timestamp_order_goes_by_nanoseconds_within_a_second() {
    let early = Timestamp { secs: 10, nanos: 5 };
    let late = Timestamp { secs: 10, nanos: 6 };
    assert!(late.is_at_or_after(&early));
    assert!(!early.is_at_or_after(&late));
    assert!(early.is_at_or_after(&early));
}

#[test]
fn timestamp_order_with_negative_seconds() {
    let before_epoch = Timestamp { secs: -1, nanos: 0 };
    let epoch = Timestamp { secs: 0, nanos: 0 };
    assert!(epoch.is_at_or_after(&before_epoch));
    assert!(!before_epoch.is_at_or_after(&epoch));
}

#[test]
fn parse_reads_a_utc_date() {
    let parsed = Timestamp::parse("2012-12-12T12:12:12Z");
    assert_eq!(parsed, Some(Timestamp { secs: 1_355_314_332, nanos: 0 }));
}

#[test]
fn parse_accepts_a_space_for_the_separator() {
    let with_t = Timestamp::parse("2012-12-12T12:12:12Z");
    let with_space = Timestamp::parse("2012-12-12 12:12:12Z");
    let with_offset = Timestamp::parse("2012-12-12 12:12:12+00:00");
    assert_eq!(with_t, with_space);
    assert_eq!(with_t, with_offset);
}

#[test]
fn parse_takes_the_offset_into_account() {
    let parsed = Timestamp::parse("2012-12-12T13:12:12+01:00");
    assert_eq!(parsed, Some(Timestamp { secs: 1_355_314_332, nanos: 0 }));
}

#[test]
fn parse_keeps_the_fraction_of_a_second() {
    let parsed = Timestamp::parse("2024-01-02T03:04:05.250Z");
    assert_eq!(parsed, Some(Timestamp { secs: 1_704_164_645, nanos: 250_000_000 }));
}

#[test]
fn parse_refuses_what_is_no_date() {
    assert_eq!(Timestamp::parse("yesterday"), None);
    assert_eq!(Timestamp::parse(""), None);
    assert_eq!(Timestamp::parse("2012-12-12"), None);
    assert_eq!(Timestamp::parse("2012-12-12T12:12:12"), None);
}

#[test]
fn from_parts_makes_the_instant() {
    assert_eq!(Timestamp::from_parts(Some((5, 6))), Some(Timestamp { secs: 5, nanos: 6 }));
    assert_eq!(Timestamp::from_parts(None), None);
}
