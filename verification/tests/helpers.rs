use site_gen::helpers::{get_entries, parse_date, resolve_date, DirItem, ParsedDate, Timestamp};

const DATE_FORMAT: &str = "%A, %b %e, %Y";

fn noon() -> Timestamp {
    // 2020-02-29T12:00:00+01:00
    Timestamp { secs: 1582974000, nanos: 0, offset: 3600 }
}

#[test]
fn parses_rfc3339_input() {
    let date = "2021-05-07T00:00:00-07:00";
    let parsed = parse_date(date, noon());
    let display = parsed.value.format(DATE_FORMAT).unwrap();
    assert_eq!(display, "Friday, May  7, 2021");
    assert!(!parsed.substituted);
}

#[test]
fn returns_current_time_on_bad_input() {
    let date = "Wednesday, May  8, 2021";
    let local = chrono::DateTime::<chrono::FixedOffset>::from(chrono::Local::now());
    let now = Timestamp {
        secs: local.timestamp(),
        nanos: local.timestamp_subsec_nanos(),
        offset: local.offset().local_minus_utc(),
    };
    let parsed = parse_date(date, now);
    let display_local = local.format(DATE_FORMAT).to_string();
    let display_parsed = parsed.value.format(DATE_FORMAT).unwrap();
    assert_ne!(date, display_parsed);
    assert_eq!(display_local, display_parsed);
    assert!(parsed.substituted);
    assert_eq!(parsed.value, now);
}

#[test]
fn reads_only_files() {
    let listing = vec![
        DirItem { path: "fixtures/data/one.md".to_string(), is_file: true },
        DirItem { path: "fixtures/data/nested".to_string(), is_file: false },
        DirItem { path: "fixtures/data/two.md".to_string(), is_file: true },
        DirItem { path: "fixtures/data/three.md".to_string(), is_file: true },
    ];
    let entries = get_entries(&listing);
    assert_eq!(entries.len(), 3);
    assert_eq!(
        entries,
        vec!["fixtures/data/one.md", "fixtures/data/two.md", "fixtures/data/three.md"]
    );
}

#[test]
fn empty_listing_has_no_files() {
    assert_eq!(get_entries(&Vec::new()), Vec::<String>::new());
}

#[test]
fn parsed_date_keeps_instant_and_offset() {
    let parsed = parse_date("2021-05-07T00:00:00-07:00", noon());
    assert_eq!(parsed.value, Timestamp { secs: 1620370800, nanos: 0, offset: -25200 });
    let parsed = parse_date("1970-01-01T00:00:00.5Z", noon());
    assert_eq!(parsed.value, Timestamp { secs: 0, nanos: 500_000_000, offset: 0 });
}

#[test]
fn parsing_and_formatting_round_trip() {
    let texts = [
        "2021-05-07T00:00:00-07:00",
        "1996-12-19T16:39:57-08:00",
        "2024-02-29T23:59:59+05:30",
        "2000-01-01T00:00:00+00:00",
    ];
    for text in texts {
        let parsed = parse_date(text, noon());
        assert!(!parsed.substituted);
        let again = parsed.value.format("%Y-%m-%dT%H:%M:%S%:z").unwrap();
        assert_eq!(again, text);
        assert_eq!(parse_date(&again, noon()).value, parsed.value);
    }
}

#[test]
fn later_than_goes_by_the_instant() {
    let a = parse_date("2021-05-07T00:00:00-07:00", noon()).value;
    let b = parse_date("2021-05-07T08:00:00+02:00", noon()).value;
    let c = parse_date("2021-05-07T07:00:00Z", noon()).value;
    // a and c are one instant, b is an hour earlier
    assert!(a.is_later_than(&b));
    assert!(!b.is_later_than(&a));
    assert!(!a.is_later_than(&c));
    assert!(!c.is_later_than(&a));
    let d = Timestamp { secs: a.secs, nanos: 1, offset: 0 };
    assert!(d.is_later_than(&a));
}

#[test]
fn format_rejects_a_bad_pattern() {
    assert_eq!(noon().format("%Q"), None);
    assert_eq!(noon().format("%Y"), Some("2020".to_string()));
    assert_eq!(noon().format("%H:%M"), Some("12:00".to_string()));
}

#[test]
fn format_rejects_a_date_out_of_range() {
    let far = Timestamp { secs: i64::MAX, nanos: 0, offset: 0 };
    assert_eq!(far.format("%Y"), None);
    let skewed = Timestamp { secs: 0, nanos: 0, offset: 86_400 };
    assert_eq!(skewed.format("%Y"), None);
}

#[test]
fn a_date_that_was_read_stands() {
    let read = Timestamp { secs: 7, nanos: 0, offset: 60 };
    assert_eq!(
        resolve_date(Some(read), noon()),
        ParsedDate { value: read, substituted: false }
    );
    assert_eq!(resolve_date(None, noon()), ParsedDate { value: noon(), substituted: true });
}
