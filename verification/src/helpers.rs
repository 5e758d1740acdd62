//! Dates and directory listings: what the builder needs before it can look
//! at a single document.

use std::fmt::Write;
use vstd::prelude::*;

verus! {

/// A point in time together with the offset of the clock that showed it.
#[derive(Clone, Copy, Debug, PartialEq, Eq, Structural)]
pub struct Timestamp {
    /// Whole seconds since 1970-01-01T00:00:00Z, leap seconds not counted.
    pub secs: i64,
    /// Nanoseconds since the last whole second.
    pub nanos: u32,
    /// Seconds that the local clock is ahead of UTC.
    pub offset: i32,
}

/// A date read from a text, and whether the text could not be read so that
/// another date stands in for it.
#[derive(Clone, Copy, Debug, PartialEq, Eq, Structural)]
pub struct ParsedDate {
    pub value: Timestamp,
    pub substituted: bool,
}

/// One item of a directory listing.
#[derive(Debug)]
pub struct DirItem {
    pub path: String,
    pub is_file: bool,
}

/// The date and time that an RFC 3339 text stands for; `None` for any other
/// text.
pub uninterp spec fn rfc3339_value(text: Seq<char>) -> Option<Timestamp>;

/// The text that a date gives under a `strftime` pattern; `None` where the
/// pattern is not valid or the date cannot be shown.
pub uninterp spec fn formatted(at: Timestamp, pattern: Seq<char>) -> Option<Seq<char>>;

/// `chrono::DateTime::parse_from_rfc3339`: the contract names its result,
/// with the instant taken through `timestamp` and `timestamp_subsec_nanos`
/// and the offset through `local_minus_utc`; an error becomes `None`.
#[verifier::external_body]
pub(crate) fn rfc3339_parse(text: &str) -> (r: Option<Timestamp>)
    ensures
        r == rfc3339_value(text@),
{
    match chrono::DateTime::parse_from_rfc3339(text) {
        Ok(d) => Some(
            Timestamp {
                secs: d.timestamp(),
                nanos: d.timestamp_subsec_nanos(),
                offset: d.offset().local_minus_utc(),
            },
        ),
        Err(_) => None,
    }
}

/// `chrono::DateTime::format`, on the date rebuilt with
/// `DateTime::from_timestamp`, `FixedOffset::east_opt` and `with_timezone`.
/// The contract names its result; `None` stands for a date that chrono
/// cannot hold and for a pattern that it reports as an error.
#[verifier::external_body]
pub(crate) fn strftime(at: Timestamp, pattern: &str) -> (r: Option<String>)
    ensures
        match r {
            Some(s) => formatted(at, pattern@) == Some(s@),
            None => formatted(at, pattern@) is None,
        },
{
    let utc = chrono::DateTime::from_timestamp(at.secs, at.nanos)?;
    let zone = chrono::FixedOffset::east_opt(at.offset)?;
    let mut out = String::new();
    match write!(out, "{}", utc.with_timezone(&zone).format(pattern)) {
        Ok(()) => Some(out),
        Err(_) => None,
    }
}

impl Timestamp {
    /// Whether this instant is later than `other`, whatever the offsets.
    pub open spec fn later_than(self, other: Timestamp) -> bool {
        self.secs > other.secs || (self.secs == other.secs && self.nanos > other.nanos)
    }

    /// Whether both stand for the same instant, whatever the offsets.
    pub open spec fn same_instant(self, other: Timestamp) -> bool {
        self.secs == other.secs && self.nanos == other.nanos
    }

    /// Whether this instant is later than `other`.
    pub fn is_later_than(&self, other: &Timestamp) -> (r: bool)
        ensures
            r == self.later_than(*other),
    {
        self.secs > other.secs || (self.secs == other.secs && self.nanos > other.nanos)
    }

    /// The date under a `strftime` pattern, such as `"%A, %b %e, %Y"`.
    pub fn format(&self, pattern: &str) -> (r: Option<String>)
        ensures
            match r {
                Some(s) => formatted(*self, pattern@) == Some(s@),
                None => formatted(*self, pattern@) is None,
            },
    {
        strftime(*self, pattern)
    }
}

/// What `parse_date` returns for a text, given what the text stands for.
pub open spec fn date_or(read: Option<Timestamp>, now: Timestamp) -> ParsedDate {
    match read {
        Some(t) => ParsedDate { value: t, substituted: false },
        None => ParsedDate { value: now, substituted: true },
    }
}

/// Decides between a date that was read and the date that stands in when
/// none was.
pub fn resolve_date(read: Option<Timestamp>, now: Timestamp) -> (r: ParsedDate)
    ensures
        r == date_or(read, now),
{
    match read {
        Some(t) => ParsedDate { value: t, substituted: false },
        None => ParsedDate { value: now, substituted: true },
    }
}

/// Reads an RFC 3339 date. A text that is none yields `now`, and says so in
/// `substituted`, so that the caller can report it.
pub fn parse_date(date: &str, now: Timestamp) -> (r: ParsedDate)
    ensures
        r == date_or(rfc3339_value(date@), now),
{
    resolve_date(rfc3339_parse(date), now)
}

/// The paths of the regular files of a listing, in the listing's order.
pub open spec fn regular_files(listing: Seq<DirItem>) -> Seq<String> {
    listing.filter(|e: DirItem| e.is_file).map_values(|e: DirItem| e.path)
}

/// Keeps the regular files of a directory listing: directories and
/// anything else are left out, and the order stays.
pub fn get_entries(listing: &Vec<DirItem>) -> (r: Vec<String>)
    ensures
        r@ == regular_files(listing@),
{
    let mut r: Vec<String> = Vec::new();
    let mut i: usize = 0;
    while i < listing.len()
        invariant
            i <= listing.len(),
            r@ == regular_files(listing@.take(i as int)),
        decreases listing.len() - i,
    {
        proof {
            let seen = listing@.take(i as int);
            let item = listing@[i as int];
            assert(listing@.take(i + 1) == seen.push(item));
            seen.lemma_filter_push(item, |e: DirItem| e.is_file);
            seen.filter(|e: DirItem| e.is_file).lemma_push_map_commute(|e: DirItem| e.path, item);
        }
        if listing[i].is_file {
            r.push(listing[i].path.clone());
        }
        i += 1;
    }
    assert(listing@.take(listing@.len() as int) == listing@);
    r
}

} // verus!
