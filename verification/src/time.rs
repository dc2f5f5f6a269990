//! Instants in UTC, and the RFC 3339 text that the database keeps of them.

use crate::text::text_less;
use chrono::{DateTime, Timelike, Utc};
use vstd::prelude::*;

verus! {

/// Whether an instant `secs` seconds and `nanos` nanoseconds after 1970-01-01
/// lies in the range of `chrono::DateTime<Utc>`: the years -262143 to 262142,
/// with up to two seconds' worth of nanoseconds.
pub open spec fn representable(secs: int, nanos: int) -> bool {
    &&& -8334601228800 <= secs <= 8210266876799
    &&& 0 <= nanos < 2_000_000_000
}

/// Whether an instant lies in the years 0 to 9999, which RFC 3339 can write.
pub open spec fn in_rfc3339_years(secs: int) -> bool {
    -62167219200 <= secs <= 253402300799
}

/// The RFC 3339 text of an instant.
pub uninterp spec fn rfc3339_text(secs: int, nanos: int) -> Seq<char>;

/// What reading `raw` as an RFC 3339 date and time gives: the instant, in UTC,
/// or the reason why there is none.
pub uninterp spec fn rfc3339_instant(raw: Seq<char>) -> Result<(int, int), Seq<char>>;

/// Whether an instant keeps its place in RFC 3339: its year has four digits, and
/// a second's worth of nanoseconds or more stands in the 59th second of a minute,
/// where it is a leap second. In any other second it is written as the second
/// after.
pub open spec fn is_plain(instant: (int, int)) -> bool {
    &&& in_rfc3339_years(instant.0)
    &&& instant.1 < 1_000_000_000 || instant.0 % 60 == 59
}

/// Whether `text`, read as an RFC 3339 date and time, gives the instant back,
/// provided that it is plain.
pub open spec fn reads_back(text: Seq<char>, secs: int, nanos: int) -> bool {
    is_plain((secs, nanos)) ==> (rfc3339_instant(text) matches Ok(i) && i == (secs, nanos))
}

/// Whether an instant is one that the machine's clock can show.
pub closed spec fn is_shown(instant: (int, int)) -> bool {
    exists|r: (i64, u32)| #[trigger]
        call_ensures(clock, (), r) && (r.0 as int, r.1 as int) == instant
}

/// Whether an instant was read off the machine's clock, which never shows a leap
/// second.
pub open spec fn on_the_clock(instant: (int, int)) -> bool {
    representable(instant.0, instant.1) && instant.1 < 1_000_000_000 && is_shown(instant)
}

/// Whether the first of two instants lies before the second.
pub open spec fn earlier(a: (int, int), b: (int, int)) -> bool {
    a.0 < b.0 || (a.0 == b.0 && a.1 < b.1)
}

/// Whether `text`, the RFC 3339 text of an instant, sorts among the texts of
/// other instants as the instant does among them, provided that they are plain.
pub open spec fn sorts_by_time(text: Seq<char>, secs: int, nanos: int) -> bool {
    is_plain((secs, nanos)) ==> forall|s: int, n: int|
        representable(s, n) && is_plain((s, n)) ==> {
            &&& text_less(text, #[trigger] rfc3339_text(s, n)) <==> earlier((secs, nanos), (s, n))
            &&& text_less(rfc3339_text(s, n), text) <==> earlier((s, n), (secs, nanos))
        }
}

/// An instant in UTC, to the nanosecond.
#[derive(Clone, Copy, Debug, PartialEq, Eq, PartialOrd, Ord, Hash, Structural)]
pub struct Timestamp {
    secs: i64,
    nanos: u32,
}

impl View for Timestamp {
    type V = (int, int);

    closed spec fn view(&self) -> (int, int) {
        (self.secs as int, self.nanos as int)
    }
}

impl Timestamp {
    #[verifier::type_invariant]
    spec fn in_range(self) -> bool {
        representable(self.secs as int, self.nanos as int)
    }

    /// The instant `secs` seconds and `nanos` nanoseconds after 1970-01-01, if
    /// it is representable.
    pub fn new(secs: i64, nanos: u32) -> (r: Option<Timestamp>)
        ensures
            r is Some <==> representable(secs as int, nanos as int),
            r matches Some(t) ==> t@ == (secs as int, nanos as int),
    {
        if secs < -8334601228800 || secs > 8210266876799 || nanos >= 2_000_000_000 {
            return None;
        }
        Some(Timestamp { secs, nanos })
    }

    /// Seconds since 1970-01-01.
    pub fn timestamp(&self) -> (r: i64)
        ensures
            r == self@.0,
    {
        self.secs
    }

    /// Nanoseconds since the last whole second.
    pub fn timestamp_subsec_nanos(&self) -> (r: u32)
        ensures
            r == self@.1,
    {
        self.nanos
    }

    /// The current instant, as the machine's clock gives it.
    pub fn now() -> (r: Timestamp)
        ensures
            on_the_clock(r@),
    {
        let (secs, nanos) = shown_by(clock);
        Timestamp { secs, nanos }
    }

    /// The RFC 3339 text of the instant. If the instant is plain, the text reads
    /// back to it, and such texts sort as the instants do.
    pub fn to_rfc3339(&self) -> (r: String)
        ensures
            r@ == rfc3339_text(self@.0, self@.1),
            reads_back(r@, self@.0, self@.1),
            sorts_by_time(r@, self@.0, self@.1),
            representable(self@.0, self@.1),
    {
        proof {
            use_type_invariant(self);
        }
        instant_to_rfc3339(self.secs, self.nanos)
    }

    /// The instant that `raw` names as an RFC 3339 date and time, or the reason
    /// why it names none.
    pub fn parse_from_rfc3339(raw: &str) -> (r: Result<Timestamp, String>)
        ensures
            match (r, rfc3339_instant(raw@)) {
                (Ok(t), Ok(i)) => t@ == i,
                (Err(e), Err(reason)) => e@ == reason,
                _ => false,
            },
    {
        match rfc3339_to_instant(raw) {
            Ok((secs, nanos)) => Ok(Timestamp { secs, nanos }),
            Err(e) => Err(e),
        }
    }
}

/// What a clock shows.
fn shown_by(clock: impl Fn() -> (i64, u32)) -> (r: (i64, u32))
    requires
        call_requires(clock, ()),
    ensures
        call_ensures(clock, (), r),
{
    clock()
}

/// `chrono::Utc::now`, taken apart by `timestamp` and `timestamp_subsec_nanos`.
/// The result depends on the clock: all that is claimed is that it is
/// representable, and no leap second. The call panics if the clock stands before
/// 1970.
#[verifier::external_body]
fn clock() -> (r: (i64, u32))
    ensures
        representable(r.0 as int, r.1 as int) && r.1 < 1_000_000_000,
{
    let now = Utc::now();
    (now.timestamp(), now.timestamp_subsec_nanos())
}

/// `chrono::DateTime::to_rfc3339` on the instant that
/// `chrono::DateTime::from_timestamp` makes of the seconds and
/// `chrono::Timelike::with_nanosecond` of the nanoseconds, both of which succeed
/// in the range that is asked for. The text is named. Of a plain instant reading
/// it gives the instant back, and the texts of plain instants sort as they do:
/// the parts go from year to fraction, each with leading zeros, and what follows
/// a fraction sorts before a digit.
#[verifier::external_body]
fn instant_to_rfc3339(secs: i64, nanos: u32) -> (r: String)
    requires
        representable(secs as int, nanos as int),
    ensures
        r@ == rfc3339_text(secs as int, nanos as int),
        reads_back(r@, secs as int, nanos as int),
        sorts_by_time(r@, secs as int, nanos as int),
{
    let whole = DateTime::from_timestamp(secs, 0).unwrap().naive_utc();
    whole.with_nanosecond(nanos).unwrap().and_utc().to_rfc3339()
}

/// `chrono::DateTime::parse_from_rfc3339`, brought to UTC and taken apart by
/// `timestamp` and `timestamp_subsec_nanos`, with an error turned into its text.
/// The result is named; an instant that comes out is representable.
#[verifier::external_body]
fn rfc3339_to_instant(raw: &str) -> (r: Result<(i64, u32), String>)
    ensures
        match (r, rfc3339_instant(raw@)) {
            (Ok(t), Ok(i)) => (t.0 as int, t.1 as int) == i && representable(i.0, i.1),
            (Err(e), Err(reason)) => e@ == reason,
            _ => false,
        },
{
    DateTime::parse_from_rfc3339(raw)
        .map(|dt| dt.with_timezone(&Utc))
        .map(|dt| (dt.timestamp(), dt.timestamp_subsec_nanos()))
        .map_err(|e| e.to_string())
}

} // verus!
