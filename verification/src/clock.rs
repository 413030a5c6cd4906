//! Instants of time, leases, and how both are written down.
use vstd::prelude::*;

use crate::text;

verus! {

/// A point in time: whole seconds since the Unix epoch and nanoseconds within
/// the second.
#[derive(Debug, Clone, Copy, PartialEq, Eq, Structural)]
pub struct Instant {
    pub secs: i64,
    pub nanos: u32,
}

/// The first second that the calendar can represent.
pub const MIN_SECS: i64 = -8_334_601_228_800;

/// The last second that the calendar can represent.
pub const MAX_SECS: i64 = 8_210_266_876_799;

/// The first second of the year 0.
pub const FIRST_READABLE_SECS: i64 = -62_167_219_200;

/// The last second of the year 9999.
pub const LAST_READABLE_SECS: i64 = 253_402_300_799;

impl Instant {
    /// The calendar can represent the instant, and it does not stand in a leap
    /// second.
    pub open spec fn wf(self) -> bool {
        &&& MIN_SECS <= self.secs <= MAX_SECS
        &&& self.nanos < 1_000_000_000
    }

    /// Whether the instant comes before another.
    pub open spec fn is_before(self, other: Instant) -> bool {
        self.secs < other.secs || (self.secs == other.secs && self.nanos < other.nanos)
    }

    /// Whether the instant comes before another.
    pub fn before(&self, other: &Instant) -> (out: bool)
        ensures
            out == self.is_before(*other),
    {
        self.secs < other.secs || (self.secs == other.secs && self.nanos < other.nanos)
    }
}

/// The instant that an RFC 3339 text denotes; nothing where the text is none.
pub uninterp spec fn rfc3339_instant(text: Seq<char>) -> Option<Instant>;

/// The RFC 3339 text of an instant in UTC, with `Z`: to the whole second, or
/// with as many fractional digits as it needs.
pub uninterp spec fn rfc3339_text(secs: i64, nanos: u32, whole_seconds: bool) -> Seq<char>;

/// `DateTime::parse_from_rfc3339` reads a timestamp, or fails. What it reads is
/// a function of the text alone; the offset it was written with does not matter
/// for the instant.
#[verifier::external_body]
pub(crate) fn parse_rfc3339(value: &str) -> (out: Option<Instant>)
    ensures
        out == rfc3339_instant(value@),
{
    chrono::DateTime::parse_from_rfc3339(value).ok().map(
        |t| Instant { secs: t.timestamp(), nanos: t.timestamp_subsec_nanos() },
    )
}

/// `DateTime::to_rfc3339_opts` writes an instant in UTC, with
/// `SecondsFormat::Secs` or `SecondsFormat::AutoSi`. A timestamp to the whole
/// second in one of the years 0 to 9999 reads back as that second.
#[verifier::external_body]
pub(crate) fn format_rfc3339(at: Instant, whole_seconds: bool) -> (out: String)
    requires
        at.wf(),
    ensures
        out@ == rfc3339_text(at.secs, at.nanos, whole_seconds),
        whole_seconds && FIRST_READABLE_SECS <= at.secs <= LAST_READABLE_SECS
            ==> rfc3339_instant(out@) == Some(Instant { secs: at.secs, nanos: 0 }),
{
    let format = if whole_seconds {
        chrono::SecondsFormat::Secs
    } else {
        chrono::SecondsFormat::AutoSi
    };
    chrono::DateTime::<chrono::Utc>::from_timestamp(at.secs, at.nanos).unwrap().to_rfc3339_opts(
        format,
        true,
    )
}

/// The RFC 3339 text of an instant in UTC with a numeric offset and as many
/// fractional digits as it needs.
pub uninterp spec fn log_stamp_text(secs: i64, nanos: u32) -> Seq<char>;

/// The date and time of an instant in UTC as `YYYYMMDDThhmmss`.
pub uninterp spec fn file_stamp_text(secs: i64) -> Seq<char>;

/// `DateTime::to_rfc3339` writes an instant in UTC with a numeric offset. The
/// text is a function of the instant alone.
#[verifier::external_body]
pub(crate) fn log_stamp(at: Instant) -> (out: String)
    requires
        at.wf(),
    ensures
        out@ == log_stamp_text(at.secs, at.nanos),
{
    chrono::DateTime::<chrono::Utc>::from_timestamp(at.secs, at.nanos).unwrap().to_rfc3339()
}

/// `DateTime::format` with `%Y%m%dT%H%M%S` writes the date and time of an
/// instant in UTC to the whole second. The text is a function of the second
/// alone.
#[verifier::external_body]
pub(crate) fn file_stamp(at: Instant) -> (out: String)
    requires
        at.wf(),
    ensures
        out@ == file_stamp_text(at.secs),
{
    chrono::DateTime::<chrono::Utc>::from_timestamp(at.secs, 0).unwrap().format(
        "%Y%m%dT%H%M%S",
    ).to_string()
}

/// The timestamp of an instant, to the whole second.
pub open spec fn stamp(at: Instant) -> Seq<char> {
    rfc3339_text(at.secs, at.nanos, true)
}

/// The instant lies in one of the years 0 to 9999.
pub open spec fn readable(at: Instant) -> bool {
    FIRST_READABLE_SECS <= at.secs <= LAST_READABLE_SECS
}

/// The timestamp of the instant reads back as its whole second.
pub open spec fn reads_back(at: Instant) -> bool {
    rfc3339_instant(stamp(at)) == Some(Instant { secs: at.secs, nanos: 0 })
}

/// The timestamp of an instant, to the whole second.
pub fn timestamp(at: Instant) -> (out: String)
    requires
        at.wf(),
    ensures
        out@ == stamp(at),
        readable(at) ==> reads_back(at),
{
    format_rfc3339(at, true)
}

// ------------------------------------------------------------------- leases

/// A time to live as the signed number of seconds that it is added as.
pub open spec fn ttl_seconds(ttl_secs: u64) -> int {
    if ttl_secs <= i64::MAX {
        ttl_secs as int
    } else {
        ttl_secs - 0x1_0000_0000_0000_0000
    }
}

/// A lease of this length from this instant ends within the calendar.
pub open spec fn lease_fits(now: Instant, ttl_secs: u64) -> bool {
    &&& now.wf()
    &&& MIN_SECS <= now.secs + ttl_seconds(ttl_secs) <= MAX_SECS
}

/// When a lease that starts now runs out.
pub open spec fn lease_end(now: Instant, ttl_secs: u64) -> Instant {
    Instant { secs: (now.secs + ttl_seconds(ttl_secs)) as i64, nanos: now.nanos }
}

/// When a lease that starts now runs out.
pub fn lease_end_at(now: Instant, ttl_secs: u64) -> (out: Instant)
    requires
        lease_fits(now, ttl_secs),
    ensures
        out == lease_end(now, ttl_secs),
        out.wf(),
{
    let ttl: i64 = if ttl_secs <= i64::MAX as u64 {
        ttl_secs as i64
    } else {
        let short: u64 = 0xffff_ffff_ffff_ffffu64 - ttl_secs;
        -1 - (short as i64)
    };
    Instant { secs: now.secs + ttl, nanos: now.nanos }
}

/// The instant up to which a written lease runs; nothing where there is none or
/// it cannot be read.
pub open spec fn lease_instant(lease_until: Option<Seq<char>>) -> Option<Instant> {
    match lease_until {
        Some(value) => rfc3339_instant(value),
        None => None,
    }
}

/// A written lease still runs.
pub open spec fn lease_runs(lease_until: Option<Seq<char>>, now: Instant) -> bool {
    lease_instant(lease_until) is Some && now.is_before(lease_instant(lease_until)->0)
}

/// The instant up to which a written lease runs.
pub fn parse_lease_until(lease_until: &Option<String>) -> (out: Option<Instant>)
    ensures
        out == lease_instant(text::opt_view(*lease_until)),
{
    match lease_until {
        Some(value) => parse_rfc3339(value.as_str()),
        None => None,
    }
}

/// The end of a written lease, where it still runs.
pub fn running_lease(lease_until: &Option<String>, now: Instant) -> (out: Option<Instant>)
    ensures
        out is Some <==> lease_runs(text::opt_view(*lease_until), now),
        out is Some ==> out == lease_instant(text::opt_view(*lease_until)),
{
    match parse_lease_until(lease_until) {
        Some(end) => if now.before(&end) {
            Some(end)
        } else {
            None
        },
        None => None,
    }
}

/// The end that is written of a lease can be read and lies ahead.
pub open spec fn lies_ahead(lease_until: Option<Seq<char>>, now: Instant) -> bool {
    lease_until matches Some(written) && rfc3339_instant(written) matches Some(end) && (now.secs
        < end.secs || (now.secs == end.secs && now.nanos < end.nanos))
}

/// A lease runs exactly as long as its end lies ahead: one that cannot be read does
/// not, and one that ends now has ended. A lease of some seconds ends that many
/// seconds from now.
pub proof fn law_leases_run_to_their_end(
    lease_until: Option<Seq<char>>,
    now: Instant,
    ttl_secs: u64,
)
    requires
        lease_fits(now, ttl_secs),
        ttl_secs <= i64::MAX,
    ensures
        lease_runs(lease_until, now) <==> lies_ahead(lease_until, now),
        lies_ahead(lease_until, now) ==> lease_instant(lease_until) == rfc3339_instant(
            lease_until->0,
        ),
        lease_end(now, ttl_secs).secs == now.secs + ttl_secs,
        lease_end(now, ttl_secs).nanos == now.nanos,
        stamp(now) == rfc3339_text(now.secs, now.nanos, true),
{
}

} // verus!
