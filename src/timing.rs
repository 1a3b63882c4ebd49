//! Time facts of an exchange: the elapsed time between two instants, and the
//! textual form of the moment a request arrived.
use vstd::prelude::*;

verus! {

/// A wall-clock instant: seconds and nanoseconds since the Unix epoch.
#[derive(Clone, Copy, Debug, PartialEq, Eq, Structural)]
pub struct Instant {
    pub secs: i64,
    pub nanos: u32,
}

impl Instant {
    pub open spec fn total_ns(&self) -> int {
        self.secs * 1_000_000_000 + self.nanos
    }
}

/// Nanoseconds from `start` to `end`, clamped to the range of `u64`; zero when
/// no start was recorded or when `end` is not after `start`.
pub open spec fn elapsed_spec(start: Option<Instant>, end: Instant) -> int {
    match start {
        None => 0,
        Some(s) => {
            let d = end.total_ns() - s.total_ns();
            if d <= 0 {
                0
            } else if d > u64::MAX {
                u64::MAX as int
            } else {
                d
            }
        },
    }
}

/// Elapsed nanoseconds between an exchange's own recorded start and its end.
/// A missing start (the exit seen without its entry) counts as no time at all.
pub fn elapsed_ns(start: Option<Instant>, end: Instant) -> (r: u64)
    ensures
        r == elapsed_spec(start, end),
{
    match start {
        None => 0,
        Some(s) => {
            let ds: i128 = end.secs as i128 - s.secs as i128;
            let dn: i128 = end.nanos as i128 - s.nanos as i128;
            assert(-0x1_0000_0000_0000_0000 <= ds <= 0x1_0000_0000_0000_0000);
            assert(-0x1_0000_0000_0000_0000 * 1_000_000_000 <= ds * 1_000_000_000
                <= 0x1_0000_0000_0000_0000 * 1_000_000_000) by (nonlinear_arith)
                requires
                    -0x1_0000_0000_0000_0000 <= ds <= 0x1_0000_0000_0000_0000,
            ;
            let d: i128 = ds * 1_000_000_000 + dn;
            assert(d == end.total_ns() - s.total_ns()) by (nonlinear_arith)
                requires
                    ds == end.secs - s.secs,
                    dn == end.nanos - s.nanos,
                    d == ds * 1_000_000_000 + dn,
            ;
            if d <= 0 {
                0
            } else if d > u64::MAX as i128 {
                u64::MAX
            } else {
                d as u64
            }
        },
    }
}

/// A calendar moment with its offset from UTC.
#[derive(Clone, Copy, Debug, PartialEq, Eq, Structural)]
pub struct Timestamp {
    pub year: i32,
    /// 1 to 12.
    pub month: u8,
    pub day: u8,
    pub hour: u8,
    pub minute: u8,
    pub second: u8,
    pub nanos: u32,
    /// Seconds east of UTC.
    pub utc_offset: i32,
}

impl Timestamp {
    pub open spec fn wf(&self) -> bool {
        &&& 1 <= self.month <= 12
        &&& self.year >= i32::MIN + 1900
        &&& self.nanos < 1_000_000_000
        &&& self.utc_offset > i32::MIN
    }

    /// The fields in the conventions of `time::Tm`: years since 1900, months
    /// from 0, and so on; the order is year, month, day, hour, minute,
    /// second, nanosecond, UTC offset.
    pub open spec fn tm_fields(&self) -> (i32, i32, i32, i32, i32, i32, i32, i32) {
        (
            (self.year - 1900) as i32,
            (self.month - 1) as i32,
            self.day as i32,
            self.hour as i32,
            self.minute as i32,
            self.second as i32,
            self.nanos as i32,
            self.utc_offset,
        )
    }
}

/// What `time::Tm::strftime` with `%Y-%m-%dT%H:%M:%S.%fZ%z` writes for a `Tm`
/// with the given fields (see `Timestamp::tm_fields`).
pub uninterp spec fn iso_stamp_text(tm: (i32, i32, i32, i32, i32, i32, i32, i32)) -> Seq<char>;

/// Relies on time::Tm::strftime and the Display of its result: the format is
/// accepted for months 0 to 11 and any day of the week, and the text depends
/// on the fields alone. `%Y` adds 1900 to the year and `%z` takes the absolute
/// value of the offset, hence the bounds.
#[verifier::external_body]
fn format_tm(
    year: i32,
    mon: i32,
    mday: i32,
    hour: i32,
    min: i32,
    sec: i32,
    nsec: i32,
    utcoff: i32,
) -> (r: String)
    requires
        0 <= mon <= 11,
        year <= i32::MAX - 1900,
        utcoff > i32::MIN,
    ensures
        r@ == iso_stamp_text((year, mon, mday, hour, min, sec, nsec, utcoff)),
{
    let tm = time::Tm {
        tm_sec: sec,
        tm_min: min,
        tm_hour: hour,
        tm_mday: mday,
        tm_mon: mon,
        tm_year: year,
        tm_wday: 0,
        tm_yday: 0,
        tm_isdst: 0,
        tm_utcoff: utcoff,
        tm_nsec: nsec,
    };
    tm.strftime("%Y-%m-%dT%H:%M:%S.%fZ%z").unwrap().to_string()
}

/// The request-time text: an ISO-8601-like stamp with nanoseconds and zone.
pub fn request_time_text(t: &Timestamp) -> (r: String)
    requires
        t.wf(),
    ensures
        r@ == iso_stamp_text(t.tm_fields()),
{
    format_tm(
        t.year - 1900,
        t.month as i32 - 1,
        t.day as i32,
        t.hour as i32,
        t.minute as i32,
        t.second as i32,
        t.nanos as i32,
        t.utc_offset,
    )
}

} // verus!
