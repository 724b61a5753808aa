//! OSC time tags: NTP seconds since 1900 with a 32-bit binary fraction.
use vstd::prelude::*;

verus! {

/// Seconds between 1900-01-01 and 1970-01-01: 70 years, 17 of them leap
/// years. Leap seconds started in 1972, so none fall in this span.
pub const DELTA_1970_1900: u32 = (70 * 365 + 17) * 86400;

/// One second expressed in fraction units (2^32).
pub const FRAC_PER_SEC: u64 = 0x1_0000_0000;

/// Nanoseconds in one second.
pub const NANOS_PER_SEC: u64 = 1_000_000_000;

/// Fraction units for a count of nanoseconds, rounded down.
pub open spec fn frac_of_nanos(nanos: int) -> int {
    nanos * 0x1_0000_0000 / 1_000_000_000
}

/// Nanoseconds for a count of fraction units, rounded down.
pub open spec fn nanos_of_frac(frac: int) -> int {
    frac * 1_000_000_000 / 0x1_0000_0000
}

/// A wall-clock reading: a distance of `secs` seconds plus `nanos`
/// nanoseconds from 1970-01-01T00:00:00, after it or, when `before_epoch`
/// is set, before it.
#[derive(Clone, Copy, Debug, PartialEq, Eq)]
pub struct CalendarTime {
    pub before_epoch: bool,
    pub secs: u64,
    pub nanos: u32,
}

impl CalendarTime {
    /// The nanosecond part stays below one second, and a reading before the
    /// epoch lies a positive distance from it.
    pub open spec fn wf(&self) -> bool {
        &&& self.nanos < 1_000_000_000
        &&& self.before_epoch ==> (self.secs > 0 || self.nanos > 0)
    }

    /// The reading at `secs` seconds and `nanos` nanoseconds after the epoch.
    pub fn after_epoch(secs: u64, nanos: u32) -> (r: CalendarTime)
        requires
            nanos < 1_000_000_000,
        ensures
            r.wf(),
            r == (CalendarTime { before_epoch: false, secs, nanos }),
    {
        CalendarTime { before_epoch: false, secs, nanos }
    }
}

/// An absolute OSC time: `sec` seconds since 1900-01-01 plus `frac / 2^32`
/// of a second.
#[derive(Clone, Copy, Debug, PartialEq, Eq)]
pub struct AbsOscTime {
    pub sec: u32,
    pub frac: u32,
}

/// Time tag of a bundle.
#[derive(Clone, Copy, Debug, PartialEq, Eq)]
pub enum OscTime {
    /// Handle the bundle as soon as it arrives.
    Now,
    /// Handle the bundle at the given instant.
    At(AbsOscTime),
}

/// Reads the host's wall clock.
///
/// Relies on `std::time::SystemTime::now` and `SystemTime::duration_since`:
/// the reading is split into a distance from the Unix epoch and its side,
/// and `Duration::subsec_nanos` is documented to stay below one second.
#[verifier::external_body]
fn read_clock() -> (r: CalendarTime)
    ensures
        r.wf(),
{
    match std::time::SystemTime::now().duration_since(std::time::UNIX_EPOCH) {
        Ok(d) => CalendarTime { before_epoch: false, secs: d.as_secs(), nanos: d.subsec_nanos() },
        Err(e) => CalendarTime {
            before_epoch: true,
            secs: e.duration().as_secs(),
            nanos: e.duration().subsec_nanos(),
        },
    }
}

impl OscTime {
    /// The time tag that `(sec, frac)` denotes on the wire.
    pub open spec fn spec_new(sec: u32, frac: u32) -> OscTime {
        if sec == 0 && frac == 1 {
            OscTime::Now
        } else {
            OscTime::At(AbsOscTime { sec, frac })
        }
    }

    /// Builds a time tag from its wire form; `(0, 1)` means "immediately".
    pub fn new(sec: u32, frac: u32) -> (r: OscTime)
        ensures
            r == OscTime::spec_new(sec, frac),
            r is Now <==> (sec == 0 && frac == 1),
    {
        if sec == 0 && frac == 1 {
            OscTime::Now
        } else {
            OscTime::At(AbsOscTime::new(sec, frac))
        }
    }

    /// Converts to a calendar reading, with `now` standing for the current
    /// time: `Now` gives `now`, an absolute time converts as
    /// [`AbsOscTime::as_system_time`] does.
    pub fn as_system_time_at(&self, now: CalendarTime) -> (r: Option<CalendarTime>)
        ensures
            match *self {
                OscTime::Now => r == Some(now),
                OscTime::At(a) => r == a.spec_as_system_time(),
            },
    {
        match self {
            OscTime::At(a) => a.as_system_time(),
            OscTime::Now => Some(now),
        }
    }

    /// Converts to a calendar reading; `Now` reads the host clock at the
    /// time of the call.
    pub fn as_system_time(&self) -> (r: Option<CalendarTime>)
        ensures
            match *self {
                OscTime::Now => r matches Some(t) && t.wf(),
                OscTime::At(a) => r == a.spec_as_system_time(),
            },
    {
        match self {
            OscTime::At(a) => a.as_system_time(),
            OscTime::Now => Some(read_clock()),
        }
    }
}

impl AbsOscTime {
    /// The calendar reading of this time, or `None` before 1970.
    pub open spec fn spec_as_system_time(&self) -> Option<CalendarTime> {
        if self.sec < DELTA_1970_1900 {
            None
        } else {
            Some(
                CalendarTime {
                    before_epoch: false,
                    secs: (self.sec - DELTA_1970_1900) as u64,
                    nanos: nanos_of_frac(self.frac as int) as u32,
                },
            )
        }
    }

    /// The OSC time of a calendar reading, or `None` where 32-bit NTP
    /// seconds cannot hold it.
    pub open spec fn spec_from_system_time(t: CalendarTime) -> Option<AbsOscTime> {
        if t.before_epoch || t.secs + DELTA_1970_1900 > u32::MAX {
            None
        } else {
            Some(
                AbsOscTime {
                    sec: (t.secs + DELTA_1970_1900) as u32,
                    frac: frac_of_nanos(t.nanos as int) as u32,
                },
            )
        }
    }

    /// Builds an absolute time; `(0, 1)` is kept as given here, while
    /// [`OscTime::new`] reads it as `Now`.
    pub fn new(sec: u32, frac: u32) -> (r: AbsOscTime)
        ensures
            r == (AbsOscTime { sec, frac }),
    {
        AbsOscTime { sec, frac }
    }

    /// Converts a calendar reading to OSC time. Fails where the reading
    /// lies before 1970, or where its NTP second count does not fit in 32
    /// bits. The fraction is the nanosecond part scaled by `2^32 / 10^9`,
    /// rounded down.
    pub fn from_system_time(t: CalendarTime) -> (r: Option<AbsOscTime>)
        requires
            t.nanos < 1_000_000_000,
        ensures
            r == AbsOscTime::spec_from_system_time(t),
    {
        if t.before_epoch {
            return None;
        }
        if t.secs > u32::MAX as u64 {
            return None;
        }
        let unix_secs: u32 = t.secs as u32;
        match unix_secs.checked_add(DELTA_1970_1900) {
            None => None,
            Some(ntp_secs) => {
                let nanos: u64 = t.nanos as u64;
                assert(nanos * FRAC_PER_SEC < 1_000_000_000 * 0x1_0000_0000) by (nonlinear_arith)
                    requires
                        nanos < 1_000_000_000,
                        FRAC_PER_SEC == 0x1_0000_0000,
                ;
                let frac: u64 = nanos * FRAC_PER_SEC / NANOS_PER_SEC;
                assert(frac < 0x1_0000_0000) by (nonlinear_arith)
                    requires
                        nanos < 1_000_000_000,
                        frac == nanos * 0x1_0000_0000 / 1_000_000_000,
                ;
                Some(AbsOscTime::new(ntp_secs, frac as u32))
            },
        }
    }

    /// Converts to a calendar reading. Fails where the time lies before
    /// 1970. The nanosecond part is the fraction scaled by `10^9 / 2^32`,
    /// rounded down.
    pub fn as_system_time(&self) -> (r: Option<CalendarTime>)
        ensures
            r == self.spec_as_system_time(),
            r matches Some(t) ==> t.wf(),
    {
        match self.sec.checked_sub(DELTA_1970_1900) {
            None => None,
            Some(unix_secs) => {
                let frac: u64 = self.frac as u64;
                assert(frac * NANOS_PER_SEC < 0x1_0000_0000 * 1_000_000_000) by (nonlinear_arith)
                    requires
                        frac < 0x1_0000_0000,
                        NANOS_PER_SEC == 1_000_000_000,
                ;
                let nanos: u64 = frac * NANOS_PER_SEC / FRAC_PER_SEC;
                assert(nanos < 1_000_000_000) by (nonlinear_arith)
                    requires
                        frac < 0x1_0000_0000,
                        nanos == frac * 1_000_000_000 / 0x1_0000_0000,
                ;
                Some(CalendarTime { before_epoch: false, secs: unix_secs as u64, nanos: nanos as u32 })
            },
        }
    }

    /// Whole seconds since 1900-01-01.
    pub fn sec(&self) -> (r: u32)
        ensures
            r == self.sec,
    {
        self.sec
    }

    /// Fraction of a second, in units of 2^-32 seconds.
    pub fn frac(&self) -> (r: u32)
        ensures
            r == self.frac,
    {
        self.frac
    }

    /// Seconds and fraction as a pair.
    pub fn sec_frac(&self) -> (r: (u32, u32))
        ensures
            r == (self.sec, self.frac),
    {
        (self.sec, self.frac)
    }
}

/// Converting a calendar reading after the epoch to OSC time and back keeps
/// its seconds and loses less than one nanosecond to rounding: a reading
/// with whole nanoseconds comes back exact or one nanosecond early.
pub proof fn lemma_calendar_round_trip(t: CalendarTime)
    requires
        t.wf(),
        !t.before_epoch,
        t.secs + DELTA_1970_1900 <= u32::MAX,
    ensures
        AbsOscTime::spec_from_system_time(t) matches Some(a) && a.spec_as_system_time() matches Some(
            back,
        ) && back.wf() && !back.before_epoch && back.secs == t.secs && (back.nanos == t.nanos
            || back.nanos + 1 == t.nanos),
        t.nanos == 0 ==> AbsOscTime::spec_from_system_time(t)->Some_0.spec_as_system_time() == Some(
            t,
        ),
{
    let n = t.nanos as int;
    let f = frac_of_nanos(n);
    lemma_nanos_frac_nanos(n);
    assert(0 <= f < 0x1_0000_0000) by (nonlinear_arith)
        requires
            0 <= n < 1_000_000_000,
            f == n * 0x1_0000_0000 / 1_000_000_000,
    ;
    assert(0 <= nanos_of_frac(f) < 1_000_000_000) by (nonlinear_arith)
        requires
            0 <= f < 0x1_0000_0000,
            nanos_of_frac(f) == f * 1_000_000_000 / 0x1_0000_0000,
    ;
}

/// Nanoseconds to fraction units and back loses at most one nanosecond.
proof fn lemma_nanos_frac_nanos(n: int)
    requires
        0 <= n < 1_000_000_000,
    ensures
        nanos_of_frac(frac_of_nanos(n)) == n || nanos_of_frac(frac_of_nanos(n)) + 1 == n,
{
    let f = frac_of_nanos(n);
    let b = nanos_of_frac(f);
    assert(f * 1_000_000_000 <= n * 0x1_0000_0000 < (f + 1) * 1_000_000_000) by (nonlinear_arith)
        requires
            f == n * 0x1_0000_0000 / 1_000_000_000,
            n >= 0,
    ;
    assert(b * 0x1_0000_0000 <= f * 1_000_000_000 < (b + 1) * 0x1_0000_0000) by (nonlinear_arith)
        requires
            b == f * 1_000_000_000 / 0x1_0000_0000,
            f >= 0,
    ;
    assert(b <= n) by (nonlinear_arith)
        requires
            b * 0x1_0000_0000 <= f * 1_000_000_000,
            f * 1_000_000_000 <= n * 0x1_0000_0000,
    ;
    assert(n <= b + 1) by (nonlinear_arith)
        requires
            n * 0x1_0000_0000 < (f + 1) * 1_000_000_000,
            f * 1_000_000_000 < (b + 1) * 0x1_0000_0000,
    ;
}

/// Fraction units to nanoseconds and back never gains and loses at most
/// five units: one nanosecond spans a little over four of them.
pub proof fn lemma_frac_round_trip(f: u32)
    ensures
        frac_of_nanos(nanos_of_frac(f as int)) <= f,
        f <= frac_of_nanos(nanos_of_frac(f as int)) + 5,
{
    let fi = f as int;
    let b = nanos_of_frac(fi);
    let g = frac_of_nanos(b);
    assert(b * 0x1_0000_0000 <= fi * 1_000_000_000 < (b + 1) * 0x1_0000_0000) by (nonlinear_arith)
        requires
            b == fi * 1_000_000_000 / 0x1_0000_0000,
            fi >= 0,
    ;
    assert(g * 1_000_000_000 <= b * 0x1_0000_0000 < (g + 1) * 1_000_000_000) by (nonlinear_arith)
        requires
            g == b * 0x1_0000_0000 / 1_000_000_000,
            b >= 0,
    ;
    assert(g <= fi) by (nonlinear_arith)
        requires
            g * 1_000_000_000 <= b * 0x1_0000_0000,
            b * 0x1_0000_0000 <= fi * 1_000_000_000,
    ;
    assert(fi <= g + 5) by (nonlinear_arith)
        requires
            fi * 1_000_000_000 < (b + 1) * 0x1_0000_0000,
            b * 0x1_0000_0000 < (g + 1) * 1_000_000_000,
    ;
}

} // verus!
