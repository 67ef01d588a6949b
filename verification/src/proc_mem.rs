//! The process's own page-fault rate and working set, once a minute.
//!
//! The fault counter is process-wide, cumulative and wraps at 32 bits. One
//! window samples it at most once a minute, and every output reports the last
//! full minute.

use vstd::prelude::*;

verus! {

/// One full minute between two readings.
pub const SAMPLE_PERIOD_MS: u64 = 60_000;

/// A longer gap between two readings starts anew instead of averaging over it.
pub const MAX_SAMPLE_GAP_MS: u64 = 300_000;

/// Stands for "no reading" in a slot.
pub const NO_READING: u64 = u64::MAX;

/// One full-minute reading.
#[derive(Clone, Copy, Debug, PartialEq, Eq, Structural)]
pub struct ProcMemGauge {
    /// Page faults, normalised to one minute.
    pub page_faults_per_min: u64,
    /// Working set at the end of the window (MiB).
    pub working_set_mb: u64,
}

/// Faults from `prev` to `cur` on a counter that wraps at 32 bits.
pub open spec fn fault_distance(prev: u32, cur: u32) -> int {
    if cur >= prev {
        cur - prev
    } else {
        cur - prev + 0x1_0000_0000
    }
}

/// The forward distance on the wrapping fault counter: a decrease is a wrap.
pub fn fault_delta(prev: u32, cur: u32) -> (r: u64)
    ensures
        r == fault_distance(prev, cur),
{
    if cur >= prev {
        (cur - prev) as u64
    } else {
        0x1_0000_0000u64 + cur as u64 - prev as u64
    }
}

/// The distance is what brings `prev` to `cur` on the wrapping counter.
pub proof fn law_fault_distance_closes_the_circle(prev: u32, cur: u32)
    ensures
        0 <= fault_distance(prev, cur) < 0x1_0000_0000,
        (prev + fault_distance(prev, cur)) % 0x1_0000_0000 == cur,
{
}

/// Whole MiB in `bytes`.
pub fn bytes_to_mb(bytes: u64) -> (r: u64)
    ensures
        r == bytes / 1_048_576,
{
    bytes / 1_048_576
}

/// `delta` faults over `elapsed` milliseconds as faults per minute; 0 for an
/// empty window. The product saturates at 64 bits.
pub open spec fn rate_of(delta: int, elapsed: int) -> int {
    if elapsed == 0 {
        0
    } else if delta * 60_000 > u64::MAX {
        u64::MAX as int / elapsed
    } else {
        (delta * 60_000) / elapsed
    }
}

/// Faults per minute out of `delta` faults in `elapsed_ms`.
pub fn per_minute(delta: u64, elapsed_ms: u64) -> (r: u64)
    ensures
        r == rate_of(delta as int, elapsed_ms as int),
{
    if elapsed_ms == 0 {
        return 0;
    }
    let scaled: u64 = match delta.checked_mul(60_000) {
        Some(x) => x,
        None => u64::MAX,
    };
    scaled / elapsed_ms
}

/// The last reading, and the last full-minute gauge.
#[derive(Clone, Copy, Debug, PartialEq, Eq)]
pub struct FaultWindow {
    /// Fault counter and time of the last reading that counted.
    pub last: Option<(u32, u64)>,
    pub latest: Option<ProcMemGauge>,
}

impl Default for FaultWindow {
    fn default() -> (r: Self)
        ensures
            r.last == None::<(u32, u64)>,
            r.latest == None::<ProcMemGauge>,
    {
        FaultWindow { last: None, latest: None }
    }
}

impl FaultWindow {
    /// Milliseconds since the last reading; 0 when the clock went backward.
    pub open spec fn elapsed(self, now: u64) -> int {
        match self.last {
            Some((_, t)) => if now > t {
                now - t
            } else {
                0
            },
            None => 0,
        }
    }

    /// A reading at `now` counts: it is the first, or a full period has passed.
    pub open spec fn is_due(self, now: u64) -> bool {
        self.last is None || self.elapsed(now) >= SAMPLE_PERIOD_MS
    }

    /// The gauge after a reading at `now` that counts: the first one leaves it,
    /// one after too long a gap clears it.
    pub open spec fn gauge_after(self, count: u32, bytes: u64, now: u64) -> Option<ProcMemGauge> {
        match self.last {
            None => self.latest,
            Some((prev, _)) => if self.elapsed(now) > MAX_SAMPLE_GAP_MS {
                None
            } else {
                Some(
                    ProcMemGauge {
                        page_faults_per_min: rate_of(
                            fault_distance(prev, count),
                            self.elapsed(now),
                        ) as u64,
                        working_set_mb: bytes / 1_048_576,
                    },
                )
            },
        }
    }

    /// The window after a reading at `now`: one that does not count changes nothing.
    pub open spec fn after_reading(self, count: u32, bytes: u64, now: u64) -> FaultWindow {
        if self.is_due(now) {
            FaultWindow {
                last: Some((count, now)),
                latest: self.gauge_after(count, bytes, now),
            }
        } else {
            self
        }
    }

    /// Whether a reading is due at `now_ms`.
    pub fn due(&self, now_ms: u64) -> (r: bool)
        ensures
            r == self.is_due(now_ms),
    {
        match self.last {
            None => true,
            Some((_, t)) => now_ms.saturating_sub(t) >= SAMPLE_PERIOD_MS,
        }
    }

    /// Take one reading. The first one only starts the window; one that comes too
    /// early changes nothing; one after too long a gap starts anew; any other
    /// gives the gauge of the window since the last one.
    pub fn observe(&mut self, page_fault_count: u32, working_set_bytes: u64, now_ms: u64) -> (r:
        Option<ProcMemGauge>)
        ensures
            r == final(self).latest,
            *final(self) == old(self).after_reading(page_fault_count, working_set_bytes, now_ms),
    {
        match self.last {
            Some((prev, t)) => {
                let elapsed: u64 = now_ms.saturating_sub(t);
                if elapsed < SAMPLE_PERIOD_MS {
                    return self.latest;
                }
                self.latest = if elapsed > MAX_SAMPLE_GAP_MS {
                    None
                } else {
                    Some(
                        ProcMemGauge {
                            page_faults_per_min: per_minute(
                                fault_delta(prev, page_fault_count),
                                elapsed,
                            ),
                            working_set_mb: bytes_to_mb(working_set_bytes),
                        },
                    )
                };
            },
            None => {},
        }
        self.last = Some((page_fault_count, now_ms));
        self.latest
    }

    /// The last full-minute gauge.
    pub fn latest(&self) -> (r: Option<ProcMemGauge>)
        ensures
            r == self.latest,
    {
        self.latest
    }
}

/// At most one reading a minute counts: after one at `t` that counted, another one
/// within a minute, or with a clock that went backward, is not due and changes
/// nothing.
pub proof fn law_one_reading_a_minute_counts(
    window: FaultWindow,
    count: u32,
    bytes: u64,
    t: u64,
    later_count: u32,
    later_bytes: u64,
    now: u64,
)
    requires
        window.is_due(t),
        now < t + SAMPLE_PERIOD_MS,
    ensures
        !window.after_reading(count, bytes, t).is_due(now),
        window.after_reading(count, bytes, t).after_reading(later_count, later_bytes, now)
            == window.after_reading(count, bytes, t),
{
}

/// The largest value below the sentinel, for values that reach it.
pub open spec fn below_sentinel(x: u64) -> u64 {
    if x == NO_READING {
        (NO_READING - 1) as u64
    } else {
        x
    }
}

/// A gauge as two slot values; no gauge is the sentinel in both. A real value
/// never reads as the sentinel.
pub open spec fn slots_of(g: Option<ProcMemGauge>) -> (u64, u64) {
    match g {
        Some(g) => (below_sentinel(g.page_faults_per_min), below_sentinel(g.working_set_mb)),
        None => (NO_READING, NO_READING),
    }
}

/// Two slot values as a gauge: none when either is the sentinel.
pub open spec fn gauge_of(faults: u64, working_set_mb: u64) -> Option<ProcMemGauge> {
    if faults == NO_READING || working_set_mb == NO_READING {
        None
    } else {
        Some(ProcMemGauge { page_faults_per_min: faults, working_set_mb })
    }
}

fn cap(x: u64) -> (r: u64)
    ensures
        r == below_sentinel(x),
{
    if x == NO_READING {
        NO_READING - 1
    } else {
        x
    }
}

/// Encode a gauge into two slots that are read without a lock.
pub fn to_slots(g: Option<ProcMemGauge>) -> (r: (u64, u64))
    ensures
        r == slots_of(g),
{
    match g {
        Some(g) => (cap(g.page_faults_per_min), cap(g.working_set_mb)),
        None => (NO_READING, NO_READING),
    }
}

/// Decode the two slots.
pub fn from_slots(faults: u64, working_set_mb: u64) -> (r: Option<ProcMemGauge>)
    ensures
        r == gauge_of(faults, working_set_mb),
{
    if faults == NO_READING || working_set_mb == NO_READING {
        None
    } else {
        Some(ProcMemGauge { page_faults_per_min: faults, working_set_mb })
    }
}

/// What was written to the slots reads back, but for the one value that the
/// sentinel takes; in particular a reading never reads back as none.
pub proof fn law_slots_read_back(g: Option<ProcMemGauge>)
    ensures
        gauge_of(slots_of(g).0, slots_of(g).1) == match g {
            Some(x) => Some(
                ProcMemGauge {
                    page_faults_per_min: below_sentinel(x.page_faults_per_min),
                    working_set_mb: below_sentinel(x.working_set_mb),
                },
            ),
            None => None,
        },
{
}

/// A gauge value for the log: the number, or `na`.
pub fn fmt_opt(v: Option<u64>) -> (r: String)
    ensures
        r@ == match v {
            Some(n) => crate::text::decimal_nat(n as nat),
            None => "na"@,
        },
{
    match v {
        Some(n) => crate::text::nat_text(n),
        None => String::from_str("na"),
    }
}

/// The process-wide gauge: the window, and the slots that every output reads.
#[derive(Clone, Copy, Debug, PartialEq, Eq)]
pub struct ProcMem {
    pub window: FaultWindow,
    pub faults_slot: u64,
    pub working_set_slot: u64,
}

impl ProcMem {
    pub fn new() -> (r: Self)
        ensures
            r.window.last == None::<(u32, u64)>,
            r.window.latest == None::<ProcMemGauge>,
            r.faults_slot == NO_READING,
            r.working_set_slot == NO_READING,
    {
        ProcMem {
            window: FaultWindow { last: None, latest: None },
            faults_slot: NO_READING,
            working_set_slot: NO_READING,
        }
    }

    /// Take a reading of the counters, publish the gauge, and report what is
    /// published. `reading` is `None` when none is due, or when it failed.
    pub fn sample(&mut self, reading: Option<(u32, u64)>, now_ms: u64) -> (r: Option<ProcMemGauge>)
        ensures
            r == gauge_of(final(self).faults_slot, final(self).working_set_slot),
            reading is None || !old(self).window.is_due(now_ms) ==> *final(self) == *old(self),
            reading matches Some((count, working_set)) ==> old(self).window.is_due(now_ms) ==> {
                &&& final(self).window.last == Some((count, now_ms))
                &&& final(self).window.latest == old(self).window.gauge_after(
                    count,
                    working_set,
                    now_ms,
                )
                &&& (final(self).faults_slot, final(self).working_set_slot) == slots_of(
                    final(self).window.latest,
                )
            },
    {
        match reading {
            Some((count, ws)) => if self.window.due(now_ms) {
                let (faults, ws_mb): (u64, u64) = to_slots(self.window.observe(count, ws, now_ms));
                self.faults_slot = faults;
                self.working_set_slot = ws_mb;
            },
            None => {},
        }
        from_slots(self.faults_slot, self.working_set_slot)
    }
}

/// The gauge where the platform has no such counters to read.
pub fn gauge() -> (r: Option<ProcMemGauge>)
    ensures
        r == None::<ProcMemGauge>,
{
    None
}

/// The rate is the faults of the window scaled to a minute, rounded down.
pub proof fn law_the_rate_is_per_minute(delta: int, elapsed: int)
    requires
        delta >= 0,
        elapsed > 0,
        delta * 60_000 <= u64::MAX,
    ensures
        rate_of(delta, elapsed) * elapsed <= delta * 60_000 < (rate_of(delta, elapsed) + 1)
            * elapsed,
        rate_of(delta, 60_000) == delta,
{
    let q = rate_of(delta, elapsed);
    vstd::arithmetic::div_mod::lemma_fundamental_div_mod(delta * 60_000, elapsed);
    assert(q * elapsed <= delta * 60_000 < (q + 1) * elapsed) by (nonlinear_arith)
        requires
            delta * 60_000 == elapsed * q + (delta * 60_000) % elapsed,
            0 <= (delta * 60_000) % elapsed < elapsed,
    ;
}

/// What a reading that counts makes of the gauge: the first one leaves it, one more than
/// five minutes after the last clears it, and any other gives the faults since the last
/// one, per minute, with its own working set in whole MiB.
pub proof fn law_a_reading_gauges_its_own_window(
    window: FaultWindow,
    count: u32,
    bytes: u64,
    prev: u32,
    then: u64,
    now: u64,
)
    requires
        then <= now,
    ensures
        ({
            let after = (FaultWindow { last: Some((prev, then)), ..window }).after_reading(
                count,
                bytes,
                now,
            );
            &&& now - then < 60_000 ==> after.latest == window.latest && after.last == Some(
                (prev, then),
            )
            &&& now - then >= 60_000 ==> after.last == Some((count, now))
            &&& now - then > 300_000 ==> after.latest is None
            &&& 60_000 <= now - then <= 300_000 ==> (after.latest matches Some(g)
                && g.page_faults_per_min == rate_of(fault_distance(prev, count), now - then)
                && g.working_set_mb * 1_048_576 <= bytes < (g.working_set_mb + 1) * 1_048_576)
        }),
        ({
            let first = (FaultWindow { last: None, ..window }).after_reading(count, bytes, now);
            first.last == Some((count, now)) && first.latest == window.latest
        }),
{
    let delta = fault_distance(prev, count);
    let elapsed = now - then;
    if 60_000 <= elapsed <= 300_000 {
        assert(0 <= delta * 60_000 <= u64::MAX);
        law_the_rate_is_per_minute(delta, elapsed);
        let q = rate_of(delta, elapsed);
        assert(0 <= q <= u64::MAX) by (nonlinear_arith)
            requires
                q * elapsed <= delta * 60_000 < (q + 1) * elapsed,
                0 <= delta * 60_000 <= u64::MAX,
                elapsed >= 60_000,
        ;
    }
}

/// A gauge below the sentinel reads back exactly as it was written, and none reads back
/// as none.
pub proof fn law_a_gauge_reads_back(g: ProcMemGauge)
    requires
        g.page_faults_per_min < u64::MAX,
        g.working_set_mb < u64::MAX,
    ensures
        gauge_of(slots_of(Some(g)).0, slots_of(Some(g)).1) == Some(g),
        gauge_of(slots_of(None).0, slots_of(None).1) is None,
{
}

/// A gauge value in the log reads back as the number it is; no value is `na`.
pub proof fn law_a_logged_value_reads_back(v: Option<u64>, text: String)
    requires
        call_ensures(fmt_opt, (v,), text),
    ensures
        v matches Some(n) ==> crate::text::all_digits(text@) && crate::text::digits_value(text@)
            == n,
        v is None ==> text@ == "na"@,
{
    if let Some(n) = v {
        crate::text::law_decimal_digits_write_the_number(n as nat);
    }
}

} // verus!
