use vstd::prelude::*;

verus! {

/// One channel of a moisture report: the oscillation edges counted while the
/// channel was selected, and how long it was selected, in milliseconds.
#[derive(Debug, Clone, Copy, PartialEq, Eq, Structural)]
pub struct MoistureReading {
    pub clocks: u16,
    pub duration_ms: u32,
}

/// The most channels that a moisture report holds.
pub const MAX_CHANNELS: usize = 8;

/// The channel readings of one report, in channel order, at most
/// `MAX_CHANNELS` of them, in a fixed-capacity vector.
#[verifier::external_body]
#[derive(Debug)]
pub struct Readings {
    inner: heapless::Vec<MoistureReading, 8>,
}

/// The readings that a `Readings` holds, in order.
pub uninterp spec fn readings_of(v: Readings) -> Seq<MoistureReading>;

/// Relies on heapless::Vec::new: a vector that holds nothing.
#[verifier::external_body]
fn heapless_new() -> (r: Readings)
    ensures
        readings_of(r) == Seq::<MoistureReading>::empty(),
{
    Readings { inner: heapless::Vec::new() }
}

/// Relies on heapless::Vec::push: below capacity the item is appended,
/// at capacity the vector is unchanged and the item is handed back.
#[verifier::external_body]
fn heapless_push(v: &mut Readings, x: MoistureReading) -> (r: Result<(), MoistureReading>)
    ensures
        r == (if readings_of(*old(v)).len() < 8 {
            Ok::<(), MoistureReading>(())
        } else {
            Err::<(), MoistureReading>(x)
        }),
        readings_of(*final(v)) == (if readings_of(*old(v)).len() < 8 {
            readings_of(*old(v)).push(x)
        } else {
            readings_of(*old(v))
        }),
{
    v.inner.push(x)
}

/// Relies on heapless::Vec::as_slice: the items held, in order, of which
/// there are never more than the capacity.
#[verifier::external_body]
fn heapless_slice(v: &Readings) -> (r: &[MoistureReading])
    ensures
        r@ == readings_of(*v),
        r@.len() <= 8,
{
    v.inner.as_slice()
}

impl Readings {
    /// No readings.
    pub fn new() -> (r: Readings)
        ensures
            readings_of(r) == Seq::<MoistureReading>::empty(),
    {
        heapless_new()
    }

    /// Appends `x` when fewer than `MAX_CHANNELS` readings are held; hands it
    /// back otherwise.
    pub fn push(&mut self, x: MoistureReading) -> (r: Result<(), MoistureReading>)
        ensures
            readings_of(*old(self)).len() < MAX_CHANNELS ==> r == Ok::<(), MoistureReading>(())
                && readings_of(*final(self)) == readings_of(*old(self)).push(x),
            readings_of(*old(self)).len() >= MAX_CHANNELS ==> r == Err::<(), MoistureReading>(x)
                && readings_of(*final(self)) == readings_of(*old(self)),
    {
        heapless_push(self, x)
    }

    /// The number of readings held.
    pub fn len(&self) -> (r: usize)
        ensures
            r == readings_of(*self).len(),
            r <= MAX_CHANNELS,
    {
        heapless_slice(self).len()
    }

    /// The reading of channel `i`, if there is one.
    pub fn get(&self, i: usize) -> (r: Option<MoistureReading>)
        ensures
            i < readings_of(*self).len() ==> r == Some(readings_of(*self)[i as int]),
            i >= readings_of(*self).len() ==> r is None,
    {
        let s = heapless_slice(self);
        if i < s.len() {
            Some(s[i])
        } else {
            None
        }
    }

    /// The readings, in order, in a `Vec`.
    pub fn to_vec(&self) -> (r: Vec<MoistureReading>)
        ensures
            r@ == readings_of(*self),
    {
        let s = heapless_slice(self);
        let mut out: Vec<MoistureReading> = Vec::new();
        let mut i: usize = 0;
        while i < s.len()
            invariant
                i <= s@.len(),
                out@ == s@.subrange(0, i as int),
            decreases s@.len() - i,
        {
            out.push(s[i]);
            i = i + 1;
            proof {
                assert(out@ =~= s@.subrange(0, i as int));
            }
        }
        proof {
            assert(s@.subrange(0, s@.len() as int) =~= s@);
        }
        out
    }

    /// A second vector holding the same readings.
    pub fn duplicate(&self) -> (r: Readings)
        ensures
            readings_of(r) == readings_of(*self),
    {
        let s = heapless_slice(self);
        let mut out = Readings::new();
        let mut i: usize = 0;
        while i < s.len()
            invariant
                i <= s@.len(),
                s@.len() <= MAX_CHANNELS,
                readings_of(out) == s@.subrange(0, i as int),
            decreases s@.len() - i,
        {
            let _ = out.push(s[i]);
            i = i + 1;
            proof {
                assert(readings_of(out) =~= s@.subrange(0, i as int));
            }
        }
        proof {
            assert(s@.subrange(0, s@.len() as int) =~= s@);
        }
        out
    }
}

/// A channel's rate, in thousandths of an edge per second; none when the
/// channel was selected for no time at all.
pub open spec fn rate_milli(r: MoistureReading) -> Option<int> {
    if r.duration_ms == 0 {
        None
    } else {
        Some(r.clocks as int * 1_000_000 / r.duration_ms as int)
    }
}

impl MoistureReading {
    /// The rate of edges per second, in thousandths; `None` when the channel
    /// was selected for no time at all.
    pub fn per_second(&self) -> (r: Option<u64>)
        ensures
            r matches Some(v) ==> rate_milli(*self) == Some(v as int),
            r is None ==> rate_milli(*self) is None,
    {
        if self.duration_ms == 0 {
            None
        } else {
            Some((self.clocks as u64) * 1_000_000 / (self.duration_ms as u64))
        }
    }
}

/// The largest difference, in edges per second, allowed between the rates of
/// one channel in two consecutive reports.
pub const MAX_RATE_DELTA: u64 = 15;

/// `|a.clocks * b.duration - b.clocks * a.duration|`: the difference of the two
/// rates, scaled by the product of the durations.
pub open spec fn cross_gap(a: MoistureReading, b: MoistureReading) -> int {
    let x = a.clocks as int * b.duration_ms as int - b.clocks as int * a.duration_ms as int;
    if x < 0 { -x } else { x }
}

/// The rates of `a` and `b` (edges per second) differ by more than
/// `MAX_RATE_DELTA`. Stated without division, so that a reading of no
/// duration has an infinite rate when it counted an edge and no rate when
/// it counted none, which compares as within bounds.
pub open spec fn rates_too_far(a: MoistureReading, b: MoistureReading) -> bool {
    cross_gap(a, b) * 1000 > MAX_RATE_DELTA as int * a.duration_ms as int * b.duration_ms as int
}

/// The difference of the rates of `a` and `b`, in thousandths of an edge per
/// second, rounded down; `u64::MAX` when one of the rates is infinite.
pub open spec fn rate_gap_milli(a: MoistureReading, b: MoistureReading) -> u64 {
    if a.duration_ms == 0 || b.duration_ms == 0 {
        u64::MAX
    } else {
        (cross_gap(a, b) * 1_000_000 / (a.duration_ms as int * b.duration_ms as int)) as u64
    }
}

/// Why a moisture report was not accepted.
#[derive(Debug, Clone, Copy, PartialEq, Eq, Structural)]
pub enum MoistureSensorValidationError {
    /// The two reports hold different numbers of channels.
    DifferingLengths,
    /// The rate of channel `sensor` moved by more than allowed; `diff` is the
    /// move in thousandths of an edge per second.
    LargeDelta { sensor: usize, diff: u64 },
}

/// The per-channel readings of one moisture sensing cycle.
#[derive(Debug)]
pub struct MoistureSensorReport {
    pub moisture: Readings,
}

impl View for MoistureSensorReport {
    type V = Seq<MoistureReading>;

    open spec fn view(&self) -> Seq<MoistureReading> {
        readings_of(self.moisture)
    }
}

/// No channel of `new` is too far from the same channel of `last` before `k`.
pub open spec fn close_before(new: Seq<MoistureReading>, last: Seq<MoistureReading>, k: int) -> bool {
    forall|j: int| 0 <= j < k ==> !rates_too_far(#[trigger] new[j], last[j])
}

/// What `sanity_check` decides on a report with channels `new` after one with
/// channels `last`, if any: `None` to accept it, or the first error.
pub open spec fn moisture_verdict(
    new: Seq<MoistureReading>,
    last: Option<Seq<MoistureReading>>,
) -> Option<MoistureSensorValidationError> {
    match last {
        None => None,
        Some(l) => if new.len() != l.len() {
            Some(MoistureSensorValidationError::DifferingLengths)
        } else if close_before(new, l, new.len() as int) {
            None
        } else {
            let i = choose|i: int|
                0 <= i < new.len() && rates_too_far(new[i], l[i]) && close_before(new, l, i);
            Some(
                MoistureSensorValidationError::LargeDelta {
                    sensor: i as usize,
                    diff: rate_gap_milli(new[i], l[i]),
                },
            )
        },
    }
}

/// `cross_gap`, computed without overflow.
fn cross_gap_exec(a: MoistureReading, b: MoistureReading) -> (r: u64)
    ensures
        r == cross_gap(a, b),
{
    proof {
        lemma_product_fits(a.clocks as int, b.duration_ms as int);
        lemma_product_fits(b.clocks as int, a.duration_ms as int);
    }
    let x = (a.clocks as u64) * (b.duration_ms as u64);
    let y = (b.clocks as u64) * (a.duration_ms as u64);
    if x >= y {
        x - y
    } else {
        y - x
    }
}

proof fn lemma_product_fits(c: int, d: int)
    requires
        0 <= c <= 0xffff,
        0 <= d <= 0xffff_ffff,
    ensures
        0 <= c * d <= 0xffff * 0xffff_ffff,
{
    assert(0 <= c * d <= 0xffff * 0xffff_ffff) by (nonlinear_arith)
        requires
            0 <= c <= 0xffff,
            0 <= d <= 0xffff_ffff,
    ;
}

proof fn lemma_gap_milli_fits(a: MoistureReading, b: MoistureReading)
    requires
        a.duration_ms > 0,
        b.duration_ms > 0,
    ensures
        a.duration_ms as int * b.duration_ms as int > 0,
        cross_gap(a, b) * 1_000_000 / (a.duration_ms as int * b.duration_ms as int) <= 1_000_000 * 0x1_fffe,
{
    let da = a.duration_ms as int;
    let db = b.duration_ms as int;
    let ca = a.clocks as int;
    let cb = b.clocks as int;
    let g = cross_gap(a, b);
    assert(0 <= g <= ca * db + cb * da);
    assert(g * 1_000_000 / (da * db) <= 1_000_000 * 0x1_fffe && da * db > 0) by (nonlinear_arith)
        requires
            0 <= ca <= 0xffff,
            0 <= cb <= 0xffff,
            da >= 1,
            db >= 1,
            0 <= g <= ca * db + cb * da,
    {
        assert(ca * db <= 0xffff * db);
        assert(cb * da <= 0xffff * da);
        assert(db <= da * db);
        assert(da <= da * db);
        assert(g <= 0x1_fffe * (da * db));
        assert(g * 1_000_000 <= (1_000_000 * 0x1_fffe) * (da * db));
        vstd::arithmetic::div_mod::lemma_div_is_ordered(
            g * 1_000_000,
            (1_000_000 * 0x1_fffe) * (da * db),
            da * db,
        );
        vstd::arithmetic::div_mod::lemma_div_by_multiple(1_000_000int * 0x1_fffe, da * db);
    }
}

/// `rates_too_far` and `rate_gap_milli`, computed.
fn compare_rates(a: MoistureReading, b: MoistureReading) -> (r: (bool, u64))
    ensures
        r.0 == rates_too_far(a, b),
        r.1 == rate_gap_milli(a, b),
{
    let g = cross_gap_exec(a, b) as u128;
    let da = a.duration_ms as u128;
    let db = b.duration_ms as u128;
    proof {
        assert(0 <= da * db <= 0xffff_ffff * 0xffff_ffff) by (nonlinear_arith)
            requires
                0 <= da <= 0xffff_ffff,
                0 <= db <= 0xffff_ffff,
        ;
        assert(MAX_RATE_DELTA as int * da * db == MAX_RATE_DELTA as int * (da * db)) by (nonlinear_arith);
    }
    let p = da * db;
    let too_far = g * 1000 > (MAX_RATE_DELTA as u128) * p;
    let diff: u64 = if a.duration_ms == 0 || b.duration_ms == 0 {
        u64::MAX
    } else {
        proof {
            lemma_gap_milli_fits(a, b);
        }
        ((g * 1_000_000) / p) as u64
    };
    (too_far, diff)
}

impl MoistureSensorReport {
    /// Accepts this report, or rejects it against the previous accepted one:
    /// `DifferingLengths` when the channel counts differ, else `LargeDelta`
    /// naming the first channel whose rate moved by more than
    /// `MAX_RATE_DELTA` edges per second. With no previous report it is
    /// accepted as it is.
    pub fn sanity_check(self, last: Option<&Self>) -> (r: Result<Self, MoistureSensorValidationError>)
        ensures
            r == (match moisture_verdict(self@, match last { Some(l) => Some(l@), None => None }) {
                Some(e) => Err::<Self, MoistureSensorValidationError>(e),
                None => Ok::<Self, MoistureSensorValidationError>(self),
            }),
    {
        if let Some(prev) = last {
            let new = heapless_slice(&self.moisture);
            let old = heapless_slice(&prev.moisture);
            if new.len() != old.len() {
                return Err(MoistureSensorValidationError::DifferingLengths);
            }
            let mut n: usize = 0;
            while n < new.len()
                invariant
                    new@ == self@,
                    old@ == prev@,
                    last == Some(prev),
                    new@.len() == old@.len(),
                    n <= new@.len(),
                    close_before(new@, old@, n as int),
                decreases new@.len() - n,
            {
                let (too_far, diff) = compare_rates(new[n], old[n]);
                if too_far {
                    proof {
                        let ni = n as int;
                        assert(0 <= ni < new@.len() && rates_too_far(new@[ni], old@[ni])
                            && close_before(new@, old@, ni));
                        let i = choose|i: int|
                            0 <= i < new@.len() && rates_too_far(new@[i], old@[i])
                                && close_before(new@, old@, i);
                        if i < ni {
                            assert(!rates_too_far(new@[i], old@[i]));
                        } else if i > ni {
                            assert(!rates_too_far(new@[ni], old@[ni]));
                        }
                        assert(i == ni);
                        assert(!close_before(new@, old@, new@.len() as int));
                        assert(moisture_verdict(self@, Some(prev@)) == Some(
                            MoistureSensorValidationError::LargeDelta { sensor: n, diff },
                        ));
                    }
                    return Err(MoistureSensorValidationError::LargeDelta { sensor: n, diff });
                }
                n = n + 1;
            }
        }
        Ok(self)
    }

    /// A second report holding the same readings.
    pub fn duplicate(&self) -> (r: MoistureSensorReport)
        ensures
            r@ == self@,
    {
        MoistureSensorReport { moisture: self.moisture.duplicate() }
    }
}

/// Against a previous report with another channel count, a report is
/// rejected with `DifferingLengths`, whatever the readings.
pub proof fn lemma_differing_lengths_rejected(new: Seq<MoistureReading>, last: Seq<MoistureReading>)
    requires
        new.len() != last.len(),
    ensures
        moisture_verdict(new, Some(last)) == Some(MoistureSensorValidationError::DifferingLengths),
{
}

} // verus!
