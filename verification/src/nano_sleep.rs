//! Waiting for nanoseconds by watching the time-stamp counter.
//!
//! Reading the counter and spinning on it is left to the caller; this
//! module decides how the counter is calibrated, what the measurements of a
//! calibration amount to and up to which count a wait has to spin.

use vstd::prelude::*;

verus! {

/// Something that can wait for a number of nanoseconds and knows how fast
/// its clock ticks.
///
/// An implementation keeps, in its model, the list of the waits it was
/// asked for; the players are specified by what they append to that list.
pub trait NanoWaiter {
    /// Every wait asked for so far, oldest first, in nanoseconds. An
    /// implementation that is not verified leaves this unsaid.
    open spec fn slept(&self) -> Seq<u64> {
        arbitrary()
    }

    /// The ticks of the clock in one microsecond. An implementation that
    /// is not verified leaves this unsaid.
    open spec fn ticks_per_usec(&self) -> u64 {
        arbitrary()
    }

    fn nano_sleep(&mut self, nanoseconds: u64)
        ensures
            final(self).slept() == old(self).slept().push(nanoseconds),
            final(self).ticks_per_usec() == old(self).ticks_per_usec(),
    ;

    fn ticks_in_microsecond(&self) -> (r: u64)
        ensures
            r == self.ticks_per_usec(),
    ;
}

/// A waiter that waits for nothing and only remembers what it was asked
/// for. It lets the players run without a clock.
pub struct SleepLog {
    asked: Vec<u64>,
    rate: u64,
}

impl SleepLog {
    /// A waiter whose clock is said to tick `ticks_per_usec` times in a
    /// microsecond.
    pub fn new(ticks_per_usec: u64) -> (r: Self)
        ensures
            r.slept() == Seq::<u64>::empty(),
            r.ticks_per_usec() == ticks_per_usec,
    {
        SleepLog { asked: Vec::new(), rate: ticks_per_usec }
    }

    /// The waits asked for so far, oldest first.
    pub fn waits(&self) -> (r: &Vec<u64>)
        ensures
            r@ == self.slept(),
    {
        &self.asked
    }
}

impl NanoWaiter for SleepLog {
    closed spec fn slept(&self) -> Seq<u64> {
        self.asked@
    }

    closed spec fn ticks_per_usec(&self) -> u64 {
        self.rate
    }

    fn nano_sleep(&mut self, nanoseconds: u64) {
        self.asked.push(nanoseconds);
    }

    fn ticks_in_microsecond(&self) -> (r: u64) {
        self.rate
    }
}

/// How many waits a calibration measures.
pub const CORRECTION_COUNT: usize = 30;

/// How long each measured wait is, in nanoseconds.
pub const CORRECTION_WAIT_NSEC: u64 = 800;

/// How many waits are made before the measured ones.
pub const WARMING_COUNT: usize = 10;

/// Waits shorter than this many nanoseconds are not made at all.
pub const SHORTEST_WAIT_NSEC: u64 = 8;

/// Waits up to this many nanoseconds are made by reading the counter once.
pub const ONE_READ_WAIT_NSEC: u64 = 12;

/// The rate of the counter and what is taken off every wait to make up for
/// the time that waiting itself costs.
#[derive(Copy, Clone, Debug, PartialEq, Eq, Structural)]
pub struct NanoSleep {
    tsc_ticks_in_one_microsecond: u64,
    correction_tick_count: u64,
}

/// How the rate of the counter is found.
#[derive(Copy, Clone, Debug, PartialEq, Eq, Structural)]
pub enum Calibration {
    /// The counter runs at the processor's base frequency, given in MHz;
    /// the cost of waiting is measured.
    Invariant(u64),
    /// The counter is timed against the wall clock; nothing is corrected.
    Timed,
}

/// How a wait is made.
#[derive(Copy, Clone, Debug, PartialEq, Eq, Structural)]
pub enum Wait {
    /// Return at once.
    Nothing,
    /// Read the counter once and return.
    OneRead,
    /// Read the counter until it has reached the given count.
    Until(u64),
}

/// Do the numbers stand in ascending order?
pub open spec fn ascending(s: Seq<u64>) -> bool {
    forall|i: int, j: int| 0 <= i <= j < s.len() ==> s[i] <= s[j]
}

/// The median of numbers in ascending order: the middle one, or the mean
/// of the two in the middle, rounded down.
pub open spec fn median(s: Seq<u64>) -> int {
    let half = (s.len() / 2) as int;
    if s.len() % 2 == 0 {
        (s[half - 1] + s[half]) / 2
    } else {
        s[half] as int
    }
}

/// The lower half of numbers in ascending order, without the middle one
/// where their count is odd.
pub open spec fn lower_half(s: Seq<u64>) -> Seq<u64> {
    s.take((s.len() / 2) as int)
}

/// The upper half of numbers in ascending order, without the middle one
/// where their count is odd.
pub open spec fn upper_half(s: Seq<u64>) -> Seq<u64> {
    s.skip(s.len() - s.len() / 2)
}

/// The fences outside which a number is an outlier: three times the
/// distance of the quartiles below the first and above the third.
pub open spec fn fences(s: Seq<u64>) -> (int, int) {
    let first = median(lower_half(s));
    let third = median(upper_half(s));
    (first - 3 * (third - first), third + 3 * (third - first))
}

/// How many of the numbers lie within the fences.
pub open spec fn kept_count(s: Seq<u64>, low: int, high: int) -> int
    decreases s.len(),
{
    if s.len() == 0 {
        0
    } else {
        kept_count(s.drop_last(), low, high) + if low <= s.last() <= high {
            1int
        } else {
            0int
        }
    }
}

/// The sum of the numbers that lie within the fences.
pub open spec fn kept_sum(s: Seq<u64>, low: int, high: int) -> int
    decreases s.len(),
{
    if s.len() == 0 {
        0
    } else {
        kept_sum(s.drop_last(), low, high) + if low <= s.last() <= high {
            s.last() as int
        } else {
            0int
        }
    }
}

/// The mean, rounded down, of those of the numbers that are no outliers.
pub open spec fn trimmed_mean(s: Seq<u64>) -> int {
    kept_sum(s, fences(s).0, fences(s).1) / kept_count(s, fences(s).0, fences(s).1)
}

/// The ticks that a wait of `nanoseconds` would take if waiting cost
/// nothing, at `ticks_per_usec` ticks in a microsecond.
pub open spec fn ideal_ticks(nanoseconds: int, ticks_per_usec: int) -> int {
    nanoseconds * ticks_per_usec / 1000
}

/// What a measured mean exceeds the ideal by; zero if it does not.
pub open spec fn correction_of(mean: int, ideal: int) -> int {
    if mean > ideal {
        mean - ideal
    } else {
        0
    }
}

/// How a wait of `nanoseconds` is made at the count `now`: the deadline is
/// `now` less the correction, but not below zero, plus the ideal ticks of
/// the wait, but not beyond what the counter can hold.
pub open spec fn wait_of(sleep: NanoSleep, now: int, nanoseconds: int) -> Wait {
    if nanoseconds < 8 {
        Wait::Nothing
    } else if nanoseconds <= 12 {
        Wait::OneRead
    } else {
        let start = if now > sleep.correction() {
            now - sleep.correction()
        } else {
            0
        };
        let deadline = start + ideal_ticks(nanoseconds, sleep.ticks_per_usec());
        if deadline > u64::MAX {
            Wait::Until(u64::MAX)
        } else {
            Wait::Until(deadline as u64)
        }
    }
}

/// The way to calibrate on a processor that has or lacks an invariant
/// counter and that gives or withholds its base frequency.
pub open spec fn calibration_for(stable: Option<bool>, base_mhz: Option<u16>) -> Calibration {
    match (stable, base_mhz) {
        (Some(true), Some(mhz)) => Calibration::Invariant(mhz as u64),
        _ => Calibration::Timed,
    }
}

/// Among numbers in ascending order the last of the lower half lies within
/// the fences, so some number is always kept.
pub proof fn lemma_some_kept(s: Seq<u64>)
    requires
        ascending(s),
        s.len() >= 2,
    ensures
        median(lower_half(s)) <= median(upper_half(s)),
        fences(s).0 <= s[s.len() / 2 - 1] <= fences(s).1,
        kept_count(s, fences(s).0, fences(s).1) >= 1,
{
    let n = s.len() as int;
    let half = n / 2;
    let low = lower_half(s);
    let up = upper_half(s);
    let pivot = s[half - 1];
    assert(low.len() == half && up.len() == half);
    assert forall|i: int| 0 <= i < half implies low[i] <= pivot && pivot <= up[i] by {
        assert(low[i] == s[i]);
        assert(up[i] == s[n - half + i]);
    }
    assert(low[half - 1] == pivot);
    assert(up[0] == s[n - half]);
    assert(median(low) <= pivot) by {
        let h = half / 2;
        if half % 2 == 0 {
            assert(low[h - 1] <= pivot && low[h] <= pivot);
        } else {
            assert(low[h] <= pivot);
        }
    }
    assert(pivot <= median(up)) by {
        let h = half / 2;
        if half % 2 == 0 {
            assert(pivot <= up[h - 1] && pivot <= up[h]);
        } else {
            assert(pivot <= up[h]);
        }
    }
    lemma_kept_count_of_member(s, fences(s).0, fences(s).1, half - 1);
}

/// If one of the numbers lies within the fences, at least one is kept.
pub proof fn lemma_kept_count_of_member(s: Seq<u64>, low: int, high: int, at: int)
    requires
        0 <= at < s.len(),
        low <= s[at] <= high,
    ensures
        kept_count(s, low, high) >= 1,
    decreases s.len(),
{
    lemma_kept_bounds(s.drop_last(), low, high);
    if at < s.len() - 1 {
        lemma_kept_count_of_member(s.drop_last(), low, high, at);
    }
}

/// No more numbers are kept than there are, and their sum is no more than
/// each could be at most.
pub proof fn lemma_kept_bounds(s: Seq<u64>, low: int, high: int)
    ensures
        0 <= kept_count(s, low, high) <= s.len(),
        0 <= kept_sum(s, low, high) <= s.len() * u64::MAX,
    decreases s.len(),
{
    if s.len() > 0 {
        lemma_kept_bounds(s.drop_last(), low, high);
        assert((s.len() - 1) * u64::MAX + u64::MAX == s.len() * u64::MAX) by (nonlinear_arith);
    }
}

/// Puts numbers into ascending order with `sort_unstable` of std's slices:
/// afterwards the same numbers, each as often as before, stand in ascending
/// order.
#[verifier::external_body]
fn sort_ascending(values: &mut Vec<u64>)
    ensures
        ascending(final(values)@),
        final(values)@.to_multiset() == old(values)@.to_multiset(),
{
    values.sort_unstable();
}

/// Asks the processor, through `CpuId::get_advanced_power_mgmt_info` and
/// `ApmInfo::has_invariant_tsc` of raw_cpuid, whether its time-stamp counter
/// is invariant. The answer depends on the machine; nothing is claimed of it.
#[verifier::external_body]
fn invariant_tsc() -> (r: Option<bool>) {
    match raw_cpuid::CpuId::new().get_advanced_power_mgmt_info() {
        Some(info) => Some(info.has_invariant_tsc()),
        None => None,
    }
}

/// Asks the processor, through `CpuId::get_processor_frequency_info` and
/// `ProcessorFrequencyInfo::processor_base_frequency` of raw_cpuid, for its
/// base frequency in MHz. The answer depends on the machine; nothing is
/// claimed of it.
#[verifier::external_body]
fn base_frequency_mhz() -> (r: Option<u16>) {
    match raw_cpuid::CpuId::new().get_processor_frequency_info() {
        Some(info) => Some(info.processor_base_frequency()),
        None => None,
    }
}

/// The median of numbers in ascending order.
pub fn median_of(sorted: &[u64]) -> (r: u64)
    requires
        sorted@.len() >= 1,
        ascending(sorted@),
    ensures
        r == median(sorted@),
{
    let half = sorted.len() / 2;
    if sorted.len() % 2 == 0 {
        let low = sorted[half - 1];
        let high = sorted[half];
        low + (high - low) / 2
    } else {
        sorted[half]
    }
}

/// The mean of the numbers that are no outliers.
pub fn mean_without_outliers(sorted: &[u64]) -> (r: u64)
    requires
        sorted@.len() >= 2,
        ascending(sorted@),
    ensures
        r == trimmed_mean(sorted@),
{
    let n = sorted.len();
    let half = n / 2;
    let (lower, rest) = sorted.split_at(half);
    let (_middle, upper) = sorted.split_at(n - half);
    proof {
        assert(lower@ =~= lower_half(sorted@));
        assert(upper@ =~= upper_half(sorted@));
        assert forall|i: int, j: int| 0 <= i <= j < lower@.len() implies lower@[i]
            <= lower@[j] by {
            assert(lower@[i] == sorted@[i] && lower@[j] == sorted@[j]);
        }
        assert forall|i: int, j: int| 0 <= i <= j < upper@.len() implies upper@[i]
            <= upper@[j] by {
            assert(upper@[i] == sorted@[n - half + i] && upper@[j] == sorted@[n - half + j]);
        }
        lemma_some_kept(sorted@);
    }
    let first = median_of(lower);
    let third = median_of(upper);
    let spread: u128 = 3 * (third - first) as u128;
    let low: i128 = first as i128 - spread as i128;
    let high: u128 = third as u128 + spread;
    let mut count: u128 = 0;
    let mut sum: u128 = 0;
    let mut i: usize = 0;
    proof {
        assert(sorted@.take(0) =~= Seq::<u64>::empty());
    }
    while i < n
        invariant
            n == sorted@.len(),
            0 <= i <= n,
            low == fences(sorted@).0,
            high == fences(sorted@).1,
            count == kept_count(sorted@.take(i as int), low as int, high as int),
            sum == kept_sum(sorted@.take(i as int), low as int, high as int),
        decreases n - i,
    {
        let value = sorted[i];
        proof {
            assert(sorted@.take(i + 1).drop_last() =~= sorted@.take(i as int));
            lemma_kept_bounds(sorted@.take(i + 1), low as int, high as int);
            assert((i + 1) * u64::MAX <= usize::MAX * u64::MAX) by (nonlinear_arith)
                requires
                    i + 1 <= usize::MAX,
            ;
            assert(usize::MAX * u64::MAX <= u64::MAX * u64::MAX) by (nonlinear_arith)
                requires
                    usize::MAX <= u64::MAX,
            ;
        }
        if low <= value as i128 && value as u128 <= high {
            count += 1;
            sum += value as u128;
        }
        i += 1;
    }
    proof {
        assert(sorted@.take(n as int) =~= sorted@);
        lemma_mean_bound(sum as int, count as int, sorted@, low as int, high as int);
    }
    (sum / count) as u64
}

/// The mean of kept numbers is no more than the largest a number can be.
proof fn lemma_mean_bound(sum: int, count: int, s: Seq<u64>, low: int, high: int)
    requires
        sum == kept_sum(s, low, high),
        count == kept_count(s, low, high),
        count >= 1,
    ensures
        0 <= sum / count <= u64::MAX,
{
    lemma_kept_sum_by_count(s, low, high);
    vstd::arithmetic::div_mod::lemma_div_pos_is_pos(sum, count);
    vstd::arithmetic::div_mod::lemma_div_is_ordered(sum, count * u64::MAX, count);
    vstd::arithmetic::div_mod::lemma_div_multiples_vanish(u64::MAX as int, count);
    assert(count * u64::MAX == u64::MAX * count) by (nonlinear_arith);
}

proof fn lemma_kept_sum_by_count(s: Seq<u64>, low: int, high: int)
    ensures
        0 <= kept_sum(s, low, high) <= kept_count(s, low, high) * u64::MAX,
    decreases s.len(),
{
    if s.len() > 0 {
        lemma_kept_sum_by_count(s.drop_last(), low, high);
        let c = kept_count(s.drop_last(), low, high);
        assert((c + 1) * u64::MAX == c * u64::MAX + u64::MAX) by (nonlinear_arith);
    }
}

impl NanoSleep {
    /// The ticks of the counter in one microsecond.
    pub closed spec fn ticks_per_usec(self) -> int {
        self.tsc_ticks_in_one_microsecond as int
    }

    /// The ticks taken off every wait.
    pub closed spec fn correction(self) -> int {
        self.correction_tick_count as int
    }

    /// A waiter with the given rate and correction.
    pub fn from_parts(ticks_in_one_microsecond: u64, correction_tick_count: u64) -> (r: Self)
        ensures
            r.ticks_per_usec() == ticks_in_one_microsecond,
            r.correction() == correction_tick_count,
    {
        NanoSleep { tsc_ticks_in_one_microsecond: ticks_in_one_microsecond, correction_tick_count }
    }

    pub fn ticks_in_microsecond(&self) -> (r: u64)
        ensures
            r == self.ticks_per_usec(),
    {
        self.tsc_ticks_in_one_microsecond
    }

    pub fn correction_ticks(&self) -> (r: u64)
        ensures
            r == self.correction(),
    {
        self.correction_tick_count
    }

    /// The way to calibrate, given what the processor says of its counter
    /// and its base frequency.
    pub fn choose_calibration(stable: Option<bool>, base_mhz: Option<u16>) -> (r: Calibration)
        ensures
            r == calibration_for(stable, base_mhz),
    {
        match (stable, base_mhz) {
            (Some(true), Some(mhz)) => Calibration::Invariant(mhz as u64),
            _ => Calibration::Timed,
        }
    }

    /// The way to calibrate on this machine: by the base frequency if the
    /// processor has an invariant counter and gives that frequency, by the
    /// wall clock otherwise.
    pub fn calibration() -> (r: Calibration)
        ensures
            r matches Calibration::Invariant(base_mhz) ==> base_mhz <= 65_535,
    {
        Self::choose_calibration(invariant_tsc(), base_frequency_mhz())
    }

    /// The waiter that a calibration by the base frequency ends in, from
    /// the ticks that waits of `wait_nsec` nanoseconds were measured to
    /// take: the rate is the base frequency, and the correction is what the
    /// mean of the measurements without their outliers exceeds the ideal by.
    ///
    /// Fewer than two measurements have no quartiles and give nothing.
    pub fn calibrated(base_mhz: u64, wait_nsec: u64, deltas: Vec<u64>) -> (r: Option<Self>)
        ensures
            r is Some <==> deltas@.len() >= 2,
            r matches Some(sleep) ==> sleep.ticks_per_usec() == base_mhz && exists|s: Seq<u64>|
                #![trigger ascending(s)]
                ascending(s) && s.to_multiset() == deltas@.to_multiset() && sleep.correction()
                    == correction_of(trimmed_mean(s), ideal_ticks(wait_nsec as int, base_mhz as int)),
    {
        if deltas.len() < 2 {
            return None;
        }
        let mut sorted = deltas;
        sort_ascending(&mut sorted);
        proof {
            sorted@.to_multiset_ensures();
            deltas@.to_multiset_ensures();
        }
        let mean = mean_without_outliers(sorted.as_slice());
        assert(wait_nsec * base_mhz <= u64::MAX * u64::MAX) by (nonlinear_arith)
            requires
                wait_nsec <= u64::MAX,
                base_mhz <= u64::MAX,
        ;
        let ideal: u128 = wait_nsec as u128 * base_mhz as u128 / 1000;
        let correction: u64 = if mean as u128 > ideal {
            (mean as u128 - ideal) as u64
        } else {
            0
        };
        Some(NanoSleep { tsc_ticks_in_one_microsecond: base_mhz, correction_tick_count: correction })
    }

    /// The waiter that a calibration by the wall clock ends in, from the
    /// ticks counted in `calibration_msec` milliseconds: the rate is their
    /// quotient, rounded down, and nothing is corrected.
    pub fn timed(ticks_delta: u64, calibration_msec: u32) -> (r: Self)
        requires
            calibration_msec > 0,
        ensures
            r.ticks_per_usec() == ticks_delta as int / (calibration_msec * 1000),
            r.correction() == 0,
    {
        let microseconds: u64 = calibration_msec as u64 * 1000;
        NanoSleep {
            tsc_ticks_in_one_microsecond: ticks_delta / microseconds,
            correction_tick_count: 0,
        }
    }

    /// How a wait of `nanoseconds` is made when the counter stands at
    /// `now`.
    pub fn plan(&self, now: u64, nanoseconds: u64) -> (r: Wait)
        ensures
            r == wait_of(*self, now as int, nanoseconds as int),
    {
        if nanoseconds < SHORTEST_WAIT_NSEC {
            return Wait::Nothing;
        }
        if nanoseconds <= ONE_READ_WAIT_NSEC {
            return Wait::OneRead;
        }
        let start: u64 = if now > self.correction_tick_count {
            now - self.correction_tick_count
        } else {
            0
        };
        assert(nanoseconds * self.tsc_ticks_in_one_microsecond <= u64::MAX * u64::MAX)
            by (nonlinear_arith)
            requires
                nanoseconds <= u64::MAX,
                self.tsc_ticks_in_one_microsecond <= u64::MAX,
        ;
        let ideal: u128 = nanoseconds as u128 * self.tsc_ticks_in_one_microsecond as u128 / 1000;
        let deadline: u128 = start as u128 + ideal;
        if deadline > u64::MAX as u128 {
            Wait::Until(u64::MAX)
        } else {
            Wait::Until(deadline as u64)
        }
    }
}

} // verus!
