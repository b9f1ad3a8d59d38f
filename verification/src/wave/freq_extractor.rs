//! The frequency extractor: from the spectra of a sliding window to the
//! frequencies that stand out, one channel for each of the strongest peaks.
//!
//! The window is `sampling_size` samples wide and moves on by `step_by`
//! samples. The spectrum of each window is computed elsewhere and handed in
//! as magnitudes, one for each frequency bin from `lower_index` on. Here the
//! peaks of each spectrum are found and followed from window to window.

use vstd::prelude::*;
use crate::note::frequency::MilliHertz;
use crate::wave::filter::{FreqChannel, FreqData, FreqRecord};

verus! {

pub struct FreqExtractor {
    lower_bound_hz: Option<u32>,
    upper_bound_hz: Option<u32>,
    sampling_size: u32,
    step_by: u32,
    sample_rate: u32,
    number_of_peaks: u8,
}

/// What an extractor is set to.
pub ghost struct ExtractorView {
    pub lower_bound_hz: Option<u32>,
    pub upper_bound_hz: Option<u32>,
    pub sampling_size: u32,
    pub step_by: u32,
    pub sample_rate: u32,
    pub number_of_peaks: u8,
}

/// The magnitudes handed to the peak finder may not exceed this in size,
/// so that their differences can be formed.
pub const MAGNITUDE_LIMIT: i64 = 0x1000_0000_0000_0000;

/// The default width of the window, in samples.
pub const DEFAULT_SAMPLING_SIZE: u32 = 4096;

/// The default step of the window, in samples.
pub const DEFAULT_STEP: u32 = 32;

/// The default number of peaks to follow.
pub const DEFAULT_PEAKS: u8 = 2;

/// The bin of a frequency: `freq · sampling_size / sample_rate`, rounded
/// down.
pub open spec fn bin_of(freq_hz: int, set: ExtractorView) -> int {
    freq_hz * set.sampling_size / (set.sample_rate as int)
}

/// The first bin that is looked at: that of the lower bound, or bin 0.
pub open spec fn lower_index(set: ExtractorView) -> int {
    match set.lower_bound_hz {
        Some(freq) => bin_of(freq as int, set),
        None => 0,
    }
}

/// The bin behind the last that is looked at: that of the upper bound, or
/// the middle of the window.
pub open spec fn upper_index(set: ExtractorView) -> int {
    match set.upper_bound_hz {
        Some(freq) => bin_of(freq as int, set),
        None => set.sampling_size as int / 2,
    }
}

/// How long a window stands for: the time of one step, in nanoseconds,
/// rounded down.
pub open spec fn step_duration(set: ExtractorView) -> int {
    1_000_000_000 * set.step_by / (set.sample_rate as int)
}

/// How many windows fit `length` samples: none unless there are more than
/// one window's worth, else one at every step as long as its start lies
/// more than a window's width before the end.
pub open spec fn window_count(length: int, set: ExtractorView) -> int {
    if length <= set.sampling_size {
        0
    } else {
        (length - set.sampling_size + set.step_by - 1) / (set.step_by as int)
    }
}

/// The frequency of a bin in millihertz, rounded down.
pub open spec fn bin_freq(bin: int, set: ExtractorView) -> int {
    set.sample_rate * bin * 1000 / (set.sampling_size as int)
}

/// A channel after a window in which its peak has the given frequency: if
/// a hundred times the frequency is less than five times that of the last
/// record, that record lasts one step longer; else a new record follows.
pub open spec fn followed(channel: Seq<FreqRecord<MilliHertz>>, freq: int, duration: int) -> Seq<
    FreqRecord<MilliHertz>,
> {
    if channel.len() > 0 && channel.last().freq > 0 && freq * 100 < 5 * channel.last().freq {
        channel.update(
            channel.len() - 1,
            FreqRecord {
                freq: channel.last().freq,
                duration: (channel.last().duration + duration) as u64,
            },
        )
    } else {
        channel.push(FreqRecord { freq: freq as u64, duration: duration as u64 })
    }
}

/// A channel after the given windows, each with the places of its peaks
/// counted from the first bin looked at, strongest first: the channel
/// follows the peak of its own rank through the windows that have one.
pub open spec fn trail(windows: Seq<Seq<usize>>, channel: int, set: ExtractorView) -> Seq<
    FreqRecord<MilliHertz>,
>
    decreases windows.len(),
{
    if windows.len() == 0 {
        Seq::empty()
    } else {
        let before = trail(windows.drop_last(), channel, set);
        let peaks = windows.last();
        if 0 <= channel < peaks.len() {
            followed(
                before,
                bin_freq(peaks[channel] + lower_index(set), set),
                step_duration(set),
            )
        } else {
            before
        }
    }
}

/// The places of the peaks of a spectrum as the peak finder of find_peaks
/// gives them: for every peak the middle of its plateau, the peaks in the
/// order of their height, highest first.
pub uninterp spec fn peak_positions(magnitudes: Seq<i64>) -> Seq<usize>;

/// Finds the peaks of a spectrum with `PeakFinder::new` and
/// `PeakFinder::find_peaks` of find_peaks, without bounds on height,
/// prominence, plateau or distance, and takes `Peak::middle_position` of
/// each. The places found lie within the spectrum. The magnitudes must be
/// small enough for the finder to subtract any two of them.
#[verifier::external_body]
fn find_peak_positions(magnitudes: &Vec<i64>) -> (r: Vec<usize>)
    requires
        forall|i: int|
            0 <= i < magnitudes@.len() ==> -0x1000_0000_0000_0000 <= #[trigger] magnitudes@[i]
                <= 0x1000_0000_0000_0000,
    ensures
        r@ == peak_positions(magnitudes@),
        forall|i: int| 0 <= i < r@.len() ==> #[trigger] r@[i] < magnitudes@.len(),
{
    find_peaks::PeakFinder::new(magnitudes.as_slice()).find_peaks().iter().map(
        |peak| peak.middle_position(),
    ).collect()
}

/// Can the places of peaks be tracked: does each, counted from the first
/// bin looked at, name a bin of the window, and are there no more windows
/// than a wave has room for?
pub open spec fn trackable(windows: Seq<Seq<usize>>, set: ExtractorView) -> bool {
    &&& windows.len() * set.step_by <= 0xFFFF_FFFF
    &&& forall|w: int, i: int|
        0 <= w < windows.len() && 0 <= i < windows[w].len() ==> (#[trigger] windows[w][i])
            + lower_index(set) <= set.sampling_size
}

/// The peak places of a list of windows.
pub open spec fn places(windows: Seq<Vec<usize>>) -> Seq<Seq<usize>> {
    Seq::new(windows.len(), |w: int| windows[w]@)
}

/// The peak places of a list of spectra.
pub open spec fn peaks_of(spectra: Seq<Vec<i64>>) -> Seq<Seq<usize>> {
    Seq::new(spectra.len(), |w: int| peak_positions(spectra[w]@))
}

impl View for FreqExtractor {
    type V = ExtractorView;

    closed spec fn view(&self) -> ExtractorView {
        ExtractorView {
            lower_bound_hz: self.lower_bound_hz,
            upper_bound_hz: self.upper_bound_hz,
            sampling_size: self.sampling_size,
            step_by: self.step_by,
            sample_rate: self.sample_rate,
            number_of_peaks: self.number_of_peaks,
        }
    }
}

/// Can the extractor work: are the window's width, its step and the sample
/// rate all above zero?
pub open spec fn usable(set: ExtractorView) -> bool {
    set.sampling_size > 0 && set.step_by > 0 && set.sample_rate > 0
}

impl FreqExtractor {
    pub fn new(
        lower_bound_hz: Option<u32>,
        upper_bound_hz: Option<u32>,
        sampling_size: u32,
        step_by: u32,
        sample_rate: u32,
        number_of_peaks: u8,
    ) -> (r: Self)
        ensures
            r@ == (ExtractorView {
                lower_bound_hz,
                upper_bound_hz,
                sampling_size,
                step_by,
                sample_rate,
                number_of_peaks,
            }),
    {
        Self { lower_bound_hz, upper_bound_hz, sampling_size, step_by, sample_rate, number_of_peaks }
    }

    pub fn is_usable(&self) -> (r: bool)
        ensures
            r == usable(self@),
    {
        self.sampling_size > 0 && self.step_by > 0 && self.sample_rate > 0
    }

    /// The width of the window, in samples.
    pub fn sampling_size(&self) -> (r: u32)
        ensures
            r == self@.sampling_size,
    {
        self.sampling_size
    }

    /// The step of the window, in samples.
    pub fn step_by(&self) -> (r: u32)
        ensures
            r == self@.step_by,
    {
        self.step_by
    }

    /// The number of peaks that are followed.
    pub fn number_of_peaks(&self) -> (r: u8)
        ensures
            r == self@.number_of_peaks,
    {
        self.number_of_peaks
    }

    fn bin(&self, freq_hz: u32) -> (r: u64)
        requires
            usable(self@),
        ensures
            r == bin_of(freq_hz as int, self@),
            r <= 0xFFFF_FFFF * 0xFFFF_FFFF,
    {
        assert(0 <= freq_hz * self.sampling_size <= 0xFFFF_FFFF * 0xFFFF_FFFF) by (nonlinear_arith)
            requires
                0 <= freq_hz <= 0xFFFF_FFFF,
                0 <= self.sampling_size <= 0xFFFF_FFFF,
        ;
        proof {
            lemma_quotient_bound(
                freq_hz * self.sampling_size,
                self.sample_rate as int,
                0xFFFF_FFFFint * 0xFFFF_FFFFint,
            );
        }
        freq_hz as u64 * self.sampling_size as u64 / self.sample_rate as u64
    }

    /// The first bin that is looked at.
    pub fn lower_index(&self) -> (r: u64)
        requires
            usable(self@),
        ensures
            r == lower_index(self@),
    {
        match self.lower_bound_hz {
            Some(freq) => self.bin(freq),
            None => 0,
        }
    }

    /// The bin behind the last that is looked at.
    pub fn upper_index(&self) -> (r: u64)
        requires
            usable(self@),
        ensures
            r == upper_index(self@),
    {
        match self.upper_bound_hz {
            Some(freq) => self.bin(freq),
            None => (self.sampling_size / 2) as u64,
        }
    }

    /// How long a window stands for, in nanoseconds.
    pub fn step_duration(&self) -> (r: u64)
        requires
            usable(self@),
        ensures
            r == step_duration(self@),
            r <= 1_000_000_000 * self@.step_by,
    {
        assert(0 <= 1_000_000_000 * self.step_by <= 1_000_000_000 * 0xFFFF_FFFF)
            by (nonlinear_arith)
            requires
                0 <= self.step_by <= 0xFFFF_FFFF,
        ;
        proof {
            lemma_quotient_bound(
                1_000_000_000 * self.step_by,
                self.sample_rate as int,
                1_000_000_000 * self.step_by,
            );
        }
        1_000_000_000u64 * self.step_by as u64 / self.sample_rate as u64
    }

    /// How many windows fit a number of samples.
    pub fn window_count(&self, length: usize) -> (r: usize)
        requires
            usable(self@),
        ensures
            r == window_count(length as int, self@),
            r * self@.step_by < length + self@.step_by,
            r > 0 ==> (r - 1) * self@.step_by + self@.sampling_size < length,
    {
        if length as u128 <= self.sampling_size as u128 {
            return 0;
        }
        let room: u128 = length as u128 - self.sampling_size as u128;
        let step: u128 = self.step_by as u128;
        let count: u128 = (room + step - 1) / step;
        proof {
            vstd::arithmetic::div_mod::lemma_fundamental_div_mod(
                (room + step - 1) as int,
                step as int,
            );
            vstd::arithmetic::div_mod::lemma_mod_bound((room + step - 1) as int, step as int);
            let rest = (room + step - 1) as int % step as int;
            assert(count * step < room + step && (count - 1) * step < room && count <= room)
                by (nonlinear_arith)
                requires
                    room + step - 1 == step * count + rest,
                    0 <= rest < step,
                    step >= 1,
                    room >= 1,
                    count >= 0,
            ;
        }
        count as usize
    }

    /// Where the window of a given number starts.
    pub fn window_start(&self, window: usize) -> (r: usize)
        requires
            window * self@.step_by <= usize::MAX,
        ensures
            r == window * self@.step_by,
    {
        window * self.step_by as usize
    }

    /// The frequency of a bin.
    pub fn bin_frequency(&self, bin: u64) -> (r: MilliHertz)
        requires
            usable(self@),
            bin <= self@.sampling_size,
        ensures
            r == bin_freq(bin as int, self@),
            r <= 0xFFFF_FFFF * 1000,
    {
        assert(0 <= self.sample_rate * bin * 1000 <= 0xFFFF_FFFF * 1000 * self.sampling_size)
            by (nonlinear_arith)
            requires
                0 <= self.sample_rate <= 0xFFFF_FFFF,
                0 <= bin <= self.sampling_size,
        ;
        assert(0xFFFF_FFFF * 1000 * self.sampling_size <= 0xFFFF_FFFF * 1000 * 0xFFFF_FFFF)
            by (nonlinear_arith)
            requires
                0 <= self.sampling_size <= 0xFFFF_FFFF,
        ;
        assert(self.sample_rate * bin <= 0xFFFF_FFFF * 0xFFFF_FFFF) by (nonlinear_arith)
            requires
                0 <= self.sample_rate <= 0xFFFF_FFFF,
                0 <= bin <= 0xFFFF_FFFF,
        ;
        proof {
            let top: int = 0xFFFF_FFFFint * 1000;
            vstd::arithmetic::div_mod::lemma_div_is_ordered(
                self.sample_rate * bin * 1000,
                top * self.sampling_size,
                self.sampling_size as int,
            );
            vstd::arithmetic::div_mod::lemma_div_multiples_vanish(top, self.sampling_size as int);
            assert(top * self.sampling_size == self.sampling_size * top) by (nonlinear_arith);
            vstd::arithmetic::div_mod::lemma_div_pos_is_pos(
                self.sample_rate * bin * 1000,
                self.sampling_size as int,
            );
        }
        let scaled: u128 = self.sample_rate as u128 * bin as u128 * 1000;
        (scaled / self.sampling_size as u128) as u64
    }

    /// Lets a channel follow a peak of the given frequency through one
    /// more window.
    fn follow(channel: &mut FreqChannel<MilliHertz>, freq: MilliHertz, duration: u64)
        requires
            freq <= 0xFFFF_FFFF * 1000,
            old(channel)@.len() > 0 ==> old(channel)@.last().duration + duration <= u64::MAX,
        ensures
            final(channel)@ == followed(old(channel)@, freq as int, duration as int),
    {
        let length = channel.len();
        if length > 0 {
            let last = channel[length - 1];
            if last.freq > 0 && (freq as u128) * 100 < 5 * (last.freq as u128) {
                channel.set(
                    length - 1,
                    FreqRecord { freq: last.freq, duration: last.duration + duration },
                );
                proof {
                    assert(channel@ =~= followed(old(channel)@, freq as int, duration as int));
                }
                return ;
            }
        }
        channel.push(FreqRecord { freq, duration });
    }

    /// Follows the peaks through the windows: channel `c` gets the peak of
    /// rank `c` of every window that has one.
    pub fn track(&self, windows: &Vec<Vec<usize>>) -> (r: FreqData<MilliHertz>)
        requires
            usable(self@),
            trackable(places(windows@), self@),
        ensures
            r@.len() == self@.number_of_peaks,
            forall|c: int|
                0 <= c < r@.len() ==> (#[trigger] r@[c])@ == trail(places(windows@), c, self@),
    {
        let duration = self.step_duration();
        let lower = self.lower_index();
        let ghost all = places(windows@);
        let mut channels: FreqData<MilliHertz> = Vec::new();
        let mut c: usize = 0;
        while c < self.number_of_peaks as usize
            invariant
                usable(self@),
                all == places(windows@),
                trackable(all, self@),
                duration == step_duration(self@),
                duration <= 1_000_000_000 * self@.step_by,
                lower == lower_index(self@),
                0 <= c <= self@.number_of_peaks,
                channels@.len() == c,
                forall|k: int| 0 <= k < c ==> (#[trigger] channels@[k])@ == trail(all, k, self@),
            decreases self@.number_of_peaks - c,
        {
            let mut channel: FreqChannel<MilliHertz> = Vec::new();
            let mut w: usize = 0;
            proof {
                assert(all.take(0) =~= Seq::<Seq<usize>>::empty());
            }
            while w < windows.len()
                invariant
                    usable(self@),
                    all == places(windows@),
                    trackable(all, self@),
                    duration == step_duration(self@),
                    duration <= 1_000_000_000 * self@.step_by,
                    lower == lower_index(self@),
                    0 <= c < self@.number_of_peaks,
                    0 <= w <= windows@.len(),
                    channel@ == trail(all.take(w as int), c as int, self@),
                    channel@.len() > 0 ==> channel@.last().duration <= w * duration,
                decreases windows@.len() - w,
            {
                let peaks = &windows[w];
                proof {
                    assert(all.take(w + 1).drop_last() =~= all.take(w as int));
                    assert(all.take(w + 1).last() == peaks@);
                    assert((w + 1) * duration == w * duration + duration) by (nonlinear_arith);
                    assert(all.len() == windows@.len());
                    assert((w + 1) * self@.step_by <= windows@.len() * self@.step_by)
                        by (nonlinear_arith)
                        requires
                            w + 1 <= windows@.len(),
                            0 <= self@.step_by,
                    ;
                    assert((w + 1) * duration <= 1_000_000_000 * 0xFFFF_FFFF) by (nonlinear_arith)
                        requires
                            (w + 1) * self@.step_by <= 0xFFFF_FFFF,
                            0 <= duration <= 1_000_000_000 * self@.step_by,
                            0 <= w,
                    {
                        assert((w + 1) * duration <= (w + 1) * (1_000_000_000 * self@.step_by));
                        assert((w + 1) * (1_000_000_000 * self@.step_by) == 1_000_000_000 * ((w
                            + 1) * self@.step_by));
                    }
                }
                if c < peaks.len() {
                    proof {
                        assert(all[w as int][c as int] + lower <= self@.sampling_size);
                    }
                    let bin: u64 = peaks[c] as u64 + lower;
                    let freq = self.bin_frequency(bin);
                    Self::follow(&mut channel, freq, duration);
                }
                w += 1;
            }
            proof {
                assert(all.take(w as int) =~= all);
            }
            channels.push(channel);
            c += 1;
        }
        channels
    }

    /// Finds the peaks of each window's spectrum and follows them through
    /// the windows.
    pub fn extract(&self, spectra: &Vec<Vec<i64>>) -> (r: FreqData<MilliHertz>)
        requires
            usable(self@),
            spectra@.len() * self@.step_by <= 0xFFFF_FFFF,
            forall|w: int|
                0 <= w < spectra@.len() ==> (#[trigger] spectra@[w])@.len() + lower_index(self@)
                    <= self@.sampling_size,
            forall|w: int, i: int|
                0 <= w < spectra@.len() && 0 <= i < spectra@[w]@.len() ==> -0x1000_0000_0000_0000
                    <= #[trigger] spectra@[w]@[i] <= 0x1000_0000_0000_0000,
        ensures
            r@.len() == self@.number_of_peaks,
            forall|c: int|
                0 <= c < r@.len() ==> (#[trigger] r@[c])@ == trail(peaks_of(spectra@), c, self@),
    {
        let mut windows: Vec<Vec<usize>> = Vec::new();
        let mut w: usize = 0;
        while w < spectra.len()
            invariant
                0 <= w <= spectra@.len(),
                windows@.len() == w,
                forall|k: int, i: int|
                    0 <= k < spectra@.len() && 0 <= i < spectra@[k]@.len()
                        ==> -0x1000_0000_0000_0000 <= #[trigger] spectra@[k]@[i]
                        <= 0x1000_0000_0000_0000,
                forall|k: int|
                    0 <= k < w ==> (#[trigger] windows@[k])@ == peak_positions(spectra@[k]@),
                forall|k: int, i: int|
                    0 <= k < w && 0 <= i < windows@[k]@.len() ==> (#[trigger] windows@[k]@[i])
                        < spectra@[k]@.len(),
            decreases spectra@.len() - w,
        {
            let found = find_peak_positions(&spectra[w]);
            windows.push(found);
            w += 1;
        }
        proof {
            assert(places(windows@) =~= peaks_of(spectra@));
            assert forall|k: int, i: int|
                0 <= k < places(windows@).len() && 0 <= i < places(windows@)[k].len() implies (
            #[trigger] places(windows@)[k][i]) + lower_index(self@) <= self@.sampling_size by {
                assert(windows@[k]@[i] < spectra@[k]@.len());
                assert(spectra@[k]@.len() + lower_index(self@) <= self@.sampling_size);
            }
        }
        self.track(&windows)
    }
}

proof fn lemma_quotient_bound(dividend: int, divisor: int, bound: int)
    requires
        0 <= dividend <= bound,
        0 < divisor,
    ensures
        0 <= dividend / divisor <= bound,
{
    vstd::arithmetic::div_mod::lemma_div_pos_is_pos(dividend, divisor);
    vstd::arithmetic::div_mod::lemma_div_is_ordered_by_denominator(dividend, 1, divisor);
    assert(dividend / 1 == dividend);
}

} // verus!
