//! From the samples of a wave file to amplitudes.
//!
//! Of the interleaved channels only the first is kept. A sample becomes an
//! amplitude by dividing it by the largest value of its width: 127 for 8-bit
//! samples, which are first moved so that 127 becomes zero, 32 767 for
//! 16-bit and 2 147 483 647 for 32-bit samples. What falls outside the
//! range from -1 to 1 is clipped.

use vstd::prelude::*;
use crate::wave::filter::{Data, Sample, WaveData, FULL_SCALE};
use crate::wave::wav_header::{lemma_payload, payload, samples16, samples32, Wave, WaveView};

verus! {

/// The amplitude `sample / full`, in units of one `FULL_SCALE`-th, rounded
/// towards zero and clipped to the range from -1 to 1.
pub open spec fn amplitude(sample: int, full: int) -> int {
    let exact = if sample >= 0 {
        sample * 0x7FFF_FFFF / full
    } else {
        -((-sample) * 0x7FFF_FFFF / full)
    };
    if exact > 0x7FFF_FFFF {
        0x7FFF_FFFF
    } else if exact < -0x7FFF_FFFF {
        -0x7FFF_FFFF
    } else {
        exact
    }
}

/// The amplitude of an 8-bit sample.
pub open spec fn amplitude8(sample: u8) -> int {
    amplitude(sample - 127, 127)
}

/// The amplitude of a 16-bit sample.
pub open spec fn amplitude16(sample: i16) -> int {
    amplitude(sample as int, 32_767)
}

/// The amplitude of a 32-bit sample.
pub open spec fn amplitude32(sample: i32) -> int {
    amplitude(sample as int, 0x7FFF_FFFF)
}

/// How many samples the first of `channels` interleaved channels has among
/// `count` samples.
pub open spec fn first_channel_len(count: int, channels: int) -> int {
    (count + channels - 1) / channels
}

/// Is the sample width one that can be read?
pub open spec fn width_known(bits: int) -> bool {
    bits == 8 || bits == 16 || bits == 32
}

/// The amplitudes of all samples of a wave file, channels interleaved; none
/// where no samples are found or their width is not known.
pub open spec fn interleaved(bytes: Seq<u8>, bits: int) -> Seq<Sample> {
    match payload(bytes) {
        Some((at, size)) => if bits == 8 {
            Seq::new(size as nat, |i: int| amplitude8(bytes[at + i]) as Sample)
        } else if bits == 16 {
            Seq::new(
                (size / 2) as nat,
                |i: int| amplitude16(samples16(bytes, at, size / 2)[i]) as Sample,
            )
        } else if bits == 32 {
            Seq::new(
                (size / 4) as nat,
                |i: int| amplitude32(samples32(bytes, at, size / 4)[i]) as Sample,
            )
        } else {
            Seq::empty()
        },
        None => Seq::empty(),
    }
}

/// Every `channels`-th of the amplitudes, from the first on.
pub open spec fn first_channel(all: Seq<Sample>, channels: int) -> Seq<Sample> {
    Seq::new(first_channel_len(all.len() as int, channels) as nat, |i: int| all[i * channels])
}

/// Are there samples to read in the file: is there a payload, and is the
/// sample width known?
pub open spec fn readable(bytes: Seq<u8>, bits: int) -> bool {
    payload(bytes) is Some && width_known(bits)
}

/// The amplitude of `sample / full`.
pub fn scale(sample: i64, full: i64) -> (r: Sample)
    requires
        -0x8000_0000 <= sample <= 0x7FFF_FFFF,
        127 <= full <= 0x7FFF_FFFF,
    ensures
        r == amplitude(sample as int, full as int),
        -0x7FFF_FFFF <= r <= 0x7FFF_FFFF,
{
    let size: i128 = if sample >= 0 {
        sample as i128
    } else {
        -(sample as i128)
    };
    assert(0 <= size * 0x7FFF_FFFF <= 0x8000_0000 * 0x7FFF_FFFF) by (nonlinear_arith)
        requires
            0 <= size <= 0x8000_0000,
    ;
    let product: i128 = size * 0x7FFF_FFFF;
    proof {
        vstd::arithmetic::div_mod::lemma_div_pos_is_pos(product as int, full as int);
    }
    let quotient: i128 = product / full as i128;
    let clipped: i128 = if quotient > 0x7FFF_FFFF {
        0x7FFF_FFFF
    } else {
        quotient
    };
    if sample >= 0 {
        clipped as Sample
    } else {
        (-clipped) as Sample
    }
}

/// Every `channels`-th of the amplitudes, from the first on.
pub fn every_nth(all: &Vec<Sample>, channels: usize) -> (r: Vec<Sample>)
    requires
        channels > 0,
    ensures
        r@ == first_channel(all@, channels as int),
{
    let mut out: Vec<Sample> = Vec::new();
    let mut at: usize = 0;
    let length = all.len();
    proof {
        lemma_first_channel_len(length as int, channels as int, 0);
    }
    while at < length
        invariant
            channels > 0,
            length == all@.len(),
            at == length || at == out@.len() * channels,
            at < length ==> out@.len() < first_channel_len(length as int, channels as int),
            at >= length ==> out@.len() == first_channel_len(length as int, channels as int),
            forall|k: int| 0 <= k < out@.len() ==> #[trigger] out@[k] == all@[k * channels],
        decreases length - at,
    {
        out.push(all[at]);
        proof {
            assert((out@.len() - 1) * channels + channels == out@.len() * channels)
                by (nonlinear_arith);
            lemma_first_channel_len(length as int, channels as int, out@.len() as int);
        }
        if length - at <= channels {
            proof {
                lemma_first_channel_end(length as int, channels as int, out@.len() as int);
            }
            at = length;
        } else {
            at += channels;
        }
    }
    proof {
        if length == 0 {
            vstd::arithmetic::div_mod::lemma_div_pos_is_pos(
                length + channels - 1,
                channels as int,
            );
        }
        assert(out@ =~= first_channel(all@, channels as int));
    }
    out
}

impl<'a> WaveView<'a> {
    /// The amplitudes of all samples of the file, channels interleaved.
    pub fn amplitudes(&self) -> (r: Vec<Sample>)
        ensures
            r@ == interleaved(self.bytes(), self.spec_header().bits_per_sample as int),
            r@.len() <= 0xFFFF_FFFF,
    {
        proof {
            lemma_payload(self.bytes());
        }
        match self.lookup_samples() {
            Wave::Unknown => {
                let out: Vec<Sample> = Vec::new();
                proof {
                    assert(out@ =~= interleaved(
                        self.bytes(),
                        self.spec_header().bits_per_sample as int,
                    ));
                }
                out
            },
            Wave::Wave8(samples) => {
                let mut out: Vec<Sample> = Vec::new();
                let mut i: usize = 0;
                while i < samples.len()
                    invariant
                        0 <= i <= samples@.len(),
                        out@.len() == i,
                        forall|k: int|
                            0 <= k < i ==> #[trigger] out@[k] == amplitude8(samples@[k]),
                    decreases samples@.len() - i,
                {
                    out.push(scale(samples[i] as i64 - 127, 127));
                    i += 1;
                }
                proof {
                    let found = payload(self.bytes())->0;
                    lemma_payload(self.bytes());
                    assert(samples@.len() == found.1);
                    assert forall|k: int| 0 <= k < out@.len() implies out@[k] == amplitude8(
                        self.bytes()[found.0 + k],
                    ) by {
                        assert(samples@[k] == self.bytes().subrange(
                            found.0,
                            found.0 + found.1,
                        )[k]);
                    }
                    assert(out@ =~= interleaved(
                        self.bytes(),
                        self.spec_header().bits_per_sample as int,
                    ));
                }
                out
            },
            Wave::Wave16(samples) => {
                let mut out: Vec<Sample> = Vec::new();
                let mut i: usize = 0;
                while i < samples.len()
                    invariant
                        0 <= i <= samples@.len(),
                        out@.len() == i,
                        forall|k: int|
                            0 <= k < i ==> #[trigger] out@[k] == amplitude16(samples@[k]),
                    decreases samples@.len() - i,
                {
                    out.push(scale(samples[i] as i64, 32_767));
                    i += 1;
                }
                proof {
                    assert(out@ =~= interleaved(
                        self.bytes(),
                        self.spec_header().bits_per_sample as int,
                    ));
                }
                out
            },
            Wave::Wave32(samples) => {
                let mut out: Vec<Sample> = Vec::new();
                let mut i: usize = 0;
                while i < samples.len()
                    invariant
                        0 <= i <= samples@.len(),
                        out@.len() == i,
                        forall|k: int|
                            0 <= k < i ==> #[trigger] out@[k] == amplitude32(samples@[k]),
                    decreases samples@.len() - i,
                {
                    out.push(scale(samples[i] as i64, 0x7FFF_FFFF));
                    i += 1;
                }
                proof {
                    assert(out@ =~= interleaved(
                        self.bytes(),
                        self.spec_header().bits_per_sample as int,
                    ));
                }
                out
            },
        }
    }

    /// The first channel of the file as data for the filter chain. The
    /// sample rate is kept modulo 65 536.
    ///
    /// A file with samples to read but, by its header, no channel gives
    /// nothing.
    pub fn into_data(&self) -> (r: Option<Data>)
        ensures
            r is None <==> self.spec_header().num_channels == 0 && readable(
                self.bytes(),
                self.spec_header().bits_per_sample as int,
            ),
            r matches Some(data) ==> data matches Data::Amplitude(wave) && wave.sample_rate
                == self.spec_header().sample_rate % 65_536 && wave.samples@.len() <= 0xFFFF_FFFF
                && wave.samples@ == (if self.spec_header().num_channels == 0 {
                Seq::<Sample>::empty()
            } else {
                first_channel(
                    interleaved(self.bytes(), self.spec_header().bits_per_sample as int),
                    self.spec_header().num_channels as int,
                )
            }),
    {
        let header = *self.header();
        let sample_rate: u16 = (header.sample_rate % 65_536) as u16;
        let bits = header.bits_per_sample;
        let found = self.find_payload().is_some();
        let known = bits == 8 || bits == 16 || bits == 32;
        if header.num_channels == 0 {
            if found && known {
                return None;
            }
            let samples: Vec<Sample> = Vec::new();
            return Some(Data::Amplitude(WaveData { samples, sample_rate }));
        }
        let all = self.amplitudes();
        let samples = every_nth(&all, header.num_channels as usize);
        proof {
            lemma_first_channel_bound(all@.len() as int, header.num_channels as int);
        }
        Some(Data::Amplitude(WaveData { samples, sample_rate }))
    }
}

proof fn lemma_first_channel_bound(count: int, channels: int)
    requires
        channels > 0,
        0 <= count,
    ensures
        0 <= first_channel_len(count, channels) <= count,
{
    vstd::arithmetic::div_mod::lemma_div_pos_is_pos(count + channels - 1, channels);
    lemma_first_channel_len(count, channels, count);
    if count < first_channel_len(count, channels) {
        assert(count * channels >= count) by (nonlinear_arith)
            requires
                channels >= 1,
                count >= 0,
        ;
    }
}

proof fn lemma_first_channel_len(count: int, channels: int, taken: int)
    requires
        channels > 0,
        0 <= taken,
        0 <= count,
    ensures
        taken * channels < count <==> taken < first_channel_len(count, channels),
{
    let total = first_channel_len(count, channels);
    vstd::arithmetic::div_mod::lemma_fundamental_div_mod(count + channels - 1, channels);
    vstd::arithmetic::div_mod::lemma_mod_bound(count + channels - 1, channels);
    let rest = (count + channels - 1) % channels;
    assert(taken * channels < count <==> taken < total) by (nonlinear_arith)
        requires
            count + channels - 1 == channels * total + rest,
            0 <= rest < channels,
            channels > 0,
            0 <= taken,
    ;
}

proof fn lemma_first_channel_end(count: int, channels: int, taken: int)
    requires
        channels > 0,
        0 < taken,
        (taken - 1) * channels < count <= taken * channels,
    ensures
        taken == first_channel_len(count, channels),
{
    lemma_first_channel_len(count, channels, taken);
    lemma_first_channel_len(count, channels, taken - 1);
}

} // verus!
