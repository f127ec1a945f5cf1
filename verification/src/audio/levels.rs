//! Signal levels of captured audio and the silence policy.
use crate::settings::RecordingMode;
use vstd::prelude::*;

verus! {

/// Whether silence ends a recording in `mode`.
pub open spec fn stops_on_silence(mode: RecordingMode) -> bool {
    mode == RecordingMode::SilenceTimeout
}

/// Whether silence ends a recording in `mode`: only in the silence-timeout mode.
pub fn should_stop_on_silence(mode: RecordingMode) -> (r: bool)
    ensures
        r == stops_on_silence(mode),
{
    match mode {
        RecordingMode::SilenceTimeout => true,
        _ => false,
    }
}


pub open spec fn abs(v: int) -> int {
    if v < 0 {
        -v
    } else {
        v
    }
}

/// The largest absolute sample value (0 for no samples): the level on the
/// scale `0..=32768`.
pub open spec fn peak_of(samples: Seq<i16>) -> int
    decreases samples.len(),
{
    if samples.len() == 0 {
        0
    } else {
        let rest = peak_of(samples.drop_last());
        let a = abs(samples.last() as int);
        if a > rest {
            a
        } else {
            rest
        }
    }
}

/// The little-endian signed 16-bit samples of `bytes`; a trailing odd byte is ignored.
pub open spec fn le_samples(bytes: Seq<u8>) -> Seq<i16> {
    Seq::new(
        bytes.len() / 2,
        |i: int|
            {
                let v = bytes[2 * i] as int + 256 * (bytes[2 * i + 1] as int);
                (if v >= 32768 {
                    v - 65536
                } else {
                    v
                }) as i16
            },
    )
}

proof fn lemma_peak_bounds(samples: Seq<i16>)
    ensures
        0 <= peak_of(samples) <= 32768,
    decreases samples.len(),
{
    if samples.len() > 0 {
        lemma_peak_bounds(samples.drop_last());
    }
}

/// The peak level of 16-bit samples: the largest absolute value, on the
/// scale `0..=32768` (`i16::MIN` is full scale).
pub fn peak_amplitude_i16(samples: &[i16]) -> (r: u32)
    ensures
        r as int == peak_of(samples@),
        r <= 32768,
{
    let mut max: u32 = 0;
    let mut i: usize = 0;
    while i < samples.len()
        invariant
            0 <= i <= samples.len(),
            max as int == peak_of(samples@.take(i as int)),
        decreases samples.len() - i,
    {
        let v = samples[i] as i32;
        let a: u32 = if v < 0 {
            (-v) as u32
        } else {
            v as u32
        };
        proof {
            assert(samples@.take(i + 1).drop_last() =~= samples@.take(i as int));
            lemma_peak_bounds(samples@.take(i as int));
        }
        if a > max {
            max = a;
        }
        i = i + 1;
    }
    proof {
        assert(samples@.take(samples.len() as int) =~= samples@);
        lemma_peak_bounds(samples@);
    }
    max
}

/// The peak level of little-endian signed 16-bit PCM bytes; a trailing odd
/// byte is ignored.
pub fn peak_amplitude_i16_le(bytes: &[u8]) -> (r: u32)
    ensures
        r as int == peak_of(le_samples(bytes@)),
        r <= 32768,
{
    let mut samples: Vec<i16> = Vec::new();
    let n = bytes.len() / 2;
    let mut i: usize = 0;
    while i < n
        invariant
            0 <= i <= n,
            n == bytes.len() / 2,
            samples@ == le_samples(bytes@).take(i as int),
        decreases n - i,
    {
        let v: i32 = (bytes[2 * i] as i32) + 256 * (bytes[2 * i + 1] as i32);
        let s: i16 = if v >= 32768 {
            (v - 65536) as i16
        } else {
            v as i16
        };
        samples.push(s);
        proof {
            assert(samples@ =~= le_samples(bytes@).take(i + 1));
        }
        i = i + 1;
    }
    proof {
        assert(le_samples(bytes@).take(n as int) =~= le_samples(bytes@));
    }
    peak_amplitude_i16(samples.as_slice())
}


/// The sum of absolute sample values.
pub open spec fn abs_sum(samples: Seq<i16>) -> int
    decreases samples.len(),
{
    if samples.len() == 0 {
        0
    } else {
        abs_sum(samples.drop_last()) + abs(samples.last() as int)
    }
}

proof fn lemma_abs_sum_bounds(samples: Seq<i16>)
    ensures
        0 <= abs_sum(samples) <= 32768 * samples.len(),
    decreases samples.len(),
{
    if samples.len() > 0 {
        lemma_abs_sum_bounds(samples.drop_last());
    }
}

/// The sum of the absolute values of 16-bit samples; divided by the sample
/// count and by 32768 it is the mean absolute level.
pub fn absolute_sum_i16(samples: &[i16]) -> (r: u64)
    requires
        samples.len() <= 0x1_0000_0000_0000,
    ensures
        r as int == abs_sum(samples@),
{
    let mut sum: u64 = 0;
    let mut i: usize = 0;
    while i < samples.len()
        invariant
            0 <= i <= samples.len(),
            samples.len() <= 0x1_0000_0000_0000,
            sum as int == abs_sum(samples@.take(i as int)),
        decreases samples.len() - i,
    {
        let v = samples[i] as i32;
        let a: u64 = if v < 0 {
            (-v) as u64
        } else {
            v as u64
        };
        proof {
            assert(samples@.take(i + 1).drop_last() =~= samples@.take(i as int));
            lemma_abs_sum_bounds(samples@.take(i as int));
        }
        sum = sum + a;
        i = i + 1;
    }
    proof {
        assert(samples@.take(samples.len() as int) =~= samples@);
    }
    sum
}

} // verus!
