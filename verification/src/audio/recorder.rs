//! Captured-audio processing: sample-format conversion to 16-bit, mono
//! downmix, the bounded capture buffer, and WAV encoding for upload.
use crate::text::{chars_of, decimal, push_chars, push_decimal, push_str, string_from};
use vstd::prelude::*;

verus! {

/// Sample rate of uploaded audio.
pub const TARGET_SAMPLE_RATE: u32 = 16_000;

/// Channel count of uploaded audio.
pub const TARGET_CHANNELS: u16 = 1;

/// An audio input device as shown to the user.
#[derive(Clone, Debug, PartialEq, Eq)]
pub struct AudioDevice {
    pub index: usize,
    pub name: String,
    pub label: String,
}

/// The label `[index] name`.
pub open spec fn device_label(index: nat, name: Seq<char>) -> Seq<char> {
    "["@ + decimal(index) + "] "@ + name
}

impl AudioDevice {
    /// A device with its display label `[index] name`.
    pub fn new(index: usize, name: String) -> (d: Self)
        ensures
            d.index == index,
            d.name@ == name@,
            d.label@ == device_label(index as nat, name@),
    {
        let mut label = string_from("[");
        push_decimal(&mut label, index as u64);
        push_str(&mut label, "] ");
        push_str(&mut label, name.as_str());
        proof {
            assert(label@ =~= device_label(index as nat, name@));
        }
        Self { index, name, label }
    }
}

/// Capture settings of the recorder.
#[derive(Clone, Debug, PartialEq, Eq)]
pub struct RecorderConfig {
    pub device_index: Option<usize>,
    pub sample_rate: u32,
    pub max_buffer_samples: usize,
}

impl Default for RecorderConfig {
    /// The default input device at 16 kHz, buffering at most one hour of audio.
    fn default() -> (c: Self)
        ensures
            c.device_index is None,
            c.sample_rate == TARGET_SAMPLE_RATE,
            c.max_buffer_samples == TARGET_SAMPLE_RATE * 3600,
    {
        Self {
            device_index: None,
            sample_rate: TARGET_SAMPLE_RATE,
            max_buffer_samples: (TARGET_SAMPLE_RATE as usize) * 3600,
        }
    }
}

// ---------------------------------------------------------------------------
// Sample conversion
// ---------------------------------------------------------------------------

pub open spec fn pow2(n: nat) -> int
    decreases n,
{
    if n == 0 {
        1
    } else {
        2 * pow2((n - 1) as nat)
    }
}

/// `a / b` rounded to the nearest integer, halves away from zero (`b > 0`).
pub open spec fn round_div(a: int, b: int) -> int {
    if a >= 0 {
        (2 * a + b) / (2 * b)
    } else {
        -((2 * (-a) + b) / (2 * b))
    }
}

/// A signed sample of `bits` bits scaled to 16 bits: full scale maps to full
/// scale (`-2^(bits-1)` to `i16::MIN`, `2^(bits-1) - 1` to `i16::MAX`), and
/// other values are scaled by the side's full scale and rounded.
pub open spec fn scaled_to_i16(sample: int, bits: nat) -> int {
    let half = pow2((bits - 1) as nat);
    if sample <= -half {
        -32768
    } else if sample >= half - 1 {
        32767
    } else if sample < 0 {
        round_div(sample * 32768, half)
    } else {
        round_div(sample * 32767, half - 1)
    }
}

/// An unsigned sample of `bits` bits, centered on its midpoint, scaled to 16 bits.
pub open spec fn unsigned_scaled_to_i16(sample: int, bits: nat) -> int {
    scaled_to_i16(sample - pow2((bits - 1) as nat), bits)
}

proof fn lemma_pow2_values()
    ensures
        pow2(7) == 128,
        pow2(15) == 32768,
        pow2(23) == 0x80_0000,
        pow2(31) == 0x8000_0000,
{
    reveal_with_fuel(pow2, 32);
}

fn half_scale(bits: u32) -> (h: i64)
    requires
        bits == 8 || bits == 16 || bits == 24 || bits == 32,
    ensures
        h == pow2((bits - 1) as nat),
        h >= 128,
        h <= 0x8000_0000,
{
    proof {
        lemma_pow2_values();
    }
    if bits == 8 {
        128
    } else if bits == 16 {
        32768
    } else if bits == 24 {
        0x80_0000
    } else {
        0x8000_0000
    }
}

proof fn lemma_pow2_pos(n: nat)
    ensures
        pow2(n) >= 1,
    decreases n,
{
    if n > 0 {
        lemma_pow2_pos((n - 1) as nat);
    }
}

proof fn lemma_pow2_mono(a: nat, b: nat)
    requires
        a <= b,
    ensures
        pow2(a) <= pow2(b),
    decreases b,
{
    if a < b {
        lemma_pow2_mono(a, (b - 1) as nat);
        lemma_pow2_pos((b - 1) as nat);
    }
}

/// Scales a signed sample of `bits` bits (8, 16, 24 or 32) to 16 bits.
fn signed_to_i16(sample: i64, bits: u32) -> (r: i16)
    requires
        bits == 8 || bits == 16 || bits == 24 || bits == 32,
        -pow2((bits - 1) as nat) <= sample < pow2((bits - 1) as nat),
    ensures
        r as int == scaled_to_i16(sample as int, bits as nat),
{
    let half = half_scale(bits);
    if sample <= -half {
        return i16::MIN;
    }
    if sample >= half - 1 {
        return i16::MAX;
    }
    let s = sample as i128;
    if s < 0 {
        let a: i128 = -s * 32768;
        let b: i128 = half as i128;
        let q = (2 * a + b) / (2 * b);
        proof {
            assert(q <= 32768) by (nonlinear_arith)
                requires
                    a == -s * 32768,
                    -s < b,
                    b >= 1,
                    q == (2 * a + b) / (2 * b),
            ;
            assert(q >= 0) by (nonlinear_arith)
                requires
                    a >= 0,
                    b >= 1,
                    q == (2 * a + b) / (2 * b),
            ;
        }
        (-q) as i16
    } else {
        let a: i128 = s * 32767;
        let b: i128 = (half - 1) as i128;
        let q = (2 * a + b) / (2 * b);
        proof {
            assert(q <= 32767) by (nonlinear_arith)
                requires
                    a == s * 32767,
                    s < b,
                    s >= 0,
                    b >= 1,
                    q == (2 * a + b) / (2 * b),
            ;
            assert(q >= 0) by (nonlinear_arith)
                requires
                    a >= 0,
                    b >= 1,
                    q == (2 * a + b) / (2 * b),
            ;
        }
        q as i16
    }
}

/// Scales an unsigned sample of `bits` bits (8, 16 or 32) to 16 bits.
fn unsigned_to_i16(sample: u64, bits: u32) -> (r: i16)
    requires
        bits == 8 || bits == 16 || bits == 32,
        sample < 2 * pow2((bits - 1) as nat),
    ensures
        r as int == unsigned_scaled_to_i16(sample as int, bits as nat),
{
    let half = half_scale(bits);
    signed_to_i16((sample as i64) - half, bits)
}

/// A 16-bit sample, unchanged.
pub fn convert_i16_to_i16(sample: i16) -> (r: i16)
    ensures
        r == sample,
{
    sample
}

/// An 8-bit signed sample scaled to 16 bits.
pub fn convert_i8_to_i16(sample: i8) -> (r: i16)
    ensures
        r as int == scaled_to_i16(sample as int, 8),
{
    proof {
        lemma_pow2_values();
    }
    signed_to_i16(sample as i64, 8)
}

/// A 24-bit signed sample, held in the low bits of an `i32`, scaled to 16 bits.
pub fn convert_i24_to_i16(sample: i32) -> (r: i16)
    requires
        -0x80_0000 <= sample < 0x80_0000,
    ensures
        r as int == scaled_to_i16(sample as int, 24),
{
    proof {
        lemma_pow2_values();
    }
    signed_to_i16(sample as i64, 24)
}

/// A 32-bit signed sample scaled to 16 bits.
pub fn convert_i32_to_i16(sample: i32) -> (r: i16)
    ensures
        r as int == scaled_to_i16(sample as int, 32),
{
    proof {
        lemma_pow2_values();
    }
    signed_to_i16(sample as i64, 32)
}

/// An 8-bit unsigned sample (midpoint 128) scaled to 16 bits.
pub fn convert_u8_to_i16(sample: u8) -> (r: i16)
    ensures
        r as int == unsigned_scaled_to_i16(sample as int, 8),
{
    proof {
        lemma_pow2_values();
    }
    unsigned_to_i16(sample as u64, 8)
}

/// A 16-bit unsigned sample (midpoint 32768) scaled to 16 bits.
pub fn convert_u16_to_i16(sample: u16) -> (r: i16)
    ensures
        r as int == unsigned_scaled_to_i16(sample as int, 16),
{
    proof {
        lemma_pow2_values();
    }
    unsigned_to_i16(sample as u64, 16)
}

/// A 32-bit unsigned sample (midpoint 2^31) scaled to 16 bits.
pub fn convert_u32_to_i16(sample: u32) -> (r: i16)
    ensures
        r as int == unsigned_scaled_to_i16(sample as int, 32),
{
    proof {
        lemma_pow2_values();
    }
    unsigned_to_i16(sample as u64, 32)
}

// ---------------------------------------------------------------------------
// Laws of scaling
// ---------------------------------------------------------------------------

proof fn lemma_round_div_mono(x: int, y: int, b: int)
    requires
        b > 0,
        x <= y,
    ensures
        round_div(x, b) <= round_div(y, b),
        x >= 0 ==> round_div(x, b) >= 0,
        y <= 0 ==> round_div(y, b) <= 0,
{
    if x >= 0 {
        vstd::arithmetic::div_mod::lemma_div_is_ordered(2 * x + b, 2 * y + b, 2 * b);
        vstd::arithmetic::div_mod::lemma_div_is_ordered(0, 2 * x + b, 2 * b);
    } else if y < 0 {
        vstd::arithmetic::div_mod::lemma_div_is_ordered(2 * (-y) + b, 2 * (-x) + b, 2 * b);
        vstd::arithmetic::div_mod::lemma_div_is_ordered(0, 2 * (-y) + b, 2 * b);
    } else {
        vstd::arithmetic::div_mod::lemma_div_is_ordered(0, 2 * (-x) + b, 2 * b);
        vstd::arithmetic::div_mod::lemma_div_is_ordered(0, 2 * y + b, 2 * b);
    }
    assert(0int / (2 * b) == 0);
    assert(b / (2 * b) == 0) by (nonlinear_arith)
        requires
            b > 0,
    ;
}

/// The value of `scaled_to_i16` in its four ranges lies in the 16-bit range,
/// with the sign of the sample.
proof fn lemma_scaled_range(a: int, h: int)
    requires
        h >= 2,
    ensures
        -h < a < 0 ==> -32768 <= round_div(a * 32768, h) <= 0,
        0 <= a < h - 1 ==> 0 <= round_div(a * 32767, h - 1) <= 32767,
{
    if -h < a < 0 {
        lemma_round_div_mono(a * 32768, 0, h);
        let q = (2 * (-a * 32768) + h) / (2 * h);
        assert(q <= 32768) by (nonlinear_arith)
            requires
                q == (2 * (-a * 32768) + h) / (2 * h),
                -a < h,
                h >= 2,
        ;
    }
    if 0 <= a < h - 1 {
        lemma_round_div_mono(0, a * 32767, h - 1);
        let q = (2 * (a * 32767) + (h - 1)) / (2 * (h - 1));
        assert(q <= 32767) by (nonlinear_arith)
            requires
                q == (2 * (a * 32767) + (h - 1)) / (2 * (h - 1)),
                a < h - 1,
                h - 1 >= 1,
        ;
    }
}

/// Scaling a sample of `bits` bits to 16 bits keeps the order of samples and
/// their sign: it is monotone, maps 0 to 0, negative samples to values at or
/// below 0 and positive ones to values at or above 0, stays in the 16-bit
/// range, maps full scale to full scale, and leaves a 16-bit sample as it is.
pub proof fn law_scaling_is_monotone_and_keeps_sign(bits: nat, a: int, b: int)
    requires
        bits >= 2,
    ensures
        a <= b ==> scaled_to_i16(a, bits) <= scaled_to_i16(b, bits),
        scaled_to_i16(0, bits) == 0,
        a < 0 ==> scaled_to_i16(a, bits) <= 0,
        a > 0 ==> scaled_to_i16(a, bits) >= 0,
        -32768 <= scaled_to_i16(a, bits) <= 32767,
        a <= -pow2((bits - 1) as nat) ==> scaled_to_i16(a, bits) == -32768,
        a >= pow2((bits - 1) as nat) - 1 ==> scaled_to_i16(a, bits) == 32767,
        bits == 16 && -32768 <= a <= 32767 ==> scaled_to_i16(a, bits) == a,
{
    let h = pow2((bits - 1) as nat);
    lemma_pow2_mono(1, (bits - 1) as nat);
    reveal_with_fuel(pow2, 2);
    assert(h >= 2);
    lemma_scaled_range(a, h);
    lemma_scaled_range(b, h);
    lemma_scaled_range(0, h);
    assert(round_div(0, h - 1) == 0) by {
        assert((h - 1) / (2 * (h - 1)) == 0) by (nonlinear_arith)
            requires
                h - 1 >= 1,
        ;
    }
    if a <= b {
        if -h < a < 0 && -h < b < 0 {
            lemma_round_div_mono(a * 32768, b * 32768, h);
        }
        if 0 <= a < h - 1 && 0 <= b < h - 1 {
            lemma_round_div_mono(a * 32767, b * 32767, h - 1);
        }
    }
    if bits == 16 {
        lemma_pow2_values();
        if -32768 < a < 0 {
            assert((2 * (-a * 32768) + 32768int) / 65536int == -a) by (nonlinear_arith)
                requires
                    -a > 0,
            ;
        }
        if 0 <= a < 32767 {
            assert((2 * (a * 32767) + 32767int) / 65534int == a) by (nonlinear_arith)
                requires
                    a >= 0,
            ;
        }
    }
}

/// Scaling a 64-bit sample in double precision keeps its sign and the
/// 16-bit range, and maps 0 to 0 and full scale to full scale.
pub proof fn law_double_scaling_keeps_sign(a: int)
    ensures
        double_scaled_to_i16(0) == 0,
        a < 0 ==> double_scaled_to_i16(a) <= 0,
        a > 0 ==> double_scaled_to_i16(a) >= 0,
        -32768 <= double_scaled_to_i16(a) <= 32767,
        a <= -0x8000_0000_0000_0000 ==> double_scaled_to_i16(a) == -32768,
        a >= 0x7fff_ffff_ffff_ffff ==> double_scaled_to_i16(a) == 32767,
{
    lemma_nearest_double_nonneg(0);
    if a < 0 && a > -0x8000_0000_0000_0000 {
        lemma_nearest_double_nonneg(-a);
        lemma_round_div_mono(-nearest_double(-a), 0, 0x1_0000_0000_0000);
    }
    if a > 0 && a < 0x7fff_ffff_ffff_ffff {
        lemma_nearest_double_nonneg(a);
        lemma_nearest_double_nonneg(nearest_double(a) * 32767);
        lemma_round_div_mono(0, nearest_double(nearest_double(a) * 32767), 0x8000_0000_0000_0000);
    }
    assert(nearest_double(0) == 0);
    lemma_round_div_mono(0, 0, 0x8000_0000_0000_0000);
    assert(nearest_double(0int * 32767) == 0);
}

/// A rounded double of a number that is not negative is not negative, and 0
/// stays 0.
proof fn lemma_nearest_double_nonneg(x: int)
    requires
        x >= 0,
    ensures
        nearest_double(x) >= 0,
        x == 0 ==> nearest_double(x) == 0,
{
    let k = spacing_exp(x, 0, 80);
    let unit = pow2(k);
    lemma_pow2_pos(k);
    let q = x / unit;
    assert(q >= 0) by (nonlinear_arith)
        requires
            x >= 0,
            unit >= 1,
            q == x / unit,
    ;
    assert(q * unit >= 0) by (nonlinear_arith)
        requires
            q >= 0,
            unit >= 1,
    ;
    assert((q + 1) * unit >= 0) by (nonlinear_arith)
        requires
            q >= 0,
            unit >= 1,
    ;
    if x == 0 {
        assert(0int / unit == 0 && 0int % unit == 0) by (nonlinear_arith)
            requires
                unit >= 1,
        ;
        assert(q * unit == 0);
    }
}

// ---------------------------------------------------------------------------
// 64-bit samples, scaled in double precision
// ---------------------------------------------------------------------------

/// The exponent `k` of the spacing `2^k` between the doubles around `x`: the
/// smallest `k` from `from` on with `x / 2^k < 2^53`, trying at most
/// `fuel + 1` values.
pub open spec fn spacing_exp(x: int, from: nat, fuel: nat) -> nat
    decreases fuel,
{
    if fuel == 0 || x / pow2(from) < 0x20_0000_0000_0000 {
        from
    } else {
        spacing_exp(x, from + 1, (fuel - 1) as nat)
    }
}

/// `x` (with `0 <= x < 2^80`) rounded to the nearest value that a double
/// holds, that is to 53 significant bits, ties to the even significand: the
/// value that `as f64` gives.
pub open spec fn nearest_double(x: int) -> int {
    let unit = pow2(spacing_exp(x, 0, 80));
    let q = x / unit;
    let rem = x % unit;
    if 2 * rem > unit || (2 * rem == unit && q % 2 == 1) {
        (q + 1) * unit
    } else {
        q * unit
    }
}

/// `v` clamped to the 16-bit range.
pub open spec fn clamp_i16(v: int) -> int {
    if v < -32768 {
        -32768
    } else if v > 32767 {
        32767
    } else {
        v
    }
}

/// A 64-bit signed sample scaled to 16 bits as it is computed in double
/// precision: full scale maps to full scale; a negative sample is rounded to
/// a double, divided by `2^63` and multiplied by 32768; a positive one is
/// rounded to a double, divided by `2^63 - 1` taken as a double (which is
/// `2^63`) and multiplied by 32767, that product rounded to a double again;
/// the quotient is rounded half away from zero and clamped to 16 bits.
pub open spec fn double_scaled_to_i16(sample: int) -> int {
    if sample <= -0x8000_0000_0000_0000 {
        -32768
    } else if sample >= 0x7fff_ffff_ffff_ffff {
        32767
    } else if sample < 0 {
        clamp_i16(round_div(-nearest_double(-sample), 0x1_0000_0000_0000))
    } else {
        clamp_i16(round_div(nearest_double(nearest_double(sample) * 32767), 0x8000_0000_0000_0000))
    }
}

proof fn lemma_pow2_27()
    ensures
        pow2(27) == 0x800_0000,
{
    reveal_with_fuel(pow2, 28);
}

/// Rounds `x` to the nearest value a double holds.
fn round_to_double(x: u128) -> (r: u128)
    requires
        x < 0x1_0000_0000_0000_0000_0000,
    ensures
        r as int == nearest_double(x as int),
        r <= x + 0x1000_0000,
{
    let mut unit: u128 = 1;
    let ghost mut k: nat = 0;
    proof {
        reveal_with_fuel(pow2, 1);
    }
    while x / unit >= 0x20_0000_0000_0000
        invariant
            x < 0x1_0000_0000_0000_0000_0000,
            unit as int == pow2(k),
            unit >= 1,
            k <= 27,
            spacing_exp(x as int, 0, 80) == spacing_exp(x as int, k, (80 - k) as nat),
        decreases 80 - k,
    {
        proof {
            lemma_pow2_pos(k);
            assert(x >= 0x20_0000_0000_0000 * unit) by (nonlinear_arith)
                requires
                    x / unit >= 0x20_0000_0000_0000,
                    unit >= 1,
            ;
            lemma_pow2_27();
            if k >= 27 {
                lemma_pow2_mono(27, k);
            }
            assert(spacing_exp(x as int, k, (80 - k) as nat) == spacing_exp(
                x as int,
                k + 1,
                (80 - (k + 1)) as nat,
            ));
        }
        unit = unit * 2;
        proof {
            k = k + 1;
            assert(pow2(k) == 2 * pow2((k - 1) as nat));
        }
    }
    let q = x / unit;
    let rem = x % unit;
    proof {
        lemma_pow2_pos(k);
        lemma_pow2_27();
        lemma_pow2_mono(k, 27);
        vstd::arithmetic::div_mod::lemma_fundamental_div_mod(x as int, unit as int);
        assert(spacing_exp(x as int, k, (80 - k) as nat) == k);
        assert(q * unit <= x) by (nonlinear_arith)
            requires
                x == unit * q + rem,
                rem >= 0,
        ;
        assert((q + 1) * unit == q * unit + unit) by (nonlinear_arith);
    }
    if 2 * rem > unit || (2 * rem == unit && q % 2 == 1) {
        (q + 1) * unit
    } else {
        q * unit
    }
}

proof fn lemma_spacing_from(x: int, from: nat, fuel: nat)
    requires
        0 <= x < 0x1_0000_0000_0000_0000_0000,
        from + fuel == 80,
        from <= 27,
        from > 0 ==> x / pow2((from - 1) as nat) >= 0x20_0000_0000_0000,
    ensures
        from <= spacing_exp(x, from, fuel) <= 27,
        x / pow2(spacing_exp(x, from, fuel)) < 0x20_0000_0000_0000,
        spacing_exp(x, from, fuel) > 0 ==> x / pow2((spacing_exp(x, from, fuel) - 1) as nat)
            >= 0x20_0000_0000_0000,
    decreases fuel,
{
    if x / pow2(from) >= 0x20_0000_0000_0000 {
        lemma_pow2_pos(from);
        let u = pow2(from);
        assert(x >= 0x20_0000_0000_0000 * u) by (nonlinear_arith)
            requires
                x / u >= 0x20_0000_0000_0000,
                u >= 1,
        ;
        if from == 27 {
            lemma_pow2_27();
            assert(false);
        }
        lemma_spacing_from(x, from + 1, (fuel - 1) as nat);
    }
}

/// The spacing `u = 2^k` of the doubles around `x`: `x < 2^53 u`, and
/// `x >= 2^52 u` unless `u` is 1.
proof fn lemma_spacing(x: int)
    requires
        0 <= x < 0x1_0000_0000_0000_0000_0000,
    ensures
        spacing_exp(x, 0, 80) <= 27,
        pow2(spacing_exp(x, 0, 80)) >= 1,
        pow2(spacing_exp(x, 0, 80)) <= 0x800_0000,
        x < 0x20_0000_0000_0000 * pow2(spacing_exp(x, 0, 80)),
        spacing_exp(x, 0, 80) > 0 ==> x >= 0x10_0000_0000_0000 * pow2(spacing_exp(x, 0, 80)),
{
    lemma_spacing_from(x, 0, 80);
    let k = spacing_exp(x, 0, 80);
    let u = pow2(k);
    lemma_pow2_pos(k);
    lemma_pow2_mono(k, 27);
    lemma_pow2_27();
    assert(x < 0x20_0000_0000_0000 * u) by (nonlinear_arith)
        requires
            x / u < 0x20_0000_0000_0000,
            u >= 1,
            x >= 0,
    ;
    if k > 0 {
        let h = pow2((k - 1) as nat);
        assert(u == 2 * h);
        lemma_pow2_pos((k - 1) as nat);
        assert(x >= 0x20_0000_0000_0000 * h) by (nonlinear_arith)
            requires
                x / h >= 0x20_0000_0000_0000,
                h >= 1,
        ;
    }
}

/// Rounding to doubles does not move a number by more than its spacing.
proof fn lemma_nearest_double_bounds(x: int)
    requires
        0 <= x < 0x1_0000_0000_0000_0000_0000,
    ensures
        x - pow2(spacing_exp(x, 0, 80)) <= nearest_double(x) <= x + pow2(spacing_exp(x, 0, 80)),
        nearest_double(x) >= (x / pow2(spacing_exp(x, 0, 80))) * pow2(spacing_exp(x, 0, 80)),
        nearest_double(x) <= (x / pow2(spacing_exp(x, 0, 80)) + 1) * pow2(spacing_exp(x, 0, 80)),
{
    lemma_spacing(x);
    let u = pow2(spacing_exp(x, 0, 80));
    let q = x / u;
    let rem = x % u;
    vstd::arithmetic::div_mod::lemma_fundamental_div_mod(x, u);
    assert(0 <= rem < u) by (nonlinear_arith)
        requires
            u >= 1,
            rem == x % u,
    ;
    assert((q + 1) * u == q * u + u) by (nonlinear_arith);
    assert(u * q == q * u) by (nonlinear_arith);
}

/// Rounding to doubles keeps the order of numbers.
proof fn lemma_nearest_double_mono(x: int, y: int)
    requires
        0 <= x <= y < 0x1_0000_0000_0000_0000_0000,
    ensures
        nearest_double(x) <= nearest_double(y),
{
    lemma_spacing(x);
    lemma_spacing(y);
    lemma_nearest_double_bounds(x);
    lemma_nearest_double_bounds(y);
    let kx = spacing_exp(x, 0, 80);
    let ky = spacing_exp(y, 0, 80);
    let ux = pow2(kx);
    let uy = pow2(ky);
    if ky < kx {
        lemma_pow2_mono(ky + 1, kx);
        assert(pow2(ky + 1) == 2 * uy);
        assert(x >= 0x10_0000_0000_0000 * ux);
        assert(0x10_0000_0000_0000 * ux >= 0x20_0000_0000_0000 * uy) by (nonlinear_arith)
            requires
                ux >= 2 * uy,
        ;
        assert(false);
    }
    if kx < ky {
        lemma_pow2_mono(kx + 1, ky);
        assert(pow2(kx + 1) == 2 * ux);
        let qx = x / ux;
        let qy = y / uy;
        assert(qx + 1 <= 0x20_0000_0000_0000) by (nonlinear_arith)
            requires
                x < 0x20_0000_0000_0000 * ux,
                ux >= 1,
                qx == x / ux,
        ;
        assert((qx + 1) * ux <= 0x20_0000_0000_0000 * ux) by (nonlinear_arith)
            requires
                qx + 1 <= 0x20_0000_0000_0000,
                ux >= 1,
        ;
        assert(qy >= 0x10_0000_0000_0000) by (nonlinear_arith)
            requires
                y >= 0x10_0000_0000_0000 * uy,
                uy >= 1,
                qy == y / uy,
        ;
        assert(qy * uy >= 0x10_0000_0000_0000 * uy) by (nonlinear_arith)
            requires
                qy >= 0x10_0000_0000_0000,
                uy >= 1,
        ;
        assert(0x10_0000_0000_0000 * uy >= 0x20_0000_0000_0000 * ux) by (nonlinear_arith)
            requires
                uy >= 2 * ux,
        ;
    }
    if kx == ky {
        let u = ux;
        let qx = x / u;
        let qy = y / u;
        vstd::arithmetic::div_mod::lemma_div_is_ordered(x, y, u);
        vstd::arithmetic::div_mod::lemma_fundamental_div_mod(x, u);
        vstd::arithmetic::div_mod::lemma_fundamental_div_mod(y, u);
        if qx < qy {
            assert((qx + 1) * u <= qy * u) by (nonlinear_arith)
                requires
                    qx + 1 <= qy,
                    u >= 1,
            ;
        } else {
            assert(x % u <= y % u);
        }
    }
}

/// Scaling a 64-bit sample in double precision keeps the order of samples.
pub proof fn law_double_scaling_is_monotone(a: int, b: int)
    requires
        a <= b,
    ensures
        double_scaled_to_i16(a) <= double_scaled_to_i16(b),
{
    law_double_scaling_keeps_sign(a);
    law_double_scaling_keeps_sign(b);
    let lo = -0x8000_0000_0000_0000int;
    let hi = 0x7fff_ffff_ffff_ffffint;
    if lo < a && a < 0 && lo < b && b < 0 {
        lemma_nearest_double_mono(-b, -a);
        lemma_round_div_mono(-nearest_double(-a), -nearest_double(-b), 0x1_0000_0000_0000);
    }
    if 0 <= a && a < hi && 0 <= b && b < hi {
        lemma_nearest_double_mono(a, b);
        lemma_nearest_double_bounds(b);
        lemma_spacing(b);
        lemma_nearest_double_nonneg(a);
        let da = nearest_double(a);
        let db = nearest_double(b);
        assert(da * 32767 <= db * 32767);
        assert(db * 32767 < 0x1_0000_0000_0000_0000_0000);
        assert(da * 32767 >= 0);
        lemma_nearest_double_mono(da * 32767, db * 32767);
        lemma_round_div_mono(nearest_double(da * 32767), nearest_double(db * 32767), 0x8000_0000_0000_0000);
    }
}

/// A 64-bit signed sample scaled to 16 bits.
pub fn convert_i64_to_i16(sample: i64) -> (r: i16)
    ensures
        r as int == double_scaled_to_i16(sample as int),
{
    if sample == i64::MIN {
        return i16::MIN;
    }
    if sample == i64::MAX {
        return i16::MAX;
    }
    if sample < 0 {
        let magnitude: u128 = (0i128 - sample as i128) as u128;
        let d = round_to_double(magnitude);
        let q: u128 = (2 * d + 0x1_0000_0000_0000) / 0x2_0000_0000_0000;
        if q > 32768 {
            i16::MIN
        } else {
            (0i32 - q as i32) as i16
        }
    } else {
        let d = round_to_double(sample as u128);
        let e = round_to_double(d * 32767);
        let q: u128 = (2 * e + 0x8000_0000_0000_0000) / 0x1_0000_0000_0000_0000;
        if q > 32767 {
            i16::MAX
        } else {
            q as i16
        }
    }
}

/// A 64-bit unsigned sample (midpoint `2^63`) scaled to 16 bits.
pub fn convert_u64_to_i16(sample: u64) -> (r: i16)
    ensures
        r as int == double_scaled_to_i16(sample - 0x8000_0000_0000_0000),
{
    let centered: i64 = (sample as i128 - 0x8000_0000_0000_0000i128) as i64;
    convert_i64_to_i16(centered)
}

// ---------------------------------------------------------------------------
// Buffers and downmix
// ---------------------------------------------------------------------------

/// The capture buffer after appending `samples`: the most recent
/// `max_samples` samples (none at all when `max_samples` is zero).
pub open spec fn appended_limited(buffer: Seq<i16>, samples: Seq<i16>, max_samples: nat) -> Seq<i16> {
    let all = buffer + samples;
    if max_samples == 0 {
        Seq::empty()
    } else if all.len() > max_samples {
        all.skip(all.len() - max_samples)
    } else {
        all
    }
}

/// Appends `samples` to the capture buffer and drops the oldest samples
/// beyond `max_samples`.
pub fn append_limited_samples(buffer: &mut Vec<i16>, samples: &[i16], max_samples: usize)
    requires
        old(buffer).len() + samples.len() <= usize::MAX,
    ensures
        final(buffer)@ == appended_limited(old(buffer)@, samples@, max_samples as nat),
{
    if max_samples == 0 {
        buffer.clear();
        return;
    }
    let total = buffer.len() + samples.len();
    let skip = if total > max_samples {
        total - max_samples
    } else {
        0
    };
    let ghost all = old(buffer)@ + samples@;
    let mut out: Vec<i16> = Vec::new();
    let mut k: usize = skip;
    while k < total
        invariant
            skip <= k <= total,
            total == buffer.len() + samples.len(),
            all == buffer@ + samples@,
            all == old(buffer)@ + samples@,
            out@ == all.subrange(skip as int, k as int),
        decreases total - k,
    {
        let v = if k < buffer.len() {
            buffer[k]
        } else {
            samples[k - buffer.len()]
        };
        proof {
            assert(v == all[k as int]);
            assert(all.subrange(skip as int, k as int).push(v) =~= all.subrange(skip as int, k + 1));
        }
        out.push(v);
        k = k + 1;
    }
    proof {
        assert(out@ =~= appended_limited(old(buffer)@, samples@, max_samples as nat));
    }
    *buffer = out;
}

pub open spec fn sum_of(s: Seq<i16>) -> int
    decreases s.len(),
{
    if s.len() == 0 {
        0
    } else {
        sum_of(s.drop_last()) + s.last()
    }
}

/// `a / b` truncated toward zero, as Rust's integer division does (`b > 0`).
pub open spec fn trunc_div(a: int, b: int) -> int {
    if a >= 0 {
        a / b
    } else {
        -((-a) / b)
    }
}

/// The average of one frame of samples, truncated toward zero.
pub open spec fn frame_average(frame: Seq<i16>) -> int {
    trunc_div(sum_of(frame), frame.len() as int)
}

pub open spec fn frame_count(len: nat, channels: nat) -> nat {
    ((len + channels - 1) / (channels as int)) as nat
}

/// The `i`-th frame of `channels` interleaved samples (the last frame may be short).
pub open spec fn frame(data: Seq<i16>, channels: nat, i: int) -> Seq<i16> {
    let start = i * channels;
    let end = if start + channels > data.len() {
        data.len() as int
    } else {
        start + channels
    };
    data.subrange(start, end)
}

/// Interleaved samples averaged per frame into one channel.
pub open spec fn downmixed(data: Seq<i16>, channels: nat) -> Seq<i16> {
    let c = if channels == 0 {
        1
    } else {
        channels
    };
    Seq::new(frame_count(data.len(), c), |i: int| frame_average(frame(data, c, i)) as i16)
}

proof fn lemma_sum_bounds(s: Seq<i16>)
    ensures
        -32768 * s.len() <= sum_of(s) <= 32767 * s.len(),
    decreases s.len(),
{
    if s.len() > 0 {
        lemma_sum_bounds(s.drop_last());
    }
}

/// The average of `data[start..end]`, truncated toward zero.
fn average(data: &[i16], start: usize, end: usize) -> (r: i16)
    requires
        start < end <= data.len(),
        end - start <= 0x10000,
    ensures
        r as int == frame_average(data@.subrange(start as int, end as int)),
{
    let mut sum: i64 = 0;
    let mut k: usize = start;
    while k < end
        invariant
            start <= k <= end,
            end <= data.len(),
            end - start <= 0x10000,
            sum == sum_of(data@.subrange(start as int, k as int)),
        decreases end - k,
    {
        proof {
            assert(data@.subrange(start as int, k + 1).drop_last() =~= data@.subrange(
                start as int,
                k as int,
            ));
            lemma_sum_bounds(data@.subrange(start as int, k as int));
        }
        sum = sum + data[k] as i64;
        k = k + 1;
    }
    let n = (end - start) as i64;
    let ghost f = data@.subrange(start as int, end as int);
    proof {
        lemma_sum_bounds(f);
    }
    let q = if sum >= 0 {
        sum / n
    } else {
        -((-sum) / n)
    };
    proof {
        let si = sum as int;
        let ni = n as int;
        let qi = q as int;
        assert(-32768 <= qi <= 32767) by (nonlinear_arith)
            requires
                -32768 * ni <= si <= 32767 * ni,
                ni >= 1,
                qi == (if si >= 0 {
                    si / ni
                } else {
                    -((-si) / ni)
                }),
        ;
    }
    q as i16
}

/// Averages each frame of `channels` interleaved samples into one sample
/// (a channel count of zero counts as one).
pub fn downmix_to_mono(data: &[i16], channels: usize) -> (r: Vec<i16>)
    requires
        channels <= 0x10000,
        data.len() + 0x10000 <= usize::MAX,
    ensures
        r@ == downmixed(data@, channels as nat),
{
    let c: usize = if channels == 0 {
        1
    } else {
        channels
    };
    let count = (data.len() + c - 1) / c;
    let mut out: Vec<i16> = Vec::new();
    let mut i: usize = 0;
    while i < count
        invariant
            1 <= c <= 0x10000,
            c as nat == (if channels == 0 {
                1nat
            } else {
                channels as nat
            }),
            data.len() + 0x10000 <= usize::MAX,
            count == frame_count(data.len() as nat, c as nat),
            0 <= i <= count,
            out.len() == i,
            forall|j: int|
                0 <= j < i ==> #[trigger] out@[j] == frame_average(frame(data@, c as nat, j)) as i16,
        decreases count - i,
    {
        proof {
            assert(i * c < data.len()) by (nonlinear_arith)
                requires
                    i < count,
                    count == (data.len() + c - 1) / (c as int),
                    c >= 1,
            ;
        }
        let start = i * c;
        let end = if data.len() - start < c {
            data.len()
        } else {
            start + c
        };
        let avg = average(data, start, end);
        proof {
            assert(frame(data@, c as nat, i as int) == data@.subrange(start as int, end as int));
        }
        out.push(avg);
        i = i + 1;
    }
    proof {
        assert(out@ =~= downmixed(data@, channels as nat));
    }
    out
}


// ---------------------------------------------------------------------------
// WAV encoding
// ---------------------------------------------------------------------------

#[verifier::external_type_specification]
#[verifier::external_body]
pub struct ExHoundError(hound::Error);

pub open spec fn le16(v: int) -> Seq<u8> {
    seq![(v % 256) as u8, ((v / 256) % 256) as u8]
}

pub open spec fn le32(v: int) -> Seq<u8> {
    seq![
        (v % 256) as u8,
        ((v / 256) % 256) as u8,
        ((v / 65536) % 256) as u8,
        ((v / 16777216) % 256) as u8,
    ]
}

/// The little-endian bytes of 16-bit samples.
pub open spec fn pcm16_le_bytes(samples: Seq<i16>) -> Seq<u8>
    decreases samples.len(),
{
    if samples.len() == 0 {
        Seq::empty()
    } else {
        let s = samples.last() as int;
        pcm16_le_bytes(samples.drop_last()) + le16(
            if s < 0 {
                s + 65536
            } else {
                s
            },
        )
    }
}

/// A mono 16-bit PCM WAV file: the 44-byte RIFF/WAVE header with a
/// `PCMWAVEFORMAT` fmt chunk, then the samples.
pub open spec fn wav_mono_pcm16(samples: Seq<i16>, sample_rate: nat) -> Seq<u8> {
    let data_len = 2 * samples.len();
    seq![82u8, 73, 70, 70] + le32((36 + data_len) as int) + seq![87u8, 65, 86, 69] + seq![
        102u8,
        109,
        116,
        32,
    ] + le32(16) + le16(1) + le16(1) + le32(sample_rate as int) + le32((2 * sample_rate) as int) + le16(
        2,
    ) + le16(16) + seq![100u8, 97, 116, 97] + le32(data_len as int) + pcm16_le_bytes(samples)
}

/// Encodes mono 16-bit samples as a WAV file through `hound::WavWriter`
/// (`new` with a mono 16-bit integer spec, `write_sample` per sample,
/// `finalize`) writing into a `Cursor` over a `Vec<u8>`.
///
/// The contract states the bytes that hound's writer produces for this spec:
/// the header it writes for at most two channels and at most 16 bits, and the
/// samples in little-endian order. Writes to an in-memory cursor do not fail,
/// and a mono file never has an unfinished sample, so the result is `Ok`.
#[verifier::external_body]
fn hound_encode_mono_pcm16(samples: &[i16], sample_rate: u32) -> (r: Result<Vec<u8>, hound::Error>)
    requires
        sample_rate > 0,
        2 * sample_rate <= u32::MAX,
        36 + 2 * samples.len() <= u32::MAX,
    ensures
        r is Ok,
        r matches Ok(bytes) ==> bytes@ == wav_mono_pcm16(samples@, sample_rate as nat),
{
    let spec = hound::WavSpec {
        channels: TARGET_CHANNELS,
        sample_rate,
        bits_per_sample: 16,
        sample_format: hound::SampleFormat::Int,
    };
    let mut bytes = Vec::new();
    let mut writer = hound::WavWriter::new(std::io::Cursor::new(&mut bytes), spec)?;
    for sample in samples {
        writer.write_sample(*sample)?;
    }
    writer.finalize()?;
    Ok(bytes)
}

/// Why audio could not be encoded.
#[derive(Debug)]
pub enum AudioError {
    /// The WAV writer failed.
    Wav(hound::Error),
    /// The sample rate is zero or too large, or there are too many samples
    /// for a WAV file.
    UnsupportedFormat,
}

/// Whether `samples` at `sample_rate` fit a 16-bit mono WAV file.
pub open spec fn wav_encodable(sample_count: nat, sample_rate: nat) -> bool {
    sample_rate > 0 && 2 * sample_rate <= u32::MAX && 36 + 2 * sample_count <= u32::MAX
}

/// Encodes mono 16-bit samples as a WAV file at `sample_rate`.
pub fn encode_wav_mono_i16(samples: &[i16], sample_rate: u32) -> (r: Result<Vec<u8>, AudioError>)
    ensures
        wav_encodable(samples.len() as nat, sample_rate as nat) ==> r is Ok && r->Ok_0@
            == wav_mono_pcm16(samples@, sample_rate as nat),
        !wav_encodable(samples.len() as nat, sample_rate as nat) ==> r is Err && r->Err_0 is UnsupportedFormat,
{
    if sample_rate == 0 || sample_rate > u32::MAX / 2 || samples.len() > ((u32::MAX - 36) / 2) as usize {
        return Err(AudioError::UnsupportedFormat);
    }
    match hound_encode_mono_pcm16(samples, sample_rate) {
        Ok(bytes) => Ok(bytes),
        Err(e) => Err(AudioError::Wav(e)),
    }
}

/// Encodes mono 16-bit samples as a 16 kHz WAV file, the format the audio API expects.
pub fn encode_wav_mono_16khz_i16(samples: &[i16]) -> (r: Result<Vec<u8>, AudioError>)
    ensures
        wav_encodable(samples.len() as nat, TARGET_SAMPLE_RATE as nat) ==> r is Ok && r->Ok_0@
            == wav_mono_pcm16(samples@, TARGET_SAMPLE_RATE as nat),
        !wav_encodable(samples.len() as nat, TARGET_SAMPLE_RATE as nat) ==> r is Err && r->Err_0 is UnsupportedFormat,
{
    encode_wav_mono_i16(samples, TARGET_SAMPLE_RATE)
}


// ---------------------------------------------------------------------------
// Capture
// ---------------------------------------------------------------------------

/// The stream configuration chosen among the device's ranges of sample rates:
/// the first range holding the preferred rate, at that rate; else the first
/// range at its highest rate; none for a device without ranges.
pub open spec fn chosen_config(ranges: Seq<(u32, u32)>, preferred: u32) -> Option<(int, u32)>
    decreases ranges.len(),
{
    if ranges.len() == 0 {
        None
    } else {
        match chosen_in_range(ranges, preferred, 0) {
            Some(i) => Some((i, preferred)),
            None => Some((0, ranges[0].1)),
        }
    }
}

/// The first range from `k` on that holds `preferred`.
pub open spec fn chosen_in_range(ranges: Seq<(u32, u32)>, preferred: u32, k: int) -> Option<int>
    decreases ranges.len() - k,
{
    if k < 0 || k >= ranges.len() {
        None
    } else if ranges[k].0 <= preferred <= ranges[k].1 {
        Some(k)
    } else {
        chosen_in_range(ranges, preferred, k + 1)
    }
}

/// Picks the input stream configuration: the index of a supported range of
/// `(min, max)` sample rates and the rate to use in it.
pub fn choose_stream_config(ranges: &[(u32, u32)], preferred: u32) -> (r: Option<(usize, u32)>)
    ensures
        match chosen_config(ranges@, preferred) {
            Some((i, rate)) => r matches Some((j, q)) && j == i && q == rate,
            None => r is None,
        },
{
    let mut k: usize = 0;
    while k < ranges.len()
        invariant
            k <= ranges.len(),
            chosen_in_range(ranges@, preferred, 0) == chosen_in_range(ranges@, preferred, k as int),
        decreases ranges.len() - k,
    {
        let (lo, hi) = ranges[k];
        if lo <= preferred && preferred <= hi {
            return Some((k, preferred));
        }
        k = k + 1;
    }
    if ranges.len() == 0 {
        None
    } else {
        Some((0, ranges[0].1))
    }
}

proof fn lemma_frame_count_le(len: nat, c: nat)
    requires
        c >= 1,
    ensures
        frame_count(len, c) <= len,
{
    assert((len + c - 1) / (c as int) <= len) by (nonlinear_arith)
        requires
            c >= 1,
            len >= 0,
    ;
}

/// Handles one chunk of captured 16-bit audio: downmixes it to mono, appends
/// it to the capture buffer (keeping at most `max_samples`), and returns its
/// peak level.
pub fn capture_chunk(buffer: &mut Vec<i16>, data: &[i16], channels: usize, max_samples: usize) -> (level: u32)
    requires
        channels <= 0x10000,
        data.len() + 0x10000 <= usize::MAX,
        old(buffer).len() + data.len() <= usize::MAX,
    ensures
        final(buffer)@ == appended_limited(old(buffer)@, downmixed(data@, channels as nat), max_samples as nat),
        level as int == crate::audio::levels::peak_of(downmixed(data@, channels as nat)),
{
    let mono = downmix_to_mono(data, channels);
    proof {
        lemma_frame_count_le(data.len() as nat, if channels == 0 {
            1nat
        } else {
            channels as nat
        });
    }
    let level = crate::audio::levels::peak_amplitude_i16(mono.as_slice());
    append_limited_samples(buffer, mono.as_slice(), max_samples);
    level
}

/// The capture buffer size for a maximum recording time: that many seconds
/// at the target sample rate, saturating at the largest `usize`.
pub fn max_buffer_samples(max_recording_seconds: u64) -> (r: usize)
    ensures
        r as int == if max_recording_seconds * 16000 > usize::MAX {
            usize::MAX as int
        } else {
            max_recording_seconds * 16000
        },
{
    let samples: u64 = if max_recording_seconds > u64::MAX / 16000 {
        u64::MAX
    } else {
        max_recording_seconds * 16000
    };
    if samples as u128 > usize::MAX as u128 {
        usize::MAX
    } else {
        samples as usize
    }
}


/// The capture buffer keeps the most recent samples: at most `max_samples`,
/// the tail of the old buffer followed by the new samples.
pub proof fn law_append_keeps_most_recent(buffer: Seq<i16>, samples: Seq<i16>, max_samples: nat)
    ensures
        ({
            let all = buffer + samples;
            let r = appended_limited(buffer, samples, max_samples);
            &&& r.len() == if all.len() < max_samples {
                all.len()
            } else {
                max_samples
            }
            &&& forall|i: int| 0 <= i < r.len() ==> #[trigger] r[i] == all[all.len() - r.len() + i]
        }),
{
}

} // verus!
