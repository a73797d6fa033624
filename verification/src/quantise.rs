//! Samples between -1 and 1, given as the bit patterns of 32-bit floats, and their rounding to
//! 16-bit numbers.

use vstd::arithmetic::div_mod::*;
use vstd::arithmetic::power2::*;
use vstd::prelude::*;

use crate::voice_buffer::rescaled;
use crate::wav::{
    doublings, encodable, encode_wav, encoded_wav, encoded_wav_reads_back, f32_exponent,
    f32_fraction, f32_pattern, f32_pattern_fields, magnitude, parse_wav_pcm, wav_audio, ParsedWav,
    SampleSeq, WavAudio, WavError, WavSamples,
};

verus! {

// ── What a pattern denotes ───────────────────────────────────────

/// The pattern denotes no number.
pub open spec fn is_nan(pattern: u32) -> bool {
    f32_exponent(pattern) == 255 && f32_fraction(pattern) > 0
}

/// The pattern denotes a number of its own, not an infinity.
pub open spec fn is_finite(pattern: u32) -> bool {
    f32_exponent(pattern) < 255
}

pub open spec fn is_negative(pattern: u32) -> bool {
    pattern >= 0x8000_0000
}

/// The digits of a number: its magnitude is `significand / 2^places`.
pub open spec fn significand(pattern: u32) -> nat {
    if f32_exponent(pattern) == 0 {
        f32_fraction(pattern)
    } else {
        0x80_0000 + f32_fraction(pattern)
    }
}

/// How many of the binary digits of a number below one stand behind the point.
pub open spec fn places(pattern: u32) -> nat
    recommends
        f32_exponent(pattern) < 127,
{
    if f32_exponent(pattern) == 0 {
        149
    } else {
        (150 - f32_exponent(pattern)) as nat
    }
}

/// The magnitude is one or more.
pub open spec fn reaches_one(pattern: u32) -> bool {
    f32_exponent(pattern) >= 127
}

// ── Rounding ─────────────────────────────────────────────────────

/// How many binary digits `n` has beyond the 24 that a float holds.
pub open spec fn excess_bits(n: nat) -> nat
    decreases n,
{
    if n < 0x100_0000 {
        0
    } else {
        1 + excess_bits(n / 2)
    }
}

/// The nearest number of units to `n`, of two equally near ones the even one.
pub open spec fn nearest_even(n: nat, unit: nat) -> nat {
    let whole = n / unit;
    let rest = n % unit;
    if 2 * rest < unit || (2 * rest == unit && whole % 2 == 0) {
        whole
    } else {
        whole + 1
    }
}

/// `n` rounded to the 24 binary digits that a float holds.
pub open spec fn rounded(n: nat) -> nat {
    let unit = pow2(excess_bits(n));
    nearest_even(n, unit) * unit
}

/// The magnitude of a sample in 32767 steps per unit: a magnitude above one is cut to one, the
/// product is rounded as a float product is, and its fraction is dropped.
pub open spec fn step_count(pattern: u32) -> nat {
    if is_nan(pattern) {
        0
    } else if reaches_one(pattern) {
        32767
    } else {
        rounded(significand(pattern) * 32767) / pow2(places(pattern))
    }
}

/// The sample as a 16-bit number. What is no number counts as silence.
pub open spec fn quantised(pattern: u32) -> i16 {
    if is_negative(pattern) {
        (-(step_count(pattern) as int)) as i16
    } else {
        step_count(pattern) as i16
    }
}

/// The samples as 16-bit numbers.
pub open spec fn quantised_all(patterns: Seq<u32>) -> Seq<i16> {
    patterns.map_values(|p: u32| quantised(p))
}

proof fn lemma_excess_bits(n: nat, j: nat)
    requires
        n < pow2(24 + j),
    ensures
        excess_bits(n) <= j,
    decreases j,
{
    lemma2_to64();
    if n >= 0x100_0000 {
        assert(j > 0);
        lemma_pow2_unfold(24 + j);
        lemma_excess_bits(n / 2, (j - 1) as nat);
    }
}

proof fn lemma_rounded(n: nat)
    ensures
        ({
            let unit = pow2(excess_bits(n));
            &&& unit > 0
            &&& (n / unit) * unit <= n < (n / unit) * unit + unit
            &&& (n / unit) * unit <= rounded(n)
            &&& 2 * rounded(n) <= 2 * n + unit
        }),
{
    let unit = pow2(excess_bits(n));
    lemma_pow2_pos(excess_bits(n));
    let whole = n / unit;
    let rest = n % unit;
    lemma_fundamental_div_mod(n as int, unit as int);
    assert(unit * whole == whole * unit) by (nonlinear_arith);
    assert((whole + 1) * unit == whole * unit + unit) by (nonlinear_arith);
    assert(0 <= rest < unit) by {
        lemma_mod_bound(n as int, unit as int);
    }
}

/// Rounding takes away no whole part.
proof fn lemma_whole_part_stays(n: nat, k: nat)
    requires
        n < 0x80_0000_0000,
        k >= 24,
    ensures
        n / pow2(k) <= rounded(n) / pow2(k),
        2 * rounded(n) <= 2 * n + 0x8000,
{
    lemma2_to64();
    let j = excess_bits(n);
    lemma_pow2_adds(24, 15);
    lemma_excess_bits(n, 15);
    let unit = pow2(j);
    lemma_rounded(n);
    if j < 15 {
        lemma_pow2_strictly_increases(j, 15);
    }
    let d = pow2(k);
    lemma_pow2_pos(k);
    let ratio = pow2((k - j) as nat);
    lemma_pow2_adds(j, (k - j) as nat);
    assert(d == unit * ratio);
    let t = n / d;
    lemma_fundamental_div_mod(n as int, d as int);
    lemma_mod_bound(n as int, d as int);
    assert(d * t <= n);
    // `t * ratio` units fit in `n`.
    assert((t * ratio) * unit == d * t) by (nonlinear_arith)
        requires
            d == unit * ratio,
    ;
    lemma_div_is_ordered(((t * ratio) * unit) as int, n as int, unit as int);
    lemma_div_by_multiple((t * ratio) as int, unit as int);
    assert(t * ratio <= n / unit);
    assert((t * ratio) * unit <= (n / unit) * unit) by (nonlinear_arith)
        requires
            t * ratio <= n / unit,
    ;
    assert(d * t <= rounded(n));
    lemma_div_is_ordered((d * t) as int, rounded(n) as int, d as int);
    assert(t * d == d * t) by (nonlinear_arith);
    lemma_div_by_multiple(t as int, d as int);
}

proof fn lemma_small_pattern(pattern: u32)
    requires
        !reaches_one(pattern),
    ensures
        significand(pattern) < 0x100_0000,
        24 <= places(pattern) <= 149,
        significand(pattern) < pow2(places(pattern)),
        0x100_0000 <= pow2(places(pattern)),
{
    lemma2_to64();
    if places(pattern) > 24 {
        lemma_pow2_strictly_increases(24, places(pattern));
    }
}

proof fn lemma_step_count(pattern: u32)
    ensures
        step_count(pattern) <= 32767,
{
    if !is_nan(pattern) && !reaches_one(pattern) {
        lemma_small_pattern(pattern);
        let n = significand(pattern) * 32767;
        let k = places(pattern);
        lemma_whole_part_stays(n, k);
        let d = pow2(k);
        lemma_fundamental_div_mod(rounded(n) as int, d as int);
        lemma_mod_bound(rounded(n) as int, d as int);
        let q = rounded(n) / d;
        if q >= 32768 {
            assert(d * q >= d * 32768) by (nonlinear_arith)
                requires
                    q >= 32768,
                    d > 0,
            ;
            assert(false);
        }
    }
}

/// Rounds a sample to a 16-bit number.
pub fn quantise(pattern: u32) -> (r: i16)
    ensures
        r == quantised(pattern),
{
    let exponent: u32 = pattern / 0x80_0000 % 256;
    let fraction: u32 = pattern % 0x80_0000;
    proof {
        lemma_step_count(pattern);
    }
    let steps: u64 = if exponent == 255 && fraction > 0 {
        0
    } else if exponent >= 127 {
        32767
    } else {
        small_step_count(pattern, exponent, fraction)
    };
    if pattern >= 0x8000_0000 {
        (-(steps as i32)) as i16
    } else {
        steps as i16
    }
}

fn small_step_count(pattern: u32, exponent: u32, fraction: u32) -> (r: u64)
    requires
        exponent == f32_exponent(pattern),
        fraction == f32_fraction(pattern),
        !reaches_one(pattern),
    ensures
        r == step_count(pattern),
{
    let digits: u64 = if exponent == 0 {
        fraction as u64
    } else {
        0x80_0000 + fraction as u64
    };
    let shift: u32 = if exponent == 0 {
        149
    } else {
        150 - exponent
    };
    let n: u64 = digits * 32767;
    let mut rest: u64 = n;
    let mut unit: u64 = 1;
    let ghost mut dropped: nat = 0;
    proof {
        lemma2_to64();
        lemma_pow2_adds(24, 15);
        lemma_excess_bits(n as nat, 15);
    }
    while rest >= 0x100_0000
        invariant
            dropped + excess_bits(rest as nat) == excess_bits(n as nat),
            excess_bits(n as nat) <= 15,
            unit == pow2(dropped),
            unit <= 0x8000,
            rest <= n,
        decreases rest,
    {
        proof {
            lemma2_to64();
            lemma_pow2_unfold(dropped + 1);
            if dropped + 1 < 15 {
                lemma_pow2_strictly_increases(dropped + 1, 15);
            }
            dropped = dropped + 1;
        }
        rest = rest / 2;
        unit = 2 * unit;
    }
    proof {
        assert(dropped == excess_bits(n as nat));
        lemma_rounded(n as nat);
        lemma_mod_bound(n as int, unit as int);
    }
    let whole: u64 = n / unit;
    let left: u64 = n % unit;
    let units: u64 = if 2 * left < unit || (2 * left == unit && whole % 2 == 0) {
        whole
    } else {
        whole + 1
    };
    proof {
        assert(units * unit <= whole * unit + unit) by (nonlinear_arith)
            requires
                units <= whole + 1,
        ;
    }
    let total: u64 = units * unit;
    let mut r: u64 = total;
    let mut i: u32 = 0;
    while i < shift
        invariant
            i <= shift,
            r == total as nat / pow2(i as nat),
        decreases shift - i,
    {
        proof {
            lemma_pow2_pos(i as nat);
            lemma_pow2_unfold((i + 1) as nat);
            lemma_div_denominator(total as int, pow2(i as nat) as int, 2);
            assert(pow2(i as nat) * 2 == 2 * pow2(i as nat));
        }
        r = r / 2;
        i += 1;
    }
    r
}

/// Writes samples, given as the patterns of 32-bit floats, as a 16-bit WAV file.
pub fn encode_wav_from_f32(patterns: &[u32], sample_rate: u32, channels: u16) -> (r: Vec<u8>)
    requires
        encodable(quantised_all(patterns@), sample_rate, channels),
    ensures
        r@ == encoded_wav(quantised_all(patterns@), sample_rate, channels),
{
    let mut samples: Vec<i16> = Vec::new();
    let mut i: usize = 0;
    while i < patterns.len()
        invariant
            i <= patterns@.len(),
            samples@ == quantised_all(patterns@).take(i as int),
        decreases patterns@.len() - i,
    {
        samples.push(quantise(patterns[i]));
        i += 1;
    }
    proof {
        assert(samples@ =~= quantised_all(patterns@));
    }
    encode_wav(samples.as_slice(), sample_rate, channels)
}

// ── Laws ─────────────────────────────────────────────────────────

/// A 16-bit number, read as that many 32768ths, lies strictly between -1 and 1 and within one
/// 16384th of the sample that it was rounded from, cut to the range from -1 to 1. The magnitude of
/// a sample below one is `significand / 2^places`, and the distance is stated here in units of
/// `1 / (32768 * 2^places)`.
pub proof fn quantising_is_close(pattern: u32)
    requires
        is_finite(pattern),
    ensures
        -32768 < quantised(pattern) < 32768,
        is_negative(pattern) ==> quantised(pattern) <= 0,
        !is_negative(pattern) ==> quantised(pattern) >= 0,
        magnitude(quantised(pattern)) == step_count(pattern),
        reaches_one(pattern) ==> 32768 - magnitude(quantised(pattern)) <= 2,
        !reaches_one(pattern) ==> {
            let unit = pow2(places(pattern)) as int;
            let distance = magnitude(quantised(pattern)) * unit - 32768 * significand(pattern);
            -2 * unit <= distance <= 2 * unit
        },
{
    lemma_step_count(pattern);
    if !reaches_one(pattern) {
        lemma_small_pattern(pattern);
        let sig = significand(pattern);
        let n = sig * 32767;
        let k = places(pattern);
        let d = pow2(k);
        lemma_whole_part_stays(n, k);
        let q = rounded(n) / d;
        assert(q == magnitude(quantised(pattern)));
        lemma_fundamental_div_mod(rounded(n) as int, d as int);
        lemma_mod_bound(rounded(n) as int, d as int);
        lemma_fundamental_div_mod(n as int, d as int);
        lemma_mod_bound(n as int, d as int);
        let t = n / d;
        assert(d * t <= d * q) by (nonlinear_arith)
            requires
                t <= q,
        ;
        assert(q * d == d * q) by (nonlinear_arith);
    }
}

/// A file of samples reads back as their roundings, with the sample rate, the channel count and
/// the number of samples that went in.
pub proof fn float_files_read_back(patterns: Seq<u32>, sample_rate: u32, channels: u16)
    requires
        encodable(quantised_all(patterns), sample_rate, channels),
        36 + 2 * patterns.len() <= u32::MAX,
    ensures
        wav_audio(encoded_wav(quantised_all(patterns), sample_rate, channels)) == Ok::<
            WavAudio,
            WavError,
        >(
            WavAudio {
                sample_rate,
                channels,
                samples: SampleSeq::Pcm16(quantised_all(patterns)),
            },
        ),
        quantised_all(patterns).len() == patterns.len(),
        forall|i: int|
            0 <= i < patterns.len() ==> #[trigger] quantised_all(patterns)[i] == quantised(
                patterns[i],
            ),
{
    encoded_wav_reads_back(quantised_all(patterns), sample_rate, channels);
}

/// A 16-bit sample of the voice connection that is turned into a float and rounded again comes out
/// as `rescaled` has it.
pub proof fn voice_samples_are_rescaled(s: i16)
    ensures
        quantised(f32_pattern(s)) == rescaled(s),
{
    let p = f32_pattern(s);
    let m = magnitude(s);
    f32_pattern_fields(s);
    lemma2_to64();
    if s == 0 {
        assert(excess_bits(0) == 0);
        lemma_pow2_pos(149);
        assert(rounded(0) == 0);
        lemma_div_by_multiple(0, pow2(149) as int);
        assert(0int * pow2(149) == 0) by (nonlinear_arith);
    } else if m < 32768 {
        let c = doublings(m);
        let sig = significand(p);
        let k = places(p);
        assert(sig == m * pow2(c) * 256);
        assert(k == 23 + c);
        lemma_small_pattern(p);
        let n = sig * 32767;
        let d = pow2(k);
        lemma_pow2_adds(15, 8);
        lemma_pow2_adds(23, c);
        // `sig / 2^places` is `m / 32768`.
        assert(sig * 32768 == m * d) by (nonlinear_arith)
            requires
                sig == m * pow2(c) * 256,
                d == 0x80_0000 * pow2(c),
        ;
        lemma_whole_part_stays(n, k);
        let q = rounded(n) / d;
        lemma_fundamental_div_mod(rounded(n) as int, d as int);
        lemma_mod_bound(rounded(n) as int, d as int);
        lemma_fundamental_div_mod(n as int, d as int);
        lemma_mod_bound(n as int, d as int);
        let t = n / d;
        // `n` lies between `(m - 1) * d` and `m * d`, and so does its rounding.
        assert(n == m * d - sig);
        assert((m - 1) * d == m * d - d) by (nonlinear_arith);
        if t < m - 1 {
            assert(d * t <= (m - 2) * d) by (nonlinear_arith)
                requires
                    t <= m - 2,
                    d > 0,
            ;
            assert((m - 2) * d == m * d - 2 * d) by (nonlinear_arith);
            assert(false);
        }
        if q >= m {
            assert(d * q >= m * d) by (nonlinear_arith)
                requires
                    q >= m,
                    d > 0,
            ;
            assert(false);
        }
        assert(q == m - 1);
        assert(m * 32767 / 32768 == m - 1) by (nonlinear_arith)
            requires
                0 < m < 32768,
        ;
    }
}

/// The whole part of a sample in 32767 steps per unit is kept, and the next step is reached only
/// where less than half a unit of the last of 24 binary digits is missing. Both signs are rounded
/// alike, what is no number is silence, and the samples keep their places.
pub proof fn quantising_keeps_the_whole_part(pattern: u32, patterns: Seq<u32>, i: int)
    ensures
        is_nan(pattern) ==> quantised(pattern) == 0,
        !is_nan(pattern) && reaches_one(pattern) ==> quantised(pattern) == if pattern >= 0x8000_0000 {
            -32767
        } else {
            32767
        },
        pattern < 0x8000_0000 ==> quantised((pattern + 0x8000_0000) as u32) == -quantised(pattern),
        !is_nan(pattern) && !reaches_one(pattern) ==> {
            let unit = pow2(places(pattern)) as int;
            let product = 32767 * significand(pattern);
            let steps = magnitude(quantised(pattern));
            steps * unit <= product + 0x4000 && product < (steps + 1) * unit
        },
        quantised_all(patterns).len() == patterns.len(),
        0 <= i < patterns.len() ==> quantised_all(patterns)[i] == quantised(patterns[i]),
{
    lemma_step_count(pattern);
    if pattern < 0x8000_0000 {
        let mirrored = (pattern + 0x8000_0000) as u32;
        lemma_step_count(mirrored);
        assert(f32_exponent(mirrored) == f32_exponent(pattern));
        assert(f32_fraction(mirrored) == f32_fraction(pattern));
    }
    if !is_nan(pattern) && !reaches_one(pattern) {
        lemma_small_pattern(pattern);
        let n = significand(pattern) * 32767;
        let k = places(pattern);
        let d = pow2(k);
        lemma_whole_part_stays(n, k);
        let q = rounded(n) / d;
        assert(q == magnitude(quantised(pattern)));
        lemma_fundamental_div_mod(rounded(n) as int, d as int);
        lemma_mod_bound(rounded(n) as int, d as int);
        lemma_fundamental_div_mod(n as int, d as int);
        lemma_mod_bound(n as int, d as int);
        let t = n / d;
        assert(q * d == d * q) by (nonlinear_arith);
        assert((q + 1) * d == d * q + d) by (nonlinear_arith);
        assert(d * t <= d * q) by (nonlinear_arith)
            requires
                t <= q,
        ;
    }
}

/// What the fields of a pattern say: the sign is in the highest bit, then eight bits of exponent,
/// then the fraction, and a number below one is its digits over a power of two.
pub proof fn patterns_have_their_fields(sign: u32, exponent: u32, fraction: u32)
    requires
        sign <= 1,
        exponent < 256,
        fraction < 0x80_0000,
    ensures
        ({
            let pattern = (sign * 0x8000_0000 + exponent * 0x80_0000 + fraction) as u32;
            &&& is_negative(pattern) <==> sign == 1
            &&& is_finite(pattern) <==> exponent < 255
            &&& is_nan(pattern) <==> exponent == 255 && fraction > 0
            &&& reaches_one(pattern) <==> exponent >= 127
            &&& exponent == 0 ==> significand(pattern) == fraction && places(pattern) == 149
            &&& 0 < exponent < 127 ==> significand(pattern) == 0x80_0000 + fraction && places(
                pattern,
            ) == 150 - exponent
        }),
{
    let pattern = (sign * 0x8000_0000 + exponent * 0x80_0000 + fraction) as u32;
    assert(f32_exponent(pattern) == exponent);
    assert(f32_fraction(pattern) == fraction);
}

/// What the sample for a float is: zero where there is no number, the largest step of its sign from
/// one on, and below that the number of whole steps of 1/32767 in it, up to the rounding of the
/// product. The sign of the float turns that of the sample.
pub proof fn floats_become_samples(pattern: u32, mirrored: u32, r: i16, m: i16)
    requires
        call_ensures(quantise, (pattern,), r),
        call_ensures(quantise, (mirrored,), m),
        pattern < 0x8000_0000,
        mirrored == pattern + 0x8000_0000,
    ensures
        m == -r,
        r >= 0,
        is_nan(pattern) ==> r == 0,
        !is_nan(pattern) && reaches_one(pattern) ==> r == 32767,
        !is_nan(pattern) && !reaches_one(pattern) ==> {
            let unit = pow2(places(pattern)) as int;
            let product = 32767 * significand(pattern);
            r * unit <= product + 0x4000 && product < (r + 1) * unit
        },
{
    quantising_keeps_the_whole_part(pattern, seq![], 0);
    if is_finite(pattern) {
        quantising_is_close(pattern);
    }
}

/// A file made of floats has one sample for each, in its place, as that float alone would have.
pub proof fn files_of_floats_have_a_sample_each(
    patterns: &[u32],
    sample_rate: u32,
    channels: u16,
    file: Vec<u8>,
    bytes: &[u8],
    read: Result<ParsedWav, WavError>,
    i: int,
    sample: i16,
)
    requires
        0 <= i < patterns@.len(),
        encodable(quantised_all(patterns@), sample_rate, channels),
        36 + 2 * patterns@.len() <= 0xFFFF_FFFF,
        call_ensures(encode_wav_from_f32, (patterns, sample_rate, channels), file),
        bytes@ == file@,
        call_ensures(parse_wav_pcm, (bytes,), read),
        call_ensures(quantise, (patterns@[i],), sample),
    ensures
        read matches Ok(parsed) && parsed.sample_rate == sample_rate && parsed.channels == channels
            && (parsed.samples matches WavSamples::Pcm16(list) && list@.len() == patterns@.len()
            && list@[i] == sample),
{
    float_files_read_back(patterns@, sample_rate, channels);
}

} // verus!
