//! From a channel of linear light to its eight bits.

use vstd::prelude::*;
use vstd::arithmetic::div_mod::{
    lemma_basic_div, lemma_div_is_ordered_by_denominator, lemma_div_multiples_vanish_quotient,
};
use vstd::arithmetic::power2::{
    lemma2_to64, lemma_pow2_adds, lemma_pow2_pos, lemma_pow2_strictly_increases,
    lemma_pow2_unfold, pow2,
};
use crate::scalar::{
    denote, lemma_key_orders, magnitude_units, number_lt, Number, Scalar, HIDDEN_BIT, SIGN_BIT,
};
use crate::vec3::Vec3;

verus! {

/// The bit pattern of the largest channel value that is written: the
/// binary32 number nearest to 0.999, which keeps `256 * value` below 256.
pub const MAX_CHANNEL_BITS: u32 = 0x3F7F_BE77;

/// The largest channel value that is written is `0xFF_BE77 * 2^-24`, a
/// little below 0.999.
pub proof fn lemma_max_channel()
    ensures
        (Scalar { bits: MAX_CHANNEL_BITS })@ == Number::Finite((0xFF_BE77 * pow2(125)) as int),
{
    reveal(denote);
    assert(0x3F7F_BE77nat / 0x80_0000 == 126);
    assert(0x3F7F_BE77nat % 0x80_0000 == 0x7F_BE77);
}

/// A channel value clamped to `[0, 0.999]`. A NaN stays a NaN.
pub open spec fn clamp_channel(c: Scalar) -> Scalar {
    if number_lt(c@, Number::Finite(0)) {
        Scalar { bits: 0 }
    } else if number_lt((Scalar { bits: MAX_CHANNEL_BITS })@, c@) {
        Scalar { bits: MAX_CHANNEL_BITS }
    } else {
        c
    }
}

/// The eight bits of a channel value: `256` times the clamped value,
/// rounded down; zero for a NaN. A finite number is held in units of
/// `2^-149`, so `256 * value` is `256 * units / 2^149`.
pub open spec fn quantized(c: Scalar) -> int {
    match clamp_channel(c)@ {
        Number::Finite(units) => (256 * units) / (pow2(149) as int),
        _ => 0,
    }
}

/// `256` times the number with magnitude bits `m`, rounded down, read off
/// the exponent and the significand of `m`.
proof fn lemma_level(m: nat)
    requires
        m <= MAX_CHANNEL_BITS,
    ensures
        ({
            let e = m / (HIDDEN_BIT as nat);
            let f = m % (HIDDEN_BIT as nat);
            &&& e <= 126
            &&& (256 * (magnitude_units(m) as int)) / (pow2(149) as int) == (if e < 119 {
                0int
            } else {
                (HIDDEN_BIT + f) / (pow2((142 - e) as nat) as int)
            })
        }),
{
    let e = m / (HIDDEN_BIT as nat);
    let f = m % (HIDDEN_BIT as nat);
    let units = magnitude_units(m) as int;
    let big = pow2(149) as int;
    lemma2_to64();
    lemma_pow2_pos(149);
    assert(e <= 126 && f < 0x80_0000);
    if e == 0 {
        lemma_pow2_strictly_increases(31, 149);
        lemma_basic_div(256 * units, big);
    } else {
        let sig = (HIDDEN_BIT + f) as int;
        let low = pow2((e - 1) as nat) as int;
        let scale = pow2((e + 7) as nat) as int;
        lemma_pow2_pos((e - 1) as nat);
        lemma_pow2_pos((e + 7) as nat);
        lemma_pow2_adds(8, (e - 1) as nat);
        assert(256 * units == scale * sig) by (nonlinear_arith)
            requires
                units == sig * low,
                scale == 256 * low,
        ;
        if e < 119 {
            lemma_pow2_adds(24, (e + 7) as nat);
            assert(pow2((e + 31) as nat) <= pow2(149)) by {
                if e + 31 < 149 {
                    lemma_pow2_strictly_increases((e + 31) as nat, 149);
                }
            }
            assert(scale * sig < 0x100_0000 * scale) by (nonlinear_arith)
                requires
                    sig < 0x100_0000,
                    scale > 0,
            ;
            lemma_basic_div(256 * units, big);
        } else {
            let shift = (142 - e) as nat;
            let d = pow2(shift) as int;
            lemma_pow2_pos(shift);
            lemma_pow2_adds((e + 7) as nat, shift);
            assert(big == scale * d);
            lemma_div_multiples_vanish_quotient(scale, sig, d);
        }
    }
}

/// The clamped value of a channel that is not a NaN is a number between
/// zero and the largest value written, and its magnitude bits say which.
proof fn lemma_clamped(c: Scalar)
    requires
        !c.is_nan_spec(),
    ensures
        ({
            let m = (clamp_channel(c).bits % SIGN_BIT) as nat;
            &&& m <= MAX_CHANNEL_BITS
            &&& clamp_channel(c)@ == Number::Finite(magnitude_units(m) as int)
        }),
{
    reveal(denote);
    let v = clamp_channel(c);
    lemma_key_orders(v, Scalar { bits: 0 });
    lemma_key_orders(Scalar { bits: MAX_CHANNEL_BITS }, v);
}

/// No channel value is written as more than 255, nor as less than zero.
pub proof fn lemma_quantized_fits(c: Scalar)
    ensures
        0 <= quantized(c) <= 255,
{
    if !c.is_nan_spec() {
        let m = (clamp_channel(c).bits % SIGN_BIT) as nat;
        lemma_clamped(c);
        lemma_level(m);
        let e = m / (HIDDEN_BIT as nat);
        let f = m % (HIDDEN_BIT as nat);
        if e >= 119 {
            let shift = (142 - e) as nat;
            lemma2_to64();
            lemma_pow2_pos(shift);
            if 16 < shift {
                lemma_pow2_strictly_increases(16, shift);
            }
            lemma_div_is_ordered_by_denominator(
                (HIDDEN_BIT + f) as int,
                0x1_0000,
                pow2(shift) as int,
            );
        }
    }
}

/// A channel that is not a number is written as black.
pub proof fn lemma_nan_is_black(c: Scalar)
    requires
        c.is_nan_spec(),
    ensures
        quantized(c) == 0,
{
}

/// Two to the power `shift`.
fn power_of_two(shift: u32) -> (p: u32)
    requires
        shift <= 23,
    ensures
        p == pow2(shift as nat),
        p >= 1,
{
    let mut p: u32 = 1;
    let mut k: u32 = 0;
    proof {
        lemma2_to64();
    }
    while k < shift
        invariant
            k <= shift <= 23,
            p == pow2(k as nat),
            1 <= p <= 0x80_0000,
        decreases shift - k,
    {
        proof {
            lemma2_to64();
            lemma_pow2_unfold((k + 1) as nat);
            if k + 1 < 23 {
                lemma_pow2_strictly_increases((k + 1) as nat, 23);
            }
        }
        p = p * 2;
        k = k + 1;
    }
    p
}

/// The eight bits written for a channel. `c` is the channel's linear light,
/// averaged over the samples and gamma-corrected. It is clamped to
/// `[0, 0.999]`, multiplied by 256 and rounded down; a NaN gives zero.
pub fn write_color_component(c: Scalar) -> (level: u8)
    ensures
        level == quantized(c),
{
    if c.is_nan() {
        return 0;
    }
    let zero = Scalar::zero();
    let max = Scalar::from_bits(MAX_CHANNEL_BITS);
    let clamped = if c.lt(zero) {
        zero
    } else if c.gt(max) {
        max
    } else {
        c
    };
    let m: u32 = clamped.bits % SIGN_BIT;
    proof {
        lemma_clamped(c);
        lemma_level(m as nat);
        lemma_quantized_fits(c);
    }
    // 256 times the value is the significand shifted by the exponent
    let e: u32 = m / HIDDEN_BIT;
    let f: u32 = m % HIDDEN_BIT;
    if e < 119 {
        return 0;
    }
    let level: u32 = (HIDDEN_BIT + f) / power_of_two(142 - e);
    level as u8
}

/// The three bytes written for a pixel, red first.
pub fn write_color(color: &Vec3) -> (rgb: [u8; 3])
    ensures
        rgb[0] == quantized(color.x),
        rgb[1] == quantized(color.y),
        rgb[2] == quantized(color.z),
{
    [
        write_color_component(color.x),
        write_color_component(color.y),
        write_color_component(color.z),
    ]
}

/// The channel of a colour at position `k`: red, green, blue.
pub open spec fn channel(color: Vec3, k: int) -> Scalar {
    if k == 0 {
        color.x
    } else if k == 1 {
        color.y
    } else {
        color.z
    }
}

/// The bytes of an image whose pixels have the colours `colors`: three
/// bytes for each pixel in turn, red first.
pub open spec fn frame_bytes(colors: Seq<Vec3>) -> Seq<u8> {
    Seq::new(3 * colors.len(), |i: int| quantized(channel(colors[i / 3], i % 3)) as u8)
}

/// The bytes of an image, pixel by pixel. `colors` holds for each pixel its
/// linear light, averaged over the samples and gamma-corrected. Each pixel
/// is written once, from its own colour, in the place it has in `colors`.
pub fn write_frame(colors: &Vec<Vec3>) -> (bytes: Vec<u8>)
    ensures
        bytes@ == frame_bytes(colors@),
        bytes@.len() == 3 * colors@.len(),
{
    let mut bytes: Vec<u8> = Vec::new();
    let mut i: usize = 0;
    while i < colors.len()
        invariant
            i <= colors@.len(),
            bytes@.len() == 3 * i,
            forall|j: int| 0 <= j < 3 * i ==> bytes@[j] == #[trigger] frame_bytes(colors@)[j],
        decreases colors@.len() - i,
    {
        let rgb = write_color(&colors[i]);
        proof {
            lemma_quantized_fits(colors@[i as int].x);
            lemma_quantized_fits(colors@[i as int].y);
            lemma_quantized_fits(colors@[i as int].z);
        }
        bytes.push(rgb[0]);
        bytes.push(rgb[1]);
        bytes.push(rgb[2]);
        i = i + 1;
    }
    assert(bytes@ =~= frame_bytes(colors@));
    bytes
}

} // verus!
