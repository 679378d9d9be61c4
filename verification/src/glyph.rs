//! From the brightness of a pixel to the index of its glyph.
//!
//! A palette of `n` glyphs is ordered from darkest to brightest. A pixel's
//! brightness, its strongest channel, is multiplied by the scale factor
//! `(n - 1) / 255`, and the whole part of the product, capped at `n - 1`, is
//! the index of the glyph. Both the scale factor and the product are
//! single-precision numbers: each is rounded to twenty-four significant
//! bits. Here they are kept as whole multiples of two to the power minus
//! thirty-one, which is the finest step that either of them can need.
use vstd::prelude::*;
use crate::error::AsciiError;
use crate::rounding::{
    granularity, lemma_granularity_bounds, lemma_round_is_nearest, lemma_round_keeps_small,
    lemma_round_monotonic, lemma_round_zero, round_ratio, round_to_significand,
};

verus! {

/// Two to the power thirty-one: how many steps of the fixed-point scale make
/// one.
pub const FRACTION_UNIT: u128 = 0x8000_0000;

/// The brightness of the brightest pixel.
pub const BRIGHTEST: u128 = 255;

/// A bound that no scale factor exceeds: two to the power ninety-eight.
pub const SCALE_LIMIT: u128 = 0x4_0000_0000_0000_0000_0000_0000;

/// The brightness of a colour: its strongest channel.
pub open spec fn brightness_of(r: u8, g: u8, b: u8) -> u8 {
    if r >= g && r >= b {
        r
    } else if g >= b {
        g
    } else {
        b
    }
}

/// The scale factor of a palette of `levels` glyphs, in steps of two to the
/// power minus thirty-one: `levels - 1` as a single-precision number,
/// divided by 255 and rounded again.
pub open spec fn scale_factor(levels: nat) -> nat {
    round_to_significand(
        (round_to_significand((levels - 1) as nat, 1) * FRACTION_UNIT) as nat,
        BRIGHTEST as nat,
    )
}

/// A brightness times the scale factor, rounded to single precision, in
/// steps of two to the power minus thirty-one.
pub open spec fn scaled_brightness(levels: nat, brightness: u8) -> nat {
    round_to_significand((brightness * scale_factor(levels)) as nat, 1)
}

/// The index of the glyph that a palette of `levels` glyphs gives to a
/// brightness: the whole part of the scaled brightness, capped at the last
/// index.
pub open spec fn glyph_index(levels: nat, brightness: u8) -> nat {
    let raw = scaled_brightness(levels, brightness) / (FRACTION_UNIT as nat);
    if raw < levels - 1 {
        raw
    } else {
        (levels - 1) as nat
    }
}

/// Every brightness gets a glyph of the palette.
pub proof fn lemma_index_in_range(levels: nat, brightness: u8)
    requires
        levels >= 1,
    ensures
        glyph_index(levels, brightness) < levels,
{
}

/// A brighter pixel never gets an earlier glyph.
pub proof fn lemma_index_monotonic(levels: nat, darker: u8, brighter: u8)
    requires
        levels >= 1,
        darker <= brighter,
    ensures
        glyph_index(levels, darker) <= glyph_index(levels, brighter),
{
    let s = scale_factor(levels);
    assert(darker * s <= brighter * s) by (nonlinear_arith)
        requires
            darker <= brighter,
            s >= 0,
    ;
    lemma_round_monotonic((darker * s) as nat, (brighter * s) as nat, 1);
}

/// Black gets the first glyph of every palette.
pub proof fn lemma_black_is_first(levels: nat)
    requires
        levels >= 1,
    ensures
        glyph_index(levels, 0) == 0,
{
    lemma_round_zero(1);
}

/// A palette of one glyph gives that glyph to every brightness.
pub proof fn lemma_single_glyph(brightness: u8)
    ensures
        glyph_index(1, brightness) == 0,
{
}

/// For a palette of up to 32768 glyphs the index is the whole part of the
/// exact quotient `brightness * (levels - 1) / 255`, or one less: the two
/// roundings together move the product by less than one part in 255.
pub proof fn lemma_index_near_quotient(levels: nat, brightness: u8)
    requires
        1 <= levels <= 0x8000,
    ensures
        brightness * (levels - 1) / 255 - 1 <= glyph_index(levels, brightness) <= brightness * (
            levels - 1
        ) / 255,
{
    let a = (levels - 1) as nat;
    let b = brightness as nat;
    let unit = FRACTION_UNIT as nat;
    let t = b * a;
    let s = scale_factor(levels);
    let p = scaled_brightness(levels, brightness);
    assert(t <= 255 * a && t <= 8355585) by (nonlinear_arith)
        requires
            t == b * a,
            b <= 255,
            a <= 32767,
    ;
    lemma_round_keeps_small(a);
    if a > 0 {
        // the scale factor is within half a step of its granularity of (levels - 1) / 255
        let au = (a * FRACTION_UNIT) as nat;
        let gs = granularity(au, 255);
        lemma_granularity_bounds(au, 255);
        lemma_round_is_nearest(au, 255);
        assert(255 * gs <= 256 * a);
        assert(-128 * a <= 255 * s - au <= 128 * a);
        // the product is within half a step of its granularity of brightness * scale
        let bs = (b * s) as nat;
        let gp = granularity(bs, 1);
        lemma_granularity_bounds(bs, 1);
        lemma_round_is_nearest(bs, 1);
        assert(1 * gp == gp && 1 * p == p);
        assert(-bs <= 0x100_0000 * (p - bs) <= bs);
        // both together, against the exact product
        assert(-128 * t <= 255 * bs - t * unit <= 128 * t) by (nonlinear_arith)
            requires
                -128 * a <= 255 * s - a * unit <= 128 * a,
                bs == b * s,
                t == b * a,
                b >= 0,
        ;
        assert(-(256 * t + 63) <= 255 * p - t * unit <= 256 * t + 63);
        // so the product lies within one whole of the exact quotient
        let e = t / 255;
        assert(e <= a);
        assert((e - 1) * unit < p < (e + 1) * unit);
    }
}

/// Computes the brightness of a colour as its strongest channel.
pub fn brightness(r: u8, g: u8, b: u8) -> (m: u8)
    ensures
        m == brightness_of(r, g, b),
{
    let mut m: u8 = r;
    if g > m {
        m = g;
    }
    if b > m {
        m = b;
    }
    m
}

/// The index of the glyph for a brightness, from the scale factor of the
/// palette.
fn scaled_index(levels: usize, scale: u128, brightness: u8) -> (i: usize)
    requires
        levels >= 1,
        scale == scale_factor(levels as nat),
        scale <= SCALE_LIMIT,
    ensures
        i == glyph_index(levels as nat, brightness),
        i < levels,
{
    assert(brightness * scale <= 255 * SCALE_LIMIT) by (nonlinear_arith)
        requires
            brightness <= 255,
            scale <= SCALE_LIMIT,
    ;
    let product: u128 = round_ratio(brightness as u128 * scale, 1);
    let raw: u128 = product / FRACTION_UNIT;
    let last: usize = levels - 1;
    if raw < last as u128 {
        raw as usize
    } else {
        last
    }
}

/// The mapping of one palette size. The scale factor is computed once, when
/// the mapper is made, and with it the index of every brightness; a pixel
/// then only looks its index up.
pub struct GlyphMapper {
    levels: usize,
    indices: Vec<usize>,
}

impl View for GlyphMapper {
    type V = nat;

    /// The number of glyphs of the palette that the mapper serves.
    closed spec fn view(&self) -> nat {
        self.levels as nat
    }
}

impl GlyphMapper {
    #[verifier::type_invariant]
    spec fn well_formed(&self) -> bool {
        &&& self.levels >= 1
        &&& self.indices@.len() == 256
        &&& forall|brightness: u8| #[trigger]
            self.indices@[brightness as int] == glyph_index(self.levels as nat, brightness)
    }

    /// A mapper for a palette of `levels` glyphs. A palette without glyphs
    /// has none.
    pub fn new(levels: usize) -> (made: Result<GlyphMapper, AsciiError>)
        ensures
            levels == 0 <==> made is Err,
            made matches Ok(mapper) ==> mapper@ == levels,
            made matches Err(e) ==> e == AsciiError::EmptyPalette,
    {
        if levels == 0 {
            return Err(AsciiError::EmptyPalette);
        }
        let last: u128 = (levels - 1) as u128;
        let rounded: u128 = round_ratio(last, 1);
        let scale: u128 = round_ratio(rounded * FRACTION_UNIT, BRIGHTEST);
        let mut indices: Vec<usize> = Vec::with_capacity(256);
        let mut brightness: u8 = 0;
        loop
            invariant_except_break
                indices@.len() == brightness,
            invariant
                levels >= 1,
                scale == scale_factor(levels as nat),
                scale <= SCALE_LIMIT,
                forall|b: u8|
                    b < indices@.len() ==> #[trigger] indices@[b as int] == glyph_index(
                        levels as nat,
                        b,
                    ),
            ensures
                indices@.len() == 256,
            decreases 255 - brightness,
        {
            indices.push(scaled_index(levels, scale, brightness));
            if brightness == 255 {
                break ;
            }
            brightness = brightness + 1;
        }
        Ok(GlyphMapper { levels, indices })
    }

    /// The number of glyphs of the palette.
    pub fn levels(&self) -> (n: usize)
        ensures
            n == self@,
            n >= 1,
    {
        proof {
            use_type_invariant(self);
        }
        self.levels
    }

    /// The index of the glyph for a brightness.
    pub fn index(&self, brightness: u8) -> (i: usize)
        ensures
            i == glyph_index(self@, brightness),
            i < self@,
    {
        proof {
            use_type_invariant(self);
        }
        self.indices[brightness as usize]
    }

    /// The index of the glyph for a colour, by its brightness.
    pub fn select(&self, r: u8, g: u8, b: u8) -> (i: usize)
        ensures
            i == glyph_index(self@, brightness_of(r, g, b)),
            i < self@,
    {
        self.index(brightness(r, g, b))
    }
}

} // verus!
