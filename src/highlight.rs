//! Highlight recovery: the linear rescale to headroom and the hue-preserving
//! compression of values past the display white point.
use vstd::prelude::*;
use crate::fixed::{UNIT, clamp_int};
use crate::intermediate::{ImageModel, Intermediate, Pixels};

verus! {

/// The compression point the development uses (2.2 in sample units).
pub const HIGHLIGHT_COMPRESSION_POINT: u32 = 144179;

/// `(raw - black) / (white - black)` in sample units, the denominator floored
/// at 1; raw values below black give 0.
pub open spec fn rescaled(raw: int, black: int, white: int) -> int {
    let den = if white - black >= 1 { white - black } else { 1 };
    if raw <= black {
        0
    } else {
        (raw - black) * (UNIT as int) / den
    }
}

/// Maps a raw sample from `[black, white]` onto `[0, UNIT]`; values above
/// white stay above `UNIT` as headroom.
pub fn rescale_sample(raw: u16, black: u32, white: u32) -> (v: u32)
    ensures
        v as int == rescaled(raw as int, black as int, white as int),
{
    if raw as u32 <= black {
        0
    } else {
        let den: u64 = if white > black && white - black >= 1 { (white - black) as u64 } else { 1 };
        let d: u64 = (raw as u32 - black) as u64;
        proof {
            assert(d * 65536 <= 65535 * 65536) by (nonlinear_arith)
                requires
                    d <= 65535,
            ;
        }
        let num: u64 = d * 65536;
        proof {
            vstd::arithmetic::div_mod::lemma_div_is_ordered_by_denominator(num as int, 1, den as int);
            vstd::arithmetic::div_mod::lemma_div_pos_is_pos(num as int, den as int);
        }
        (num / den) as u32
    }
}

pub open spec fn max3(a: int, b: int, c: int) -> int {
    if a >= b && a >= c {
        a
    } else if b >= c {
        b
    } else {
        c
    }
}

pub open spec fn min3(a: int, b: int, c: int) -> int {
    if a <= b && a <= c {
        a
    } else if b <= c {
        b
    } else {
        c
    }
}

/// Numerator of the compression factor `clamp(1 - (max-1)/(cp-1), 0, 1)`
/// over the denominator `cp - UNIT`, for a pixel whose maximum exceeds `UNIT`.
pub open spec fn factor_num(mx: int, cp: int) -> int {
    if cp > mx {
        cp - mx
    } else {
        0
    }
}

/// One channel pulled toward the pixel minimum by the compression factor.
pub open spec fn pulled(v: int, mn: int, mx: int, cp: int) -> int {
    mn + (v - mn) * factor_num(mx, cp) / (cp - UNIT as int)
}

/// One channel after compression, rescaled so the pixel maximum is kept.
pub open spec fn compressed(v: int, mn: int, mx: int, cp: int) -> int {
    let cmax = pulled(mx, mn, mx, cp);
    if cmax > 0 {
        pulled(v, mn, mx, cp) * mx / cmax
    } else {
        mx
    }
}

/// Channel `v` of the pixel `(r, g, b)` after highlight recovery: unchanged
/// when the pixel's maximum is within `UNIT`, else compressed; then clamped
/// to `[0, UNIT]`.
pub open spec fn recovered(v: int, r: int, g: int, b: int, cp: int) -> int {
    let mx = max3(r, g, b);
    let mn = min3(r, g, b);
    if mx <= UNIT {
        clamp_int(v, 0, UNIT as int)
    } else {
        clamp_int(compressed(v, mn, mx, cp), 0, UNIT as int)
    }
}

/// A compression point is above the display white point.
pub open spec fn valid_point(cp: int) -> bool {
    cp > UNIT
}

proof fn lemma_pulled_bounds(v: int, mn: int, mx: int, cp: int)
    requires
        valid_point(cp),
        mx > UNIT,
        0 <= mn <= v <= mx,
    ensures
        mn <= pulled(v, mn, mx, cp) <= v,
        pulled(v, mn, mx, cp) <= pulled(mx, mn, mx, cp),
{
    let num = factor_num(mx, cp);
    let den = cp - UNIT as int;
    assert(num <= den);
    assert((v - mn) * num <= (v - mn) * den) by (nonlinear_arith)
        requires
            v >= mn,
            num <= den,
    ;
    assert((v - mn) * num <= (mx - mn) * num) by (nonlinear_arith)
        requires
            v <= mx,
            v >= mn,
            num >= 0,
    ;
    assert(0 <= (v - mn) * num) by (nonlinear_arith)
        requires
            v >= mn,
            num >= 0,
    ;
    vstd::arithmetic::div_mod::lemma_div_is_ordered((v - mn) * num, (v - mn) * den, den);
    vstd::arithmetic::div_mod::lemma_div_is_ordered((v - mn) * num, (mx - mn) * num, den);
    vstd::arithmetic::div_mod::lemma_div_multiples_vanish(v - mn, den);
    vstd::arithmetic::div_mod::lemma_div_pos_is_pos((v - mn) * num, den);
    assert((v - mn) * den == den * (v - mn)) by (nonlinear_arith);
}

/// `a * mx / c` stays within `mx` when `a <= c`.
proof fn lemma_rescaled_le(a: int, c: int, mx: int)
    requires
        0 <= a <= c,
        c > 0,
        mx >= 0,
    ensures
        0 <= a * mx / c <= mx,
{
    assert(a * mx <= c * mx) by (nonlinear_arith)
        requires
            a <= c,
            mx >= 0,
    ;
    assert(0 <= a * mx) by (nonlinear_arith)
        requires
            a >= 0,
            mx >= 0,
    ;
    vstd::arithmetic::div_mod::lemma_div_is_ordered(a * mx, c * mx, c);
    vstd::arithmetic::div_mod::lemma_div_multiples_vanish(mx, c);
    assert(c * mx == mx * c) by (nonlinear_arith);
    vstd::arithmetic::div_mod::lemma_div_pos_is_pos(a * mx, c);
}

fn pull(v: u32, mn: u32, mx: u32, cp: u32) -> (o: u32)
    requires
        valid_point(cp as int),
        mn <= v <= mx,
        mx > UNIT,
    ensures
        o as int == pulled(v as int, mn as int, mx as int, cp as int),
{
    let num: u64 = if cp > mx { (cp - mx) as u64 } else { 0 };
    let den: u64 = (cp - UNIT) as u64;
    let diff: u64 = (v - mn) as u64;
    proof {
        lemma_pulled_bounds(v as int, mn as int, mx as int, cp as int);
        assert(diff * num <= 0xFFFF_FFFF * 0xFFFF_FFFF) by (nonlinear_arith)
            requires
                diff <= 0xFFFF_FFFF,
                num <= 0xFFFF_FFFF,
        ;
    }
    let step = (diff * num) / den;
    (mn as u64 + step) as u32
}

fn compress_channel(v: u32, mn: u32, mx: u32, cp: u32) -> (o: u32)
    requires
        valid_point(cp as int),
        mn <= v <= mx,
        mx > UNIT,
    ensures
        o as int == compressed(v as int, mn as int, mx as int, cp as int),
{
    proof {
        lemma_pulled_bounds(v as int, mn as int, mx as int, cp as int);
        lemma_pulled_bounds(mx as int, mn as int, mx as int, cp as int);
    }
    let cmax = pull(mx, mn, mx, cp);
    if cmax > 0 {
        let pv = pull(v, mn, mx, cp);
        proof {
            lemma_rescaled_le(pv as int, cmax as int, mx as int);
            assert(pv as u64 * mx as u64 <= 0xFFFF_FFFF * 0xFFFF_FFFF) by (nonlinear_arith)
                requires
                    pv <= 0xFFFF_FFFF,
                    mx <= 0xFFFF_FFFF,
            ;
        }
        ((pv as u64 * mx as u64) / cmax as u64) as u32
    } else {
        mx
    }
}

fn clamp_unit(v: u32) -> (o: u32)
    ensures
        o as int == clamp_int(v as int, 0, UNIT as int),
{
    if v > UNIT {
        UNIT
    } else {
        v
    }
}

/// Highlight recovery of one RGB pixel with compression point `cp`.
pub fn recover_pixel(r: u32, g: u32, b: u32, cp: u32) -> (o: (u32, u32, u32))
    requires
        valid_point(cp as int),
    ensures
        o.0 as int == recovered(r as int, r as int, g as int, b as int, cp as int),
        o.1 as int == recovered(g as int, r as int, g as int, b as int, cp as int),
        o.2 as int == recovered(b as int, r as int, g as int, b as int, cp as int),
{
    let mx = if r >= g && r >= b {
        r
    } else if g >= b {
        g
    } else {
        b
    };
    let mn = if r <= g && r <= b {
        r
    } else if g <= b {
        g
    } else {
        b
    };
    if mx <= UNIT {
        (clamp_unit(r), clamp_unit(g), clamp_unit(b))
    } else {
        let cr = compress_channel(r, mn, mx, cp);
        let cg = compress_channel(g, mn, mx, cp);
        let cb = compress_channel(b, mn, mx, cp);
        (clamp_unit(cr), clamp_unit(cg), clamp_unit(cb))
    }
}

/// The buffer after highlight recovery: RGB pixels are recovered as a whole,
/// other layouts are clamped sample by sample.
pub open spec fn recovered_seq(s: Seq<u32>, n: int, cp: int) -> Seq<u32> {
    if n == 3 {
        Seq::new(
            s.len(),
            |k: int|
                recovered(
                    s[k] as int,
                    s[(k / 3) * 3] as int,
                    s[(k / 3) * 3 + 1] as int,
                    s[(k / 3) * 3 + 2] as int,
                    cp,
                ) as u32,
        )
    } else {
        Seq::new(s.len(), |k: int| clamp_int(s[k] as int, 0, UNIT as int) as u32)
    }
}

/// An image after highlight recovery.
pub open spec fn highlights_recovered(img: ImageModel, cp: int) -> ImageModel {
    ImageModel { data: recovered_seq(img.data, img.channels, cp), ..img }
}

fn recover_rgb(s: &Vec<u32>, cp: u32) -> (out: Vec<u32>)
    requires
        s@.len() % 3 == 0,
        valid_point(cp as int),
    ensures
        out@ == recovered_seq(s@, 3, cp as int),
{
    let mut out: Vec<u32> = Vec::with_capacity(s.len());
    let mut i: usize = 0;
    while i < s.len()
        invariant
            s@.len() % 3 == 0,
            valid_point(cp as int),
            i % 3 == 0,
            i <= s@.len(),
            out@.len() == i,
            forall|j: int| 0 <= j < i ==> out@[j] == recovered_seq(s@, 3, cp as int)[j],
        decreases s@.len() - i,
    {
        let (a, b, c) = recover_pixel(s[i], s[i + 1], s[i + 2], cp);
        out.push(a);
        out.push(b);
        out.push(c);
        i = i + 3;
    }
    assert(out@ =~= recovered_seq(s@, 3, cp as int));
    out
}

fn clamp_all(s: &Vec<u32>) -> (out: Vec<u32>)
    ensures
        out@ == recovered_seq(s@, 1, 0),
{
    let mut out: Vec<u32> = Vec::with_capacity(s.len());
    let mut i: usize = 0;
    while i < s.len()
        invariant
            i <= s@.len(),
            out@.len() == i,
            forall|j: int| 0 <= j < i ==> out@[j] == recovered_seq(s@, 1, 0)[j],
        decreases s@.len() - i,
    {
        out.push(clamp_unit(s[i]));
        i = i + 1;
    }
    assert(out@ =~= recovered_seq(s@, 1, 0));
    out
}

/// Brings a developed image into display range in place: three-color pixels
/// whose maximum exceeds `UNIT` are compressed toward neutral with
/// compression point `cp`, then every sample is clamped to `[0, UNIT]`.
pub fn recover_highlights(img: &mut Intermediate, cp: u32)
    requires
        old(img).wf(),
        valid_point(cp as int),
    ensures
        final(img)@ == highlights_recovered(old(img)@, cp as int),
        final(img).wf(),
{
    match img {
        Intermediate::ThreeColor(p) => {
            proof {
                assert(p.data@.len() == (p.width * p.height) * 3) by (nonlinear_arith)
                    requires
                        p.data@.len() == p.width * p.height * 3,
                ;
            }
            let out = recover_rgb(&p.data, cp);
            p.data = out;
        },
        Intermediate::Monochrome(p) => {
            let out = clamp_all(&p.data);
            p.data = out;
        },
        Intermediate::FourColor(p) => {
            let out = clamp_all(&p.data);
            p.data = out;
        },
    }
}

/// A pixel whose largest channel is within the display white point leaves
/// highlight recovery exactly as it came in.
pub proof fn lemma_recovery_identity_below_white(r: u32, g: u32, b: u32, cp: u32)
    requires
        max3(r as int, g as int, b as int) <= UNIT,
    ensures
        recovered(r as int, r as int, g as int, b as int, cp as int) == r,
        recovered(g as int, r as int, g as int, b as int, cp as int) == g,
        recovered(b as int, r as int, g as int, b as int, cp as int) == b,
{
}

/// Highlight recovery keeps the order of a pixel's channels: a channel that
/// was not above another does not end above it, so the minimum channel stays
/// the minimum and no hue difference changes sign.
pub proof fn lemma_recovery_keeps_channel_order(r: u32, g: u32, b: u32, cp: u32, v: u32, w: u32)
    requires
        valid_point(cp as int),
        v == r || v == g || v == b,
        w == r || w == g || w == b,
        v <= w,
    ensures
        recovered(v as int, r as int, g as int, b as int, cp as int) <= recovered(
            w as int,
            r as int,
            g as int,
            b as int,
            cp as int,
        ),
{
    let mx = max3(r as int, g as int, b as int);
    let mn = min3(r as int, g as int, b as int);
    if mx > UNIT {
        let num = factor_num(mx, cp as int);
        let den = cp - UNIT as int;
        assert((v - mn) * num <= (w - mn) * num) by (nonlinear_arith)
            requires
                v <= w,
                num >= 0,
        ;
        vstd::arithmetic::div_mod::lemma_div_is_ordered((v - mn) * num, (w - mn) * num, den);
        let cmax = pulled(mx, mn, mx, cp as int);
        if cmax > 0 {
            let pv = pulled(v as int, mn, mx, cp as int);
            let pw = pulled(w as int, mn, mx, cp as int);
            assert(pv * mx <= pw * mx) by (nonlinear_arith)
                requires
                    pv <= pw,
                    mx >= 0,
            ;
            vstd::arithmetic::div_mod::lemma_div_is_ordered(pv * mx, pw * mx, cmax);
        }
    }
}

} // verus!
