//! Edge-aware chroma denoising of an RGB image in a luma/chroma representation.
use vstd::prelude::*;
use crate::fixed::UNIT;
use crate::intermediate::{lemma_mul_le_mul_n, Pixels};

verus! {

/// Bound on the magnitude of luma and chroma samples.
pub open spec fn ycc_bound() -> int {
    0x1_0000_0000
}

/// Division rounding toward zero.
pub open spec fn tdiv(a: int, d: int) -> int {
    if a >= 0 {
        a / d
    } else {
        -((-a) / d)
    }
}

proof fn lemma_tdiv_bound(a: int, d: int, m: int)
    requires
        d > 0,
        -m * d <= a <= m * d,
        m >= 0,
    ensures
        -m <= tdiv(a, d) <= m,
        a >= 0 ==> tdiv(a, d) >= 0,
        a <= 0 ==> tdiv(a, d) <= 0,
{
    assert(-m * d == -(m * d)) by (nonlinear_arith);
    if a >= 0 {
        vstd::arithmetic::div_mod::lemma_div_is_ordered(a, m * d, d);
        vstd::arithmetic::div_mod::lemma_div_multiples_vanish(m, d);
        vstd::arithmetic::div_mod::lemma_div_pos_is_pos(a, d);
        assert(m * d == d * m) by (nonlinear_arith);
    } else {
        vstd::arithmetic::div_mod::lemma_div_is_ordered(-a, m * d, d);
        vstd::arithmetic::div_mod::lemma_div_multiples_vanish(m, d);
        vstd::arithmetic::div_mod::lemma_div_pos_is_pos(-a, d);
        assert(m * d == d * m) by (nonlinear_arith);
    }
}

/// `|tdiv(a, d)| * d <= |a|`.
proof fn lemma_tdiv_shrinks(a: int, d: int)
    requires
        d > 0,
    ensures
        tdiv(a, d) * tdiv(a, d) * (d * d) <= a * a,
{
    let b = if a >= 0 { a } else { -a };
    let q = b / d;
    vstd::arithmetic::div_mod::lemma_fundamental_div_mod(b, d);
    vstd::arithmetic::div_mod::lemma_div_pos_is_pos(b, d);
    vstd::arithmetic::div_mod::lemma_mod_pos_bound(b, d);
    assert(q * d <= b) by (nonlinear_arith)
        requires
            b == d * q + b % d,
            0 <= b % d,
    ;
    assert(q * q * (d * d) <= b * b) by (nonlinear_arith)
        requires
            0 <= q * d <= b,
            q >= 0,
            d > 0,
    ;
    assert(tdiv(a, d) == q || tdiv(a, d) == -q);
    assert(tdiv(a, d) * tdiv(a, d) == q * q) by (nonlinear_arith)
        requires
            tdiv(a, d) == q || tdiv(a, d) == -q,
    ;
    assert(a * a == b * b) by (nonlinear_arith)
        requires
            b == a || b == -a,
    ;
}

fn tdiv_exec(a: i128, d: i128) -> (r: i128)
    requires
        d > 0,
        -0x1_0000_0000_0000_0000_0000 <= a <= 0x1_0000_0000_0000_0000_0000,
    ensures
        r == tdiv(a as int, d as int),
{
    if a >= 0 {
        ((a as u128) / (d as u128)) as i128
    } else {
        -(((-a) as u128 / (d as u128)) as i128)
    }
}

/// Luma and chroma of an RGB pixel (broadcast weights 0.299/0.587/0.114).
pub open spec fn luma(r: int, g: int, b: int) -> int {
    (299 * r + 587 * g + 114 * b) / 1000
}

pub open spec fn chroma_b(r: int, g: int, b: int) -> int {
    tdiv(-168736 * r - 331264 * g + 500000 * b, 1_000_000)
}

pub open spec fn chroma_r(r: int, g: int, b: int) -> int {
    tdiv(500000 * r - 418688 * g - 81312 * b, 1_000_000)
}

/// Component `c` (luma, blue chroma, red chroma) of an RGB pixel.
pub open spec fn ycc_component(r: int, g: int, b: int, c: int) -> int {
    if c == 0 {
        luma(r, g, b)
    } else if c == 1 {
        chroma_b(r, g, b)
    } else {
        chroma_r(r, g, b)
    }
}

/// An image in luma/chroma form: three signed samples per pixel.
#[derive(Clone, Debug)]
pub struct YccImage {
    pub width: usize,
    pub height: usize,
    pub data: Vec<i64>,
}

impl YccImage {
    /// Three samples per pixel, each within [`ycc_bound`].
    pub open spec fn wf(&self) -> bool {
        &&& self.data@.len() == self.width * self.height * 3
        &&& forall|k: int| 0 <= k < self.data@.len() ==> -ycc_bound() <= #[trigger] self.data@[k] <= ycc_bound()
    }
}

fn ycc_pixel(r: u32, g: u32, b: u32) -> (o: (i64, i64, i64))
    ensures
        o.0 as int == luma(r as int, g as int, b as int),
        o.1 as int == chroma_b(r as int, g as int, b as int),
        o.2 as int == chroma_r(r as int, g as int, b as int),
        -ycc_bound() <= o.0 <= ycc_bound(),
        -ycc_bound() <= o.1 <= ycc_bound(),
        -ycc_bound() <= o.2 <= ycc_bound(),
{
    let ri = r as i128;
    let gi = g as i128;
    let bi = b as i128;
    let ny = 299 * ri + 587 * gi + 114 * bi;
    let nb = 500000 * bi - 168736 * ri - 331264 * gi;
    let nr = 500000 * ri - 418688 * gi - 81312 * bi;
    proof {
        lemma_tdiv_bound(ny as int, 1000, ycc_bound());
        lemma_tdiv_bound(nb as int, 1_000_000, ycc_bound());
        lemma_tdiv_bound(nr as int, 1_000_000, ycc_bound());
    }
    let y = tdiv_exec(ny, 1000);
    let cb = tdiv_exec(nb, 1_000_000);
    let cr = tdiv_exec(nr, 1_000_000);
    (y as i64, cb as i64, cr as i64)
}

/// The luma/chroma samples of an RGB buffer.
pub open spec fn ycc_seq(s: Seq<u32>) -> Seq<i64> {
    Seq::new(
        s.len(),
        |k: int|
            ycc_component(
                s[(k / 3) * 3] as int,
                s[(k / 3) * 3 + 1] as int,
                s[(k / 3) * 3 + 2] as int,
                k % 3,
            ) as i64,
    )
}

/// Converts an RGB buffer to luma/chroma.
pub fn rgb_to_ycc(img: &Pixels) -> (out: YccImage)
    requires
        img.wf(3),
    ensures
        out.width == img.width,
        out.height == img.height,
        out.data@ == ycc_seq(img.data@),
        out.wf(),
{
    let len = img.data.len();
    let mut data: Vec<i64> = Vec::with_capacity(len);
    let mut i: usize = 0;
    proof {
        assert(len == (img.width * img.height) * 3) by (nonlinear_arith)
            requires
                len == img.width * img.height * 3,
        ;
    }
    while i < len
        invariant
            len == img.data@.len(),
            len % 3 == 0,
            i % 3 == 0,
            i <= len,
            data@.len() == i,
            forall|j: int| 0 <= j < i ==> data@[j] == ycc_seq(img.data@)[j],
            forall|j: int| 0 <= j < i ==> -ycc_bound() <= #[trigger] data@[j] <= ycc_bound(),
        decreases len - i,
    {
        let (y, cb, cr) = ycc_pixel(img.data[i], img.data[i + 1], img.data[i + 2]);
        data.push(y);
        data.push(cb);
        data.push(cr);
        i = i + 3;
    }
    assert(data@ =~= ycc_seq(img.data@));
    YccImage { width: img.width, height: img.height, data }
}

/// A computed value clamped into the sample range.
pub open spec fn to_u32(v: int) -> int {
    if v < 0 {
        0
    } else if v > 0xFFFF_FFFF {
        0xFFFF_FFFF
    } else {
        v
    }
}

/// Channel `c` of the RGB pixel with luma `y` and chroma `cb`, `cr`.
pub open spec fn rgb_component(y: int, cb: int, cr: int, c: int) -> int {
    if c == 0 {
        to_u32(y + tdiv(1402 * cr, 1000))
    } else if c == 1 {
        to_u32(y - tdiv(344136 * cb + 714136 * cr, 1_000_000))
    } else {
        to_u32(y + tdiv(1772 * cb, 1000))
    }
}

/// The RGB samples of a luma/chroma buffer.
pub open spec fn rgb_seq(s: Seq<i64>) -> Seq<u32> {
    Seq::new(
        s.len(),
        |k: int|
            rgb_component(
                s[(k / 3) * 3] as int,
                s[(k / 3) * 3 + 1] as int,
                s[(k / 3) * 3 + 2] as int,
                k % 3,
            ) as u32,
    )
}

fn rgb_pixel(y: i64, cb: i64, cr: i64) -> (o: (u32, u32, u32))
    requires
        -ycc_bound() <= y <= ycc_bound(),
        -ycc_bound() <= cb <= ycc_bound(),
        -ycc_bound() <= cr <= ycc_bound(),
    ensures
        o.0 as int == rgb_component(y as int, cb as int, cr as int, 0),
        o.1 as int == rgb_component(y as int, cb as int, cr as int, 1),
        o.2 as int == rgb_component(y as int, cb as int, cr as int, 2),
{
    let y = y as i128;
    let cb = cb as i128;
    let cr = cr as i128;
    let r = clamp_sample(y + tdiv_exec(1402 * cr, 1000));
    let g = clamp_sample(y - tdiv_exec(344136 * cb + 714136 * cr, 1_000_000));
    let b = clamp_sample(y + tdiv_exec(1772 * cb, 1000));
    (r, g, b)
}

fn clamp_sample(v: i128) -> (o: u32)
    ensures
        o as int == to_u32(v as int),
{
    if v < 0 {
        0
    } else if v > 0xFFFF_FFFF {
        0xFFFF_FFFF
    } else {
        v as u32
    }
}

/// Converts a luma/chroma buffer back to RGB; negative results become 0.
pub fn ycc_to_rgb(img: &YccImage) -> (out: Pixels)
    requires
        img.wf(),
    ensures
        out.width == img.width,
        out.height == img.height,
        out.data@ == rgb_seq(img.data@),
        out.wf(3),
{
    let len = img.data.len();
    let mut data: Vec<u32> = Vec::with_capacity(len);
    let mut i: usize = 0;
    proof {
        assert(len == (img.width * img.height) * 3) by (nonlinear_arith)
            requires
                len == img.width * img.height * 3,
        ;
    }
    while i < len
        invariant
            img.wf(),
            len == img.data@.len(),
            len % 3 == 0,
            i % 3 == 0,
            i <= len,
            data@.len() == i,
            forall|j: int| 0 <= j < i ==> data@[j] == rgb_seq(img.data@)[j],
        decreases len - i,
    {
        assert(-ycc_bound() <= img.data@[i as int] <= ycc_bound());
        assert(-ycc_bound() <= img.data@[i as int + 1] <= ycc_bound());
        assert(-ycc_bound() <= img.data@[i as int + 2] <= ycc_bound());
        let (r, g, b) = rgb_pixel(img.data[i], img.data[i + 1], img.data[i + 2]);
        data.push(r);
        data.push(g);
        data.push(b);
        i = i + 3;
    }
    assert(data@ =~= rgb_seq(img.data@));
    Pixels { width: img.width, height: img.height, data }
}

/// The sparse neighbor offsets sampled in each axis.
pub open spec fn offset(i: int) -> int {
    if i == 0 {
        -5
    } else if i == 1 {
        -1
    } else {
        3
    }
}

/// `UNIT * UNIT`: the square of the sample scale.
pub open spec fn unit_sq() -> int {
    0x1_0000_0000
}

/// Numerator of a neighbor weight; a weight of 1.0 is `2^16`.
pub open spec fn weight_num() -> int {
    50int * 0x1_0000_0000int * 0x1_0000int
}

/// Weight of neighbor `t` (of 9) whose luma differs by `dy`:
/// `1 / (1 + (14 * dy)^2 + 0.02 * (kx^2 + ky^2))` in sample units, scaled by `2^16`.
pub open spec fn weight(dy: int, t: int) -> int {
    let sq = offset(t / 3) * offset(t / 3) + offset(t % 3) * offset(t % 3);
    weight_num() / (50 * unit_sq() + 9800 * dy * dy + sq * unit_sq())
}

/// Neighbor `t` of pixel `(x, y)` lies in the image.
pub open spec fn nb_ok(w: int, h: int, x: int, y: int, t: int) -> bool {
    0 <= y + offset(t / 3) < h && 0 <= x + offset(t % 3) < w
}

/// Index of the luma sample of neighbor `t` of pixel `(x, y)`.
pub open spec fn nb_base(w: int, x: int, y: int, t: int) -> int {
    ((y + offset(t / 3)) * w + x + offset(t % 3)) * 3
}

pub open spec fn nb_weight(d: Seq<i64>, w: int, h: int, x: int, y: int, t: int) -> int {
    if nb_ok(w, h, x, y, t) {
        weight(d[(y * w + x) * 3] - d[nb_base(w, x, y, t)], t)
    } else {
        0
    }
}

/// Sum of the weights of the first `t` neighbors.
pub open spec fn w_sum(d: Seq<i64>, w: int, h: int, x: int, y: int, t: int) -> int
    decreases t,
{
    if t <= 0 {
        0
    } else {
        w_sum(d, w, h, x, y, t - 1) + nb_weight(d, w, h, x, y, t - 1)
    }
}

/// Weighted sum of chroma channel `c` over the first `t` neighbors.
pub open spec fn c_sum(d: Seq<i64>, w: int, h: int, x: int, y: int, t: int, c: int) -> int
    decreases t,
{
    if t <= 0 {
        0
    } else {
        c_sum(d, w, h, x, y, t - 1, c) + if nb_ok(w, h, x, y, t - 1) {
            d[nb_base(w, x, y, t - 1) + c] * nb_weight(d, w, h, x, y, t - 1)
        } else {
            0
        }
    }
}

/// The integer square root of `n`, rounded down.
pub open spec fn is_floor_sqrt(n: int, r: int) -> bool {
    0 <= r && r * r <= n < (r + 1) * (r + 1)
}

pub open spec fn floor_sqrt(n: int) -> int {
    choose|r: int| is_floor_sqrt(n, r)
}

/// The integer square root of `n`, rounded up.
pub open spec fn ceil_sqrt(n: int) -> int {
    if floor_sqrt(n) * floor_sqrt(n) == n {
        floor_sqrt(n)
    } else {
        floor_sqrt(n) + 1
    }
}

/// The filtered chroma of pixel `(x, y)`: the weighted mean of its
/// neighbors' chroma, scaled down to the original magnitude where it would
/// exceed it; the original chroma where no neighbor lies in the image.
pub open spec fn filtered(d: Seq<i64>, w: int, h: int, x: int, y: int) -> (int, int) {
    let ws = w_sum(d, w, h, x, y, 9);
    let c1 = d[(y * w + x) * 3 + 1] as int;
    let c2 = d[(y * w + x) * 3 + 2] as int;
    if ws > 0 {
        let f1 = tdiv(c_sum(d, w, h, x, y, 9, 1), ws);
        let f2 = tdiv(c_sum(d, w, h, x, y, 9, 2), ws);
        let o2 = c1 * c1 + c2 * c2;
        let q2 = f1 * f1 + f2 * f2;
        if q2 > o2 {
            let a = floor_sqrt(o2);
            let b = ceil_sqrt(q2);
            (tdiv(f1 * a, b), tdiv(f2 * a, b))
        } else {
            (f1, f2)
        }
    } else {
        (c1, c2)
    }
}

/// The denoised luma/chroma samples: luma kept, chroma filtered.
pub open spec fn denoised_seq(d: Seq<i64>, w: int, h: int) -> Seq<i64> {
    Seq::new(
        d.len(),
        |k: int|
            if k % 3 == 0 {
                d[k]
            } else {
                let p = k / 3;
                let f = filtered(d, w, h, p % w, p / w);
                if k % 3 == 1 {
                    f.0 as i64
                } else {
                    f.1 as i64
                }
            },
    )
}

proof fn lemma_floor_sqrt_unique(n: int, r: int)
    requires
        is_floor_sqrt(n, r),
    ensures
        floor_sqrt(n) == r,
{
    let r2 = floor_sqrt(n);
    assert(is_floor_sqrt(n, r2));
    if r2 < r {
        assert((r2 + 1) * (r2 + 1) <= r * r) by (nonlinear_arith)
            requires
                0 <= r2 + 1 <= r,
        ;
    } else if r2 > r {
        assert((r + 1) * (r + 1) <= r2 * r2) by (nonlinear_arith)
            requires
                0 <= r + 1 <= r2,
        ;
    }
}

/// The integer square root of `n`, rounded down.
fn isqrt(n: u128) -> (r: u128)
    requires
        n < 0x10_0000_0000_0000_0000,
    ensures
        is_floor_sqrt(n as int, r as int),
        r <= 0x4_0000_0000,
{
    let mut lo: u128 = 0;
    let mut hi: u128 = 0x4_0000_0000;
    assert(hi * hi == 0x10_0000_0000_0000_0000);
    while hi - lo > 1
        invariant
            lo < hi <= 0x4_0000_0000,
            lo * lo <= n < hi * hi,
        decreases hi - lo,
    {
        let mid = lo + (hi - lo) / 2;
        proof {
            assert(mid * mid <= 0x4_0000_0000 * 0x4_0000_0000) by (nonlinear_arith)
                requires
                    mid <= 0x4_0000_0000,
            ;
        }
        if mid * mid <= n {
            lo = mid;
        } else {
            hi = mid;
        }
    }
    assert(hi == lo + 1);
    lo
}

/// Every natural number has an integer square root.
proof fn lemma_floor_sqrt_exists(n: int)
    requires
        n >= 0,
    ensures
        is_floor_sqrt(n, floor_sqrt(n)),
    decreases n,
{
    if n == 0 {
        assert(is_floor_sqrt(0, 0));
    } else {
        lemma_floor_sqrt_exists(n - 1);
        let r = floor_sqrt(n - 1);
        if (r + 1) * (r + 1) <= n {
            assert((r + 2) * (r + 2) > n) by (nonlinear_arith)
                requires
                    n - 1 < (r + 1) * (r + 1),
                    r >= 0,
            ;
            assert(is_floor_sqrt(n, r + 1));
        } else {
            assert(is_floor_sqrt(n, r));
        }
    }
}

fn offset_sq_exec(i: usize) -> (o: i128)
    requires
        i < 3,
    ensures
        o == offset(i as int) * offset(i as int),
        0 <= o <= 25,
{
    if i == 0 {
        25
    } else if i == 1 {
        1
    } else {
        9
    }
}

fn offset_exec(i: usize) -> (o: i128)
    requires
        i < 3,
    ensures
        o == offset(i as int),
{
    if i == 0 {
        -5
    } else if i == 1 {
        -1
    } else {
        3
    }
}

proof fn lemma_weight_bound(dy: int, t: int)
    ensures
        0 <= weight(dy, t) <= 0x1_0000,
{
    let o1 = offset(t / 3);
    let o2 = offset(t % 3);
    assert(o1 * o1 >= 0) by (nonlinear_arith);
    assert(o2 * o2 >= 0) by (nonlinear_arith);
    let sq = o1 * o1 + o2 * o2;
    assert(dy * dy >= 0) by (nonlinear_arith);
    let den = 50 * unit_sq() + 9800 * dy * dy + sq * unit_sq();
    assert(den >= 50 * unit_sq()) by (nonlinear_arith)
        requires
            dy * dy >= 0,
            sq >= 0,
            den == 50 * unit_sq() + 9800 * dy * dy + sq * unit_sq(),
    ;
    vstd::arithmetic::div_mod::lemma_div_is_ordered_by_denominator(weight_num(), 50 * unit_sq(), den);
    vstd::arithmetic::div_mod::lemma_div_pos_is_pos(weight_num(), den);
    assert(weight_num() == (50 * unit_sq()) * 0x1_0000);
    vstd::arithmetic::div_mod::lemma_div_multiples_vanish(0x1_0000, 50 * unit_sq());
}

/// Weight and weighted chroma of neighbor `t` of pixel `(x, y)`, whose luma is `cy`.
#[verifier::rlimit(40)]
fn neighbor_term(d: &Vec<i64>, w: usize, h: usize, x: usize, y: usize, t: usize, cy: i128) -> (o: (i128, i128, i128))
    requires
        d@.len() == w * h * 3,
        x < w,
        y < h,
        t < 9,
        forall|k: int| 0 <= k < d@.len() ==> -ycc_bound() <= #[trigger] d@[k] <= ycc_bound(),
        cy == d@[(y * w + x) * 3],
    ensures
        o.0 == nb_weight(d@, w as int, h as int, x as int, y as int, t as int),
        o.1 == if nb_ok(w as int, h as int, x as int, y as int, t as int) {
            d@[nb_base(w as int, x as int, y as int, t as int) + 1] * o.0
        } else {
            0
        },
        o.2 == if nb_ok(w as int, h as int, x as int, y as int, t as int) {
            d@[nb_base(w as int, x as int, y as int, t as int) + 2] * o.0
        } else {
            0
        },
        0 <= o.0 <= 0x1_0000,
        -0x1_0000_0000_0000 <= o.1 <= 0x1_0000_0000_0000,
        -0x1_0000_0000_0000 <= o.2 <= 0x1_0000_0000_0000,
        -ycc_bound() * o.0 <= o.1 <= ycc_bound() * o.0,
        -ycc_bound() * o.0 <= o.2 <= ycc_bound() * o.0,
{
    let dlen = d.len();
    proof {
        crate::intermediate::lemma_index_decomp(x as int, y as int, 0, w as int, h as int, 3);
    }
    assert(-ycc_bound() <= d@[(y * w + x) * 3] <= ycc_bound());
    let ky = offset_exec(t / 3);
    let kx = offset_exec(t % 3);
    let sy = y as i128 + ky;
    let sx = x as i128 + kx;
    if 0 <= sy && sy < h as i128 && 0 <= sx && sx < w as i128 {
        let nyu = sy as usize;
        let nxu = sx as usize;
        proof {
            crate::intermediate::lemma_index_decomp(nxu as int, nyu as int, 0, w as int, h as int, 3);
            crate::intermediate::lemma_index_decomp(nxu as int, nyu as int, 2, w as int, h as int, 3);
            assert(nyu * w <= nyu * w + nxu);
        }
        let nb = (nyu * w + nxu) * 3;
        assert(-ycc_bound() <= d@[nb as int] <= ycc_bound());
        assert(-ycc_bound() <= d@[nb as int + 1] <= ycc_bound());
        assert(-ycc_bound() <= d@[nb as int + 2] <= ycc_bound());
        let dy: i128 = cy - d[nb] as i128;
        proof {
            assert(dy * dy <= 0x4_0000_0000_0000_0000_0000) by (nonlinear_arith)
                requires
                    -0x2_0000_0000 <= dy <= 0x2_0000_0000,
            ;
            assert(dy * dy >= 0) by (nonlinear_arith);
        }
        let sq = offset_sq_exec(t / 3) + offset_sq_exec(t % 3);
        let den: u128 = 50 * 0x1_0000_0000 + 9800 * ((dy * dy) as u128) + (sq as u128) * 0x1_0000_0000;
        let wt = (50 * 0x1_0000_0000 * 0x1_0000u128 / den) as i128;
        proof {
            lemma_weight_bound(dy as int, t as int);
            assert(ky == offset(t as int / 3));
            assert(kx == offset(t as int % 3));
            assert(den as int == 50 * unit_sq() + 9800 * (dy * dy) + sq * unit_sq());
            assert(9800 * (dy * dy) == 9800 * dy * dy) by (nonlinear_arith);
            assert(wt == weight(dy as int, t as int));
        }
        let v1 = d[nb + 1] as i128;
        let v2 = d[nb + 2] as i128;
        proof {
            assert(-ycc_bound() * wt <= v1 * wt <= ycc_bound() * wt) by (nonlinear_arith)
                requires
                    -ycc_bound() <= v1 <= ycc_bound(),
                    wt >= 0,
            ;
            assert(-ycc_bound() * wt <= v2 * wt <= ycc_bound() * wt) by (nonlinear_arith)
                requires
                    -ycc_bound() <= v2 <= ycc_bound(),
                    wt >= 0,
            ;
            assert(-0x1_0000_0000_0000 <= v1 * wt <= 0x1_0000_0000_0000) by (nonlinear_arith)
                requires
                    -ycc_bound() <= v1 <= ycc_bound(),
                    0 <= wt <= 0x1_0000,
            ;
            assert(-0x1_0000_0000_0000 <= v2 * wt <= 0x1_0000_0000_0000) by (nonlinear_arith)
                requires
                    -ycc_bound() <= v2 <= ycc_bound(),
                    0 <= wt <= 0x1_0000,
            ;
        }
        (wt, v1 * wt, v2 * wt)
    } else {
        (0, 0, 0)
    }
}

/// Pixel `(x, y)` with its chroma filtered; returns the two chroma values.
#[verifier::rlimit(40)]
fn filter_pixel(d: &Vec<i64>, w: usize, h: usize, x: usize, y: usize) -> (o: (i64, i64))
    requires
        d@.len() == w * h * 3,
        x < w,
        y < h,
        forall|k: int| 0 <= k < d@.len() ==> -ycc_bound() <= #[trigger] d@[k] <= ycc_bound(),
    ensures
        (o.0 as int, o.1 as int) == filtered(d@, w as int, h as int, x as int, y as int),
        -ycc_bound() <= o.0 <= ycc_bound(),
        -ycc_bound() <= o.1 <= ycc_bound(),
{
    let dlen = d.len();
    proof {
        crate::intermediate::lemma_index_decomp(x as int, y as int, 0, w as int, h as int, 3);
        assert(y * w <= y * w + x);
    }
    let c = (y * w + x) * 3;
    proof {
        crate::intermediate::lemma_index_decomp(x as int, y as int, 2, w as int, h as int, 3);
    }
    let cy = d[c] as i128;
    let c1 = d[c + 1] as i128;
    let c2 = d[c + 2] as i128;
    assert(-ycc_bound() <= d@[c as int] <= ycc_bound());
    assert(-ycc_bound() <= d@[c as int + 1] <= ycc_bound());
    assert(-ycc_bound() <= d@[c as int + 2] <= ycc_bound());
    let mut ws: i128 = 0;
    let mut s1: i128 = 0;
    let mut s2: i128 = 0;
    let mut t: usize = 0;
    while t < 9
        invariant
            dlen == d@.len(),
            d@.len() == w * h * 3,
            x < w,
            y < h,
            forall|k: int| 0 <= k < d@.len() ==> -ycc_bound() <= #[trigger] d@[k] <= ycc_bound(),
            c == (y * w + x) * 3,
            cy == d@[c as int],
            -ycc_bound() <= cy <= ycc_bound(),
            -ycc_bound() <= c1 <= ycc_bound(),
            -ycc_bound() <= c2 <= ycc_bound(),
            c1 == d@[c as int + 1],
            c2 == d@[c as int + 2],
            t <= 9,
            ws == w_sum(d@, w as int, h as int, x as int, y as int, t as int),
            s1 == c_sum(d@, w as int, h as int, x as int, y as int, t as int, 1),
            s2 == c_sum(d@, w as int, h as int, x as int, y as int, t as int, 2),
            0 <= ws <= t * 0x1_0000,
            -(t as int) * 0x1_0000_0000_0000 <= s1 <= t * 0x1_0000_0000_0000,
            -(t as int) * 0x1_0000_0000_0000 <= s2 <= t * 0x1_0000_0000_0000,
            -ycc_bound() * ws <= s1 <= ycc_bound() * ws,
            -ycc_bound() * ws <= s2 <= ycc_bound() * ws,
        decreases 9 - t,
    {
        let (wt, a1, a2) = neighbor_term(d, w, h, x, y, t, cy);
        proof {
            assert(ycc_bound() * ws <= ycc_bound() * 9 * 0x1_0000) by (nonlinear_arith)
                requires
                    ws <= 9 * 0x1_0000,
            ;
            assert(ycc_bound() * wt <= ycc_bound() * 0x1_0000) by (nonlinear_arith)
                requires
                    wt <= 0x1_0000,
            ;
        }
        proof {
            assert(-ycc_bound() * (ws + wt) <= s1 + a1 <= ycc_bound() * (ws + wt)) by (nonlinear_arith)
                requires
                    -ycc_bound() * ws <= s1 <= ycc_bound() * ws,
                    -ycc_bound() * wt <= a1 <= ycc_bound() * wt,
            ;
            assert(-ycc_bound() * (ws + wt) <= s2 + a2 <= ycc_bound() * (ws + wt)) by (nonlinear_arith)
                requires
                    -ycc_bound() * ws <= s2 <= ycc_bound() * ws,
                    -ycc_bound() * wt <= a2 <= ycc_bound() * wt,
            ;
        }
        ws = ws + wt;
        s1 = s1 + a1;
        s2 = s2 + a2;
        t = t + 1;
    }
    if ws > 0 {
        proof {
            assert(-ycc_bound() * ws == -(ycc_bound() * ws)) by (nonlinear_arith);
            lemma_tdiv_bound(s1 as int, ws as int, ycc_bound());
            lemma_tdiv_bound(s2 as int, ws as int, ycc_bound());
            assert(ycc_bound() * ws <= ycc_bound() * 9 * 0x1_0000) by (nonlinear_arith)
                requires
                    ws <= 9 * 0x1_0000,
            ;
        }
        let f1 = tdiv_exec(s1, ws);
        let f2 = tdiv_exec(s2, ws);
        proof {
            assert(c1 * c1 <= ycc_bound() * ycc_bound()) by (nonlinear_arith)
                requires
                    -ycc_bound() <= c1 <= ycc_bound(),
            ;
            assert(c2 * c2 <= ycc_bound() * ycc_bound()) by (nonlinear_arith)
                requires
                    -ycc_bound() <= c2 <= ycc_bound(),
            ;
            assert(f1 * f1 <= ycc_bound() * ycc_bound()) by (nonlinear_arith)
                requires
                    -ycc_bound() <= f1 <= ycc_bound(),
            ;
            assert(f2 * f2 <= ycc_bound() * ycc_bound()) by (nonlinear_arith)
                requires
                    -ycc_bound() <= f2 <= ycc_bound(),
            ;
            assert(c1 * c1 + c2 * c2 <= 2 * ycc_bound() * ycc_bound()) by (nonlinear_arith)
                requires
                    -ycc_bound() <= c1 <= ycc_bound(),
                    -ycc_bound() <= c2 <= ycc_bound(),
            ;
            assert(f1 * f1 + f2 * f2 <= 2 * ycc_bound() * ycc_bound()) by (nonlinear_arith)
                requires
                    -ycc_bound() <= f1 <= ycc_bound(),
                    -ycc_bound() <= f2 <= ycc_bound(),
            ;
            assert(c1 * c1 + c2 * c2 >= 0) by (nonlinear_arith);
            assert(f1 * f1 + f2 * f2 >= 0) by (nonlinear_arith);
        }
        let o2 = (c1 * c1 + c2 * c2) as u128;
        let q2 = (f1 * f1 + f2 * f2) as u128;
        if q2 > o2 {
            let a = isqrt(o2);
            let fl = isqrt(q2);
            proof {
                lemma_floor_sqrt_unique(o2 as int, a as int);
                lemma_floor_sqrt_unique(q2 as int, fl as int);
                assert(fl * fl <= 0x10_0000_0000_0000_0000) by (nonlinear_arith)
                    requires
                        fl <= 0x4_0000_0000,
                ;
            }
            let b = if fl * fl == q2 {
                fl
            } else {
                fl + 1
            };
            let ghost af1 = if f1 >= 0 { f1 as int } else { -f1 };
            let ghost af2 = if f2 >= 0 { f2 as int } else { -f2 };
            proof {
                assert(b * b >= q2) by (nonlinear_arith)
                    requires
                        b == fl || b == fl + 1,
                        b == fl ==> fl * fl == q2,
                        q2 < (fl + 1) * (fl + 1),
                ;
                assert(b >= 1) by (nonlinear_arith)
                    requires
                        b * b >= q2,
                        q2 >= 1,
                        b >= 0,
                ;
                assert(a <= b) by (nonlinear_arith)
                    requires
                        a * a <= o2,
                        o2 < q2,
                        q2 <= b * b,
                        a >= 0,
                        b >= 0,
                ;
                assert(-(af1 * b) <= f1 * a <= af1 * b) by (nonlinear_arith)
                    requires
                        0 <= a <= b,
                        af1 == f1 || af1 == -f1,
                        af1 >= 0,
                ;
                assert(-(af2 * b) <= f2 * a <= af2 * b) by (nonlinear_arith)
                    requires
                        0 <= a <= b,
                        af2 == f2 || af2 == -f2,
                        af2 >= 0,
                ;
                assert(-af1 * b == -(af1 * b)) by (nonlinear_arith);
                assert(-af2 * b == -(af2 * b)) by (nonlinear_arith);
                lemma_tdiv_bound(f1 * a, b as int, af1);
                lemma_tdiv_bound(f2 * a, b as int, af2);
                assert(af1 * b <= ycc_bound() * 0x4_0000_0001) by (nonlinear_arith)
                    requires
                        0 <= af1 <= ycc_bound(),
                        0 <= b <= 0x4_0000_0001,
                ;
                assert(af2 * b <= ycc_bound() * 0x4_0000_0001) by (nonlinear_arith)
                    requires
                        0 <= af2 <= ycc_bound(),
                        0 <= b <= 0x4_0000_0001,
                ;
            }
            let t1 = tdiv_exec(f1 * a as i128, b as i128);
            let t2 = tdiv_exec(f2 * a as i128, b as i128);
            (t1 as i64, t2 as i64)
        } else {
            (f1 as i64, f2 as i64)
        }
    } else {
        (c1 as i64, c2 as i64)
    }
}

/// Filters the chroma of every pixel and keeps the luma.
pub fn denoise_chroma(img: &YccImage) -> (out: YccImage)
    requires
        img.wf(),
    ensures
        out.width == img.width,
        out.height == img.height,
        out.data@ == denoised_seq(img.data@, img.width as int, img.height as int),
        out.wf(),
        forall|k: int| 0 <= k < img.data@.len() && k % 3 == 0 ==> #[trigger] out.data@[k] == img.data@[k],
{
    let len = img.data.len();
    let w = img.width;
    let h = img.height;
    let mut data: Vec<i64> = Vec::with_capacity(len);
    let mut i: usize = 0;
    proof {
        assert(len == (w * h) * 3) by (nonlinear_arith)
            requires
                len == w * h * 3,
        ;
    }
    while i < len
        invariant
            img.wf(),
            w == img.width,
            h == img.height,
            len == img.data@.len(),
            len == (w * h) * 3,
            i % 3 == 0,
            i <= len,
            data@.len() == i,
            forall|j: int| 0 <= j < i ==> data@[j] == denoised_seq(img.data@, w as int, h as int)[j],
            forall|j: int| 0 <= j < i ==> -ycc_bound() <= #[trigger] data@[j] <= ycc_bound(),
        decreases len - i,
    {
        let p = i / 3;
        proof {
            crate::intermediate::lemma_index_in_range(p as int, w as int, h as int, 1);
        }
        let x = p % w;
        let y = p / w;
        let (f1, f2) = filter_pixel(&img.data, w, h, x, y);
        data.push(img.data[i]);
        data.push(f1);
        data.push(f2);
        i = i + 3;
    }
    assert(data@ =~= denoised_seq(img.data@, w as int, h as int));
    YccImage { width: w, height: h, data }
}

/// The filtered chroma of a pixel is never larger in magnitude than its
/// original chroma: the filter never increases saturation.
#[verifier::rlimit(40)]
pub proof fn lemma_filtered_magnitude(d: Seq<i64>, w: int, h: int, x: int, y: int)
    ensures
        ({
            let f = filtered(d, w, h, x, y);
            let c1 = d[(y * w + x) * 3 + 1] as int;
            let c2 = d[(y * w + x) * 3 + 2] as int;
            f.0 * f.0 + f.1 * f.1 <= c1 * c1 + c2 * c2
        }),
{
    let ws = w_sum(d, w, h, x, y, 9);
    let c1 = d[(y * w + x) * 3 + 1] as int;
    let c2 = d[(y * w + x) * 3 + 2] as int;
    if ws > 0 {
        let f1 = tdiv(c_sum(d, w, h, x, y, 9, 1), ws);
        let f2 = tdiv(c_sum(d, w, h, x, y, 9, 2), ws);
        let o2 = c1 * c1 + c2 * c2;
        let q2 = f1 * f1 + f2 * f2;
        if q2 > o2 {
            assert(o2 >= 0) by (nonlinear_arith)
                requires
                    o2 == c1 * c1 + c2 * c2,
            ;
            lemma_floor_sqrt_exists(o2);
            lemma_floor_sqrt_exists(q2);
            let a = floor_sqrt(o2);
            let fl = floor_sqrt(q2);
            let b = ceil_sqrt(q2);
            assert(b * b >= q2) by (nonlinear_arith)
                requires
                    b == fl || b == fl + 1,
                    b == fl ==> fl * fl == q2,
                    q2 < (fl + 1) * (fl + 1),
            ;
            assert(b >= 1) by (nonlinear_arith)
                requires
                    b * b >= q2,
                    q2 >= 1,
                    b >= 0,
            ;
            let t1 = tdiv(f1 * a, b);
            let t2 = tdiv(f2 * a, b);
            lemma_tdiv_shrinks(f1 * a, b);
            lemma_tdiv_shrinks(f2 * a, b);
            assert((t1 * t1 + t2 * t2) * (b * b) <= q2 * (a * a)) by (nonlinear_arith)
                requires
                    t1 * t1 * (b * b) <= (f1 * a) * (f1 * a),
                    t2 * t2 * (b * b) <= (f2 * a) * (f2 * a),
                    q2 == f1 * f1 + f2 * f2,
            ;
            assert(q2 * (a * a) <= (b * b) * (a * a)) by (nonlinear_arith)
                requires
                    q2 <= b * b,
            ;
            assert(t1 * t1 + t2 * t2 <= a * a) by (nonlinear_arith)
                requires
                    (t1 * t1 + t2 * t2) * (b * b) <= (b * b) * (a * a),
                    b * b >= 1,
            ;
        }
    }
}

/// Denoises an RGB image in place: converts it to luma/chroma, filters the
/// chroma with [`denoise_chroma`] and converts back.
pub fn remove_raw_artifacts_and_enhance(img: &mut Pixels)
    requires
        old(img).wf(3),
    ensures
        final(img).width == old(img).width,
        final(img).height == old(img).height,
        final(img).data@ == rgb_seq(
            denoised_seq(ycc_seq(old(img).data@), old(img).width as int, old(img).height as int),
        ),
        final(img).wf(3),
{
    let ycc = rgb_to_ycc(img);
    let filtered_img = denoise_chroma(&ycc);
    let out = ycc_to_rgb(&filtered_img);
    *img = out;
}

} // verus!
