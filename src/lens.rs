//! Lens-correction coefficients interpolated from a calibration table.
//!
//! Focal lengths, apertures and focus distances are in thousandths of their
//! unit; coefficients are in millionths.
use vstd::prelude::*;
use vstd::string::{StrSliceExecFns, StringExecFns};
use crate::text::{trim_str, trimmed};

verus! {

/// Scale of a coefficient (1.0).
pub const COEF_ONE: i64 = 1_000_000;

/// Aperture assumed when the caller gives none (f/3.5).
pub const DEFAULT_APERTURE: u32 = 3_500;

/// Focus distance assumed when the caller or the table gives none (1000).
pub const DEFAULT_DISTANCE: u32 = 1_000_000;

/// Distortion models of a calibration table.
#[derive(Clone, Copy, Debug, PartialEq, Eq, Structural)]
pub enum DistortionModel {
    Poly3,
    Poly5,
    PtLens,
    Other,
}

#[derive(Clone, Debug)]
pub struct Distortion {
    pub model: DistortionModel,
    pub focal: u32,
    pub real_focal: Option<u32>,
    pub k1: Option<i64>,
    pub k2: Option<i64>,
    pub k3: Option<i64>,
    pub a: Option<i64>,
    pub b: Option<i64>,
    pub c: Option<i64>,
}

#[derive(Clone, Debug)]
pub struct Tca {
    pub model: String,
    pub focal: u32,
    pub vr: Option<i64>,
    pub vb: Option<i64>,
    pub cr: Option<i64>,
    pub cb: Option<i64>,
    pub br: Option<i64>,
    pub bb: Option<i64>,
}

#[derive(Clone, Debug)]
pub struct Vignetting {
    pub model: String,
    pub focal: u32,
    pub aperture: u32,
    pub distance: Option<u32>,
    pub k1: Option<i64>,
    pub k2: Option<i64>,
    pub k3: Option<i64>,
}

#[derive(Clone, Debug)]
pub enum CalibrationElement {
    Distortion(Distortion),
    Tca(Tca),
    Vignetting(Vignetting),
}

#[derive(Clone, Debug)]
pub struct Calibration {
    pub elements: Vec<CalibrationElement>,
}

/// Resolved correction parameters for one shot.
#[derive(Clone, Copy, Debug, PartialEq, Eq, Structural)]
pub struct LensDistortionParams {
    pub k1: i64,
    pub k2: i64,
    pub k3: i64,
    /// 0 for polynomial models, 1 for PTLens.
    pub model: u32,
    pub tca_vr: i64,
    pub tca_vb: i64,
    pub vig_k1: i64,
    pub vig_k2: i64,
    pub vig_k3: i64,
}

/// One table entry reduced to what interpolation reads: its focal length,
/// three coefficients and a model tag.
#[derive(Clone, Copy, Debug, PartialEq, Eq, Structural)]
pub struct FocalParams {
    pub focal: u32,
    pub v1: i64,
    pub v2: i64,
    pub v3: i64,
    pub model: u32,
}

pub open spec fn or_zero(v: Option<i64>) -> i64 {
    match v {
        Some(x) => x,
        None => 0,
    }
}

pub open spec fn or_one(v: Option<i64>) -> i64 {
    match v {
        Some(x) => x,
        None => COEF_ONE,
    }
}

/// The coefficients a distortion entry contributes: k1..k3 for polynomial
/// models (tag 0), a/b/c for PTLens (tag 1), zeros otherwise.
pub open spec fn dist_params(d: Distortion) -> FocalParams {
    match d.model {
        DistortionModel::Poly3 | DistortionModel::Poly5 => FocalParams {
            focal: d.focal,
            v1: or_zero(d.k1),
            v2: or_zero(d.k2),
            v3: or_zero(d.k3),
            model: 0,
        },
        DistortionModel::PtLens => FocalParams {
            focal: d.focal,
            v1: or_zero(d.a),
            v2: or_zero(d.b),
            v3: or_zero(d.c),
            model: 1,
        },
        DistortionModel::Other => FocalParams { focal: d.focal, v1: 0, v2: 0, v3: 0, model: 0 },
    }
}

pub fn extract_dist_params(d: &Distortion) -> (r: FocalParams)
    ensures
        r == dist_params(*d),
{
    match d.model {
        DistortionModel::Poly3 | DistortionModel::Poly5 => FocalParams {
            focal: d.focal,
            v1: unwrap_or(d.k1, 0),
            v2: unwrap_or(d.k2, 0),
            v3: unwrap_or(d.k3, 0),
            model: 0,
        },
        DistortionModel::PtLens => FocalParams {
            focal: d.focal,
            v1: unwrap_or(d.a, 0),
            v2: unwrap_or(d.b, 0),
            v3: unwrap_or(d.c, 0),
            model: 1,
        },
        DistortionModel::Other => FocalParams { focal: d.focal, v1: 0, v2: 0, v3: 0, model: 0 },
    }
}

fn unwrap_or(v: Option<i64>, d: i64) -> (r: i64)
    ensures
        r == match v {
            Some(x) => x,
            None => d,
        },
{
    match v {
        Some(x) => x,
        None => d,
    }
}

/// The scale factors a TCA entry contributes (1.0 where absent).
pub open spec fn tca_params(t: Tca) -> FocalParams {
    FocalParams { focal: t.focal, v1: or_one(t.vr), v2: or_one(t.vb), v3: 0, model: 0 }
}

pub fn extract_tca_params(t: &Tca) -> (r: FocalParams)
    ensures
        r == tca_params(*t),
{
    FocalParams { focal: t.focal, v1: unwrap_or(t.vr, COEF_ONE), v2: unwrap_or(t.vb, COEF_ONE), v3: 0, model: 0 }
}

/// A vignetting entry reduced to its keys and coefficients.
#[derive(Clone, Copy, Debug, PartialEq, Eq, Structural)]
pub struct VigEntry {
    pub focal: u32,
    pub aperture: u32,
    pub distance: u32,
    pub k1: i64,
    pub k2: i64,
    pub k3: i64,
}

pub open spec fn vig_entry(v: Vignetting) -> VigEntry {
    VigEntry {
        focal: v.focal,
        aperture: v.aperture,
        distance: match v.distance {
            Some(d) => d,
            None => DEFAULT_DISTANCE,
        },
        k1: or_zero(v.k1),
        k2: or_zero(v.k2),
        k3: or_zero(v.k3),
    }
}

pub fn extract_vig_params(v: &Vignetting) -> (r: VigEntry)
    ensures
        r == vig_entry(*v),
{
    VigEntry {
        focal: v.focal,
        aperture: v.aperture,
        distance: match v.distance {
            Some(d) => d,
            None => DEFAULT_DISTANCE,
        },
        k1: unwrap_or(v.k1, 0),
        k2: unwrap_or(v.k2, 0),
        k3: unwrap_or(v.k3, 0),
    }
}

/// The distortion entries of a table, in table order.
pub open spec fn distortions(s: Seq<CalibrationElement>) -> Seq<FocalParams>
    decreases s.len(),
{
    if s.len() == 0 {
        Seq::empty()
    } else {
        distortions(s.drop_last()) + match s.last() {
            CalibrationElement::Distortion(d) => seq![dist_params(d)],
            _ => Seq::empty(),
        }
    }
}

/// The TCA entries of a table, in table order.
pub open spec fn tcas(s: Seq<CalibrationElement>) -> Seq<FocalParams>
    decreases s.len(),
{
    if s.len() == 0 {
        Seq::empty()
    } else {
        tcas(s.drop_last()) + match s.last() {
            CalibrationElement::Tca(t) => seq![tca_params(t)],
            _ => Seq::empty(),
        }
    }
}

/// The vignetting entries of a table, in table order.
pub open spec fn vignettings(s: Seq<CalibrationElement>) -> Seq<VigEntry>
    decreases s.len(),
{
    if s.len() == 0 {
        Seq::empty()
    } else {
        vignettings(s.drop_last()) + match s.last() {
            CalibrationElement::Vignetting(v) => seq![vig_entry(v)],
            _ => Seq::empty(),
        }
    }
}

/// Splits a table into its three categories.
pub fn split_calibration(cal: &Calibration) -> (r: (Vec<FocalParams>, Vec<FocalParams>, Vec<VigEntry>))
    ensures
        r.0@ == distortions(cal.elements@),
        r.1@ == tcas(cal.elements@),
        r.2@ == vignettings(cal.elements@),
{
    let mut ds: Vec<FocalParams> = Vec::new();
    let mut ts: Vec<FocalParams> = Vec::new();
    let mut vs: Vec<VigEntry> = Vec::new();
    let mut k: usize = 0;
    while k < cal.elements.len()
        invariant
            k <= cal.elements@.len(),
            ds@ == distortions(cal.elements@.take(k as int)),
            ts@ == tcas(cal.elements@.take(k as int)),
            vs@ == vignettings(cal.elements@.take(k as int)),
        decreases cal.elements@.len() - k,
    {
        let ghost pre = cal.elements@.take(k as int);
        assert(cal.elements@.take(k as int + 1).drop_last() =~= pre);
        match &cal.elements[k] {
            CalibrationElement::Distortion(d) => ds.push(extract_dist_params(d)),
            CalibrationElement::Tca(t) => ts.push(extract_tca_params(t)),
            CalibrationElement::Vignetting(v) => vs.push(extract_vig_params(v)),
        }
        k = k + 1;
        assert(ds@ =~= distortions(cal.elements@.take(k as int)));
        assert(ts@ =~= tcas(cal.elements@.take(k as int)));
        assert(vs@ =~= vignettings(cal.elements@.take(k as int)));
    }
    assert(cal.elements@.take(k as int) =~= cal.elements@);
    (ds, ts, vs)
}

/// Interpolated coefficients and the model tag they belong to.
#[derive(Clone, Copy, Debug, PartialEq, Eq, Structural)]
pub struct Coeffs {
    pub c1: i64,
    pub c2: i64,
    pub c3: i64,
    pub model: u32,
}

pub open spec fn coeffs_of(p: FocalParams) -> Coeffs {
    Coeffs { c1: p.v1, c2: p.v2, c3: p.v3, model: p.model }
}

/// `a + (b - a) * n / d`, the quotient rounded toward `a`.
pub open spec fn lerp(a: int, b: int, n: int, d: int) -> int {
    if b >= a {
        a + (b - a) * n / d
    } else {
        a - (a - b) * n / d
    }
}

/// Interpolation between the bracketing entries `lo` and `hi` at focal `f`;
/// entries of different models are not mixed: `lo` is used as it is.
pub open spec fn combined(lo: FocalParams, hi: FocalParams, f: int) -> Coeffs {
    if lo.model != hi.model {
        coeffs_of(lo)
    } else {
        let n = f - lo.focal;
        let d = hi.focal - lo.focal;
        Coeffs {
            c1: lerp(lo.v1 as int, hi.v1 as int, n, d) as i64,
            c2: lerp(lo.v2 as int, hi.v2 as int, n, d) as i64,
            c3: lerp(lo.v3 as int, hi.v3 as int, n, d) as i64,
            model: lo.model,
        }
    }
}

/// Entry `i` is the first of the first `n` entries with focal `f`.
pub open spec fn first_eq(e: Seq<FocalParams>, n: int, f: int, i: int) -> bool {
    &&& 0 <= i < n
    &&& e[i].focal == f
    &&& forall|j: int| 0 <= j < i ==> #[trigger] e[j].focal != f
}

/// No entry has focal `f`.
pub open spec fn no_eq(e: Seq<FocalParams>, f: int) -> bool {
    forall|j: int| 0 <= j < e.len() ==> #[trigger] e[j].focal != f
}

/// Entry `i` is the first entry of smallest focal.
pub open spec fn first_min(e: Seq<FocalParams>, n: int, i: int) -> bool {
    &&& 0 <= i < n
    &&& forall|j: int| 0 <= j < n ==> e[i].focal <= #[trigger] e[j].focal
    &&& forall|j: int| 0 <= j < i ==> #[trigger] e[j].focal != e[i].focal
}

/// Entry `i` is the last entry of largest focal.
pub open spec fn last_max(e: Seq<FocalParams>, n: int, i: int) -> bool {
    &&& 0 <= i < n
    &&& forall|j: int| 0 <= j < n ==> #[trigger] e[j].focal <= e[i].focal
    &&& forall|j: int| i < j < n ==> #[trigger] e[j].focal != e[i].focal
}

/// Entry `i` is the last entry of the largest focal below `f`.
pub open spec fn lower(e: Seq<FocalParams>, n: int, f: int, i: int) -> bool {
    &&& 0 <= i < n
    &&& e[i].focal < f
    &&& forall|j: int| 0 <= j < n && #[trigger] e[j].focal < f ==> e[j].focal <= e[i].focal
    &&& forall|j: int| i < j < n && #[trigger] e[j].focal < f ==> e[j].focal != e[i].focal
}

/// Entry `i` is the first entry of the smallest focal above `f`.
pub open spec fn upper(e: Seq<FocalParams>, n: int, f: int, i: int) -> bool {
    &&& 0 <= i < n
    &&& e[i].focal > f
    &&& forall|j: int| 0 <= j < n && #[trigger] e[j].focal > f ==> e[j].focal >= e[i].focal
    &&& forall|j: int| 0 <= j < i && #[trigger] e[j].focal > f ==> e[j].focal != e[i].focal
}

/// What resolving focal `f` over the entries `e` gives, with `neutral` for an
/// empty table: an entry of exactly that focal as it is; below or above the
/// table the boundary entry; in between, the two bracketing entries combined.
pub open spec fn focal_resolved(e: Seq<FocalParams>, f: int, neutral: Coeffs, r: Coeffs) -> bool {
    let n = e.len() as int;
    &&& n == 0 ==> r == neutral
    &&& forall|i: int| first_eq(e, n, f, i) ==> r == coeffs_of(e[i])
    &&& no_eq(e, f) ==> forall|i: int| first_min(e, n, i) && f < e[i].focal ==> r == coeffs_of(e[i])
    &&& no_eq(e, f) ==> forall|i: int| last_max(e, n, i) && f > e[i].focal ==> r == coeffs_of(e[i])
    &&& no_eq(e, f) ==> forall|i: int, j: int|
        lower(e, n, f, i) && upper(e, n, f, j) ==> r == combined(e[i], e[j], f)
}

proof fn lemma_lerp_between(a: int, b: int, n: int, d: int)
    requires
        0 <= n <= d,
        d > 0,
    ensures
        a <= b ==> a <= lerp(a, b, n, d) <= b,
        b < a ==> b <= lerp(a, b, n, d) <= a,
        n == d ==> lerp(a, b, n, d) == b,
        n == 0 ==> lerp(a, b, n, d) == a,
{
    let m = if b >= a { b - a } else { a - b };
    assert(m * n <= m * d) by (nonlinear_arith)
        requires
            m >= 0,
            n <= d,
    ;
    assert(0 <= m * n) by (nonlinear_arith)
        requires
            m >= 0,
            n >= 0,
    ;
    vstd::arithmetic::div_mod::lemma_div_is_ordered(m * n, m * d, d);
    vstd::arithmetic::div_mod::lemma_div_multiples_vanish(m, d);
    assert(m * d == d * m) by (nonlinear_arith);
    vstd::arithmetic::div_mod::lemma_div_pos_is_pos(m * n, d);
    if n == 0 {
        assert(m * n == 0);
    }
}

fn lerp_exec(a: i64, b: i64, n: u32, d: u32) -> (r: i64)
    requires
        n <= d,
        d > 0,
    ensures
        r == lerp(a as int, b as int, n as int, d as int),
{
    proof {
        lemma_lerp_between(a as int, b as int, n as int, d as int);
    }
    if b >= a {
        let m: u128 = (b as i128 - a as i128) as u128;
        proof {
            assert(m * n as u128 <= 0x1_0000_0000_0000_0000 * 0x1_0000_0000) by (nonlinear_arith)
                requires
                    m <= 0x1_0000_0000_0000_0000,
                    n <= 0xFFFF_FFFF,
            ;
        }
        let q: u128 = (m * n as u128) / d as u128;
        (a as i128 + q as i128) as i64
    } else {
        let m: u128 = (a as i128 - b as i128) as u128;
        proof {
            assert(m * n as u128 <= 0x1_0000_0000_0000_0000 * 0x1_0000_0000) by (nonlinear_arith)
                requires
                    m <= 0x1_0000_0000_0000_0000,
                    n <= 0xFFFF_FFFF,
            ;
        }
        let q: u128 = (m * n as u128) / d as u128;
        (a as i128 - q as i128) as i64
    }
}

fn combine_exec(lo: FocalParams, hi: FocalParams, f: u32) -> (r: Coeffs)
    requires
        lo.focal <= f <= hi.focal,
        lo.focal < hi.focal,
    ensures
        r == combined(lo, hi, f as int),
{
    if lo.model != hi.model {
        Coeffs { c1: lo.v1, c2: lo.v2, c3: lo.v3, model: lo.model }
    } else {
        let n = f - lo.focal;
        let d = hi.focal - lo.focal;
        Coeffs {
            c1: lerp_exec(lo.v1, hi.v1, n, d),
            c2: lerp_exec(lo.v2, hi.v2, n, d),
            c3: lerp_exec(lo.v3, hi.v3, n, d),
            model: lo.model,
        }
    }
}

/// Resolves the coefficients for focal `f` from entries keyed by focal length.
#[verifier::rlimit(40)]
pub fn resolve_focal(e: &Vec<FocalParams>, f: u32, neutral: Coeffs) -> (r: Coeffs)
    ensures
        focal_resolved(e@, f as int, neutral, r),
{
    let len = e.len();
    if len == 0 {
        return neutral;
    }
    let mut eq: Option<usize> = None;
    let mut mn: usize = 0;
    let mut mx: usize = 0;
    let mut lo: Option<usize> = None;
    let mut hi: Option<usize> = None;
    let mut k: usize = 0;
    while k < len
        invariant
            len == e@.len(),
            len > 0,
            k <= len,
            mn < len,
            mx < len,
            k > 0 ==> mn < k && mx < k,
            k == 0 ==> mn == 0 && mx == 0,
            match eq {
                Some(i) => first_eq(e@, k as int, f as int, i as int),
                None => forall|j: int| 0 <= j < k ==> #[trigger] e@[j].focal != f,
            },
            forall|j: int| 0 <= j < k ==> e@[mn as int].focal <= #[trigger] e@[j].focal,
            forall|j: int| 0 <= j < mn ==> #[trigger] e@[j].focal != e@[mn as int].focal,
            forall|j: int| 0 <= j < k ==> #[trigger] e@[j].focal <= e@[mx as int].focal,
            forall|j: int| mx < j < k ==> #[trigger] e@[j].focal != e@[mx as int].focal,
            match lo {
                Some(i) => lower(e@, k as int, f as int, i as int),
                None => forall|j: int| 0 <= j < k ==> #[trigger] e@[j].focal >= f,
            },
            match hi {
                Some(i) => upper(e@, k as int, f as int, i as int),
                None => forall|j: int| 0 <= j < k ==> #[trigger] e@[j].focal <= f,
            },
        decreases len - k,
    {
        let fk = e[k].focal;
        if eq.is_none() && fk == f {
            eq = Some(k);
        }
        if fk < e[mn].focal {
            mn = k;
        }
        if fk >= e[mx].focal {
            mx = k;
        }
        if fk < f {
            match lo {
                None => {
                    lo = Some(k);
                },
                Some(i) => {
                    if fk >= e[i].focal {
                        lo = Some(k);
                    }
                },
            }
        }
        if fk > f {
            match hi {
                None => {
                    hi = Some(k);
                },
                Some(i) => {
                    if fk < e[i].focal {
                        hi = Some(k);
                    }
                },
            }
        }
        k = k + 1;
    }
    proof {
        assert(first_min(e@, len as int, mn as int));
        assert(last_max(e@, len as int, mx as int));
    }
    match eq {
        Some(i) => {
            proof {
                assert forall|i2: int| first_eq(e@, len as int, f as int, i2) implies i2 == i by {
                    if i2 < i {
                        assert(e@[i2].focal != f);
                    } else if i2 > i {
                        assert(e@[i as int].focal != f);
                    }
                }
            }
            return Coeffs { c1: e[i].v1, c2: e[i].v2, c3: e[i].v3, model: e[i].model };
        },
        None => {},
    }
    proof {
        lemma_first_min_unique(e@, len as int, mn as int);
        lemma_last_max_unique(e@, len as int, mx as int);
    }
    if f < e[mn].focal {
        return Coeffs { c1: e[mn].v1, c2: e[mn].v2, c3: e[mn].v3, model: e[mn].model };
    }
    if f > e[mx].focal {
        return Coeffs { c1: e[mx].v1, c2: e[mx].v2, c3: e[mx].v3, model: e[mx].model };
    }
    let li = match lo {
        Some(i) => i,
        None => {
            proof {
                assert(e@[mn as int].focal != f);
            }
            return neutral;
        },
    };
    let hj = match hi {
        Some(j) => j,
        None => {
            proof {
                assert(e@[mx as int].focal != f);
            }
            return neutral;
        },
    };
    proof {
        lemma_lower_unique(e@, len as int, f as int, li as int);
        lemma_upper_unique(e@, len as int, f as int, hj as int);
    }
    combine_exec(e[li], e[hj], f)
}

proof fn lemma_first_min_unique(e: Seq<FocalParams>, n: int, i: int)
    requires
        first_min(e, n, i),
    ensures
        forall|i2: int| first_min(e, n, i2) ==> i2 == i,
{
    assert forall|i2: int| first_min(e, n, i2) implies i2 == i by {
        if i2 < i {
            assert(e[i2].focal != e[i].focal);
            assert(e[i].focal <= e[i2].focal && e[i2].focal <= e[i].focal);
        } else if i2 > i {
            assert(e[i].focal != e[i2].focal);
            assert(e[i].focal <= e[i2].focal && e[i2].focal <= e[i].focal);
        }
    }
}

proof fn lemma_last_max_unique(e: Seq<FocalParams>, n: int, i: int)
    requires
        last_max(e, n, i),
    ensures
        forall|i2: int| last_max(e, n, i2) ==> i2 == i,
{
    assert forall|i2: int| last_max(e, n, i2) implies i2 == i by {
        if i2 < i {
            assert(e[i].focal != e[i2].focal);
            assert(e[i].focal <= e[i2].focal && e[i2].focal <= e[i].focal);
        } else if i2 > i {
            assert(e[i2].focal != e[i].focal);
            assert(e[i].focal <= e[i2].focal && e[i2].focal <= e[i].focal);
        }
    }
}

proof fn lemma_lower_unique(e: Seq<FocalParams>, n: int, f: int, i: int)
    requires
        lower(e, n, f, i),
    ensures
        forall|i2: int| lower(e, n, f, i2) ==> i2 == i,
{
    assert forall|i2: int| lower(e, n, f, i2) implies i2 == i by {
        if i2 < i {
            assert(e[i].focal != e[i2].focal);
            assert(e[i].focal <= e[i2].focal && e[i2].focal <= e[i].focal);
        } else if i2 > i {
            assert(e[i2].focal != e[i].focal);
            assert(e[i].focal <= e[i2].focal && e[i2].focal <= e[i].focal);
        }
    }
}

proof fn lemma_upper_unique(e: Seq<FocalParams>, n: int, f: int, i: int)
    requires
        upper(e, n, f, i),
    ensures
        forall|i2: int| upper(e, n, f, i2) ==> i2 == i,
{
    assert forall|i2: int| upper(e, n, f, i2) implies i2 == i by {
        if i2 < i {
            assert(e[i2].focal != e[i].focal);
            assert(e[i].focal <= e[i2].focal && e[i2].focal <= e[i].focal);
        } else if i2 > i {
            assert(e[i].focal != e[i2].focal);
            assert(e[i].focal <= e[i2].focal && e[i2].focal <= e[i].focal);
        }
    }
}

pub open spec fn abs_diff(a: int, b: int) -> int {
    if a >= b {
        a - b
    } else {
        b - a
    }
}

/// Entry `i` is the first entry of focal `g` whose aperture is nearest `ta`.
pub open spec fn best_aperture(e: Seq<VigEntry>, g: int, ta: int, i: int) -> bool {
    &&& 0 <= i < e.len()
    &&& e[i].focal == g
    &&& forall|j: int|
        0 <= j < e.len() && #[trigger] e[j].focal == g ==> abs_diff(e[i].aperture as int, ta) <= abs_diff(
            e[j].aperture as int,
            ta,
        )
    &&& forall|j: int|
        0 <= j < i && #[trigger] e[j].focal == g ==> abs_diff(e[j].aperture as int, ta) > abs_diff(
            e[i].aperture as int,
            ta,
        )
}

/// Entry `i` is the first entry of focal `g` and aperture `a` whose focus
/// distance is nearest `td`.
pub open spec fn best_distance(e: Seq<VigEntry>, g: int, a: int, td: int, i: int) -> bool {
    &&& 0 <= i < e.len()
    &&& e[i].focal == g
    &&& e[i].aperture == a
    &&& forall|j: int|
        0 <= j < e.len() && #[trigger] e[j].focal == g && e[j].aperture == a ==> abs_diff(
            e[i].distance as int,
            td,
        ) <= abs_diff(e[j].distance as int, td)
    &&& forall|j: int|
        0 <= j < i && #[trigger] e[j].focal == g && e[j].aperture == a ==> abs_diff(
            e[j].distance as int,
            td,
        ) > abs_diff(e[i].distance as int, td)
}

pub open spec fn vig_coeffs(v: VigEntry) -> Coeffs {
    Coeffs { c1: v.k1, c2: v.k2, c3: v.k3, model: 0 }
}

/// The coefficients of the group of focal `g`: nearest aperture first, then
/// nearest focus distance among the entries of that aperture.
pub open spec fn group_best(e: Seq<VigEntry>, g: int, ta: int, td: int) -> Coeffs {
    let i = choose|i: int| best_aperture(e, g, ta, i);
    let j = choose|j: int| best_distance(e, g, e[i].aperture as int, td, j);
    vig_coeffs(e[j])
}

pub open spec fn has_focal(e: Seq<VigEntry>, g: int) -> bool {
    exists|j: int| 0 <= j < e.len() && #[trigger] e[j].focal == g
}

pub open spec fn min_focal(e: Seq<VigEntry>, g: int) -> bool {
    has_focal(e, g) && forall|j: int| 0 <= j < e.len() ==> g <= #[trigger] e[j].focal
}

pub open spec fn max_focal(e: Seq<VigEntry>, g: int) -> bool {
    has_focal(e, g) && forall|j: int| 0 <= j < e.len() ==> #[trigger] e[j].focal <= g
}

/// `g` is the largest focal of the table below `f`.
pub open spec fn focal_below(e: Seq<VigEntry>, f: int, g: int) -> bool {
    has_focal(e, g) && g < f && forall|j: int| 0 <= j < e.len() && #[trigger] e[j].focal < f ==> e[j].focal <= g
}

/// `g` is the smallest focal of the table at or above `f`.
pub open spec fn focal_at_or_above(e: Seq<VigEntry>, f: int, g: int) -> bool {
    has_focal(e, g) && g >= f && forall|j: int| 0 <= j < e.len() && #[trigger] e[j].focal >= f ==> e[j].focal >= g
}

/// What resolving vignetting at focal `f`, aperture `ta` and distance `td`
/// gives: zeros for an empty table; at or beyond either end of the table the
/// best entry of the boundary group; in between, the best entries of the two
/// bracketing groups interpolated by focal length.
pub open spec fn vig_resolved(e: Seq<VigEntry>, f: int, ta: int, td: int, r: Coeffs) -> bool {
    &&& e.len() == 0 ==> r == (Coeffs { c1: 0, c2: 0, c3: 0, model: 0 })
    &&& forall|g: int| min_focal(e, g) && f <= g ==> r == group_best(e, g, ta, td)
    &&& forall|g: int| max_focal(e, g) && f >= g ==> r == group_best(e, g, ta, td)
    &&& forall|g1: int, g2: int|
        focal_below(e, f, g1) && focal_at_or_above(e, f, g2) && (exists|g: int| min_focal(e, g) && g < f)
            && (exists|g: int| max_focal(e, g) && g > f) ==> {
            let p = group_best(e, g1, ta, td);
            let q = group_best(e, g2, ta, td);
            r == (Coeffs {
                c1: lerp(p.c1 as int, q.c1 as int, f - g1, g2 - g1) as i64,
                c2: lerp(p.c2 as int, q.c2 as int, f - g1, g2 - g1) as i64,
                c3: lerp(p.c3 as int, q.c3 as int, f - g1, g2 - g1) as i64,
                model: 0,
            })
        }
}

fn abs_diff_exec(a: u32, b: u32) -> (r: u32)
    ensures
        r as int == abs_diff(a as int, b as int),
{
    if a >= b {
        a - b
    } else {
        b - a
    }
}

/// The best entry of the group of focal `g`.
#[verifier::rlimit(40)]
fn find_best_vig(e: &Vec<VigEntry>, g: u32, ta: u32, td: u32) -> (r: Coeffs)
    requires
        has_focal(e@, g as int),
    ensures
        r == group_best(e@, g as int, ta as int, td as int),
        r.model == 0,
{
    let len = e.len();
    let mut bi: usize = 0;
    let mut found = false;
    let mut k: usize = 0;
    while k < len
        invariant
            len == e@.len(),
            k <= len,
            found ==> bi < k && e@[bi as int].focal == g,
            !found ==> forall|j: int| 0 <= j < k ==> #[trigger] e@[j].focal != g,
            found ==> forall|j: int|
                0 <= j < k && #[trigger] e@[j].focal == g ==> abs_diff(e@[bi as int].aperture as int, ta as int)
                    <= abs_diff(e@[j].aperture as int, ta as int),
            found ==> forall|j: int|
                0 <= j < bi && #[trigger] e@[j].focal == g ==> abs_diff(e@[j].aperture as int, ta as int)
                    > abs_diff(e@[bi as int].aperture as int, ta as int),
        decreases len - k,
    {
        if e[k].focal == g {
            if !found || abs_diff_exec(e[k].aperture, ta) < abs_diff_exec(e[bi].aperture, ta) {
                bi = k;
                found = true;
            }
        }
        k = k + 1;
    }
    let a = e[bi].aperture;
    proof {
        assert(best_aperture(e@, g as int, ta as int, bi as int));
        assert forall|i2: int| best_aperture(e@, g as int, ta as int, i2) implies i2 == bi by {
            if i2 < bi {
                assert(e@[i2].focal == g);
            } else if i2 > bi {
                assert(e@[bi as int].focal == g);
            }
        }
    }
    let mut di: usize = bi;
    let mut k2: usize = 0;
    let mut found2 = false;
    while k2 < len
        invariant
            len == e@.len(),
            k2 <= len,
            bi < len,
            e@[bi as int].focal == g,
            e@[bi as int].aperture == a,
            found2 ==> di < k2 && e@[di as int].focal == g && e@[di as int].aperture == a,
            !found2 ==> forall|j: int| 0 <= j < k2 ==> !(#[trigger] e@[j].focal == g && e@[j].aperture == a),
            found2 ==> forall|j: int|
                0 <= j < k2 && #[trigger] e@[j].focal == g && e@[j].aperture == a ==> abs_diff(
                    e@[di as int].distance as int,
                    td as int,
                ) <= abs_diff(e@[j].distance as int, td as int),
            found2 ==> forall|j: int|
                0 <= j < di && #[trigger] e@[j].focal == g && e@[j].aperture == a ==> abs_diff(
                    e@[j].distance as int,
                    td as int,
                ) > abs_diff(e@[di as int].distance as int, td as int),
        decreases len - k2,
    {
        if e[k2].focal == g && e[k2].aperture == a {
            if !found2 || abs_diff_exec(e[k2].distance, td) < abs_diff_exec(e[di].distance, td) {
                di = k2;
                found2 = true;
            }
        }
        k2 = k2 + 1;
    }
    proof {
        if !found2 {
            assert(e@[bi as int].focal == g && e@[bi as int].aperture == a);
        }
        assert(best_distance(e@, g as int, a as int, td as int, di as int));
        assert forall|i2: int| best_distance(e@, g as int, a as int, td as int, i2) implies i2 == di by {
            if i2 < di {
                assert(e@[i2].focal == g && e@[i2].aperture == a);
            } else if i2 > di {
                assert(e@[di as int].focal == g && e@[di as int].aperture == a);
            }
        }
    }
    Coeffs { c1: e[di].k1, c2: e[di].k2, c3: e[di].k3, model: 0 }
}

/// Resolves vignetting coefficients for focal `f`, aperture `ta` and focus
/// distance `td`.
#[verifier::rlimit(40)]
pub fn resolve_vignetting(e: &Vec<VigEntry>, f: u32, ta: u32, td: u32) -> (r: Coeffs)
    ensures
        vig_resolved(e@, f as int, ta as int, td as int, r),
        r.model == 0,
{
    let len = e.len();
    if len == 0 {
        return Coeffs { c1: 0, c2: 0, c3: 0, model: 0 };
    }
    let mut mn: u32 = e[0].focal;
    let mut mx: u32 = e[0].focal;
    let mut lo: Option<u32> = None;
    let mut hi: Option<u32> = None;
    let mut k: usize = 0;
    while k < len
        invariant
            len == e@.len(),
            len > 0,
            k <= len,
            has_focal(e@, mn as int),
            has_focal(e@, mx as int),
            forall|j: int| 0 <= j < k ==> mn <= #[trigger] e@[j].focal,
            forall|j: int| 0 <= j < k ==> #[trigger] e@[j].focal <= mx,
            match lo {
                Some(g) => has_focal(e@, g as int) && g < f && forall|j: int|
                    0 <= j < k && #[trigger] e@[j].focal < f ==> e@[j].focal <= g,
                None => forall|j: int| 0 <= j < k ==> #[trigger] e@[j].focal >= f,
            },
            match hi {
                Some(g) => has_focal(e@, g as int) && g >= f && forall|j: int|
                    0 <= j < k && #[trigger] e@[j].focal >= f ==> e@[j].focal >= g,
                None => forall|j: int| 0 <= j < k ==> #[trigger] e@[j].focal < f,
            },
        decreases len - k,
    {
        let fk = e[k].focal;
        proof {
            assert(e@[k as int].focal == fk);
        }
        if fk < mn {
            mn = fk;
        }
        if fk > mx {
            mx = fk;
        }
        if fk < f {
            match lo {
                None => {
                    lo = Some(fk);
                },
                Some(g) => {
                    if fk > g {
                        lo = Some(fk);
                    }
                },
            }
        } else {
            match hi {
                None => {
                    hi = Some(fk);
                },
                Some(g) => {
                    if fk < g {
                        hi = Some(fk);
                    }
                },
            }
        }
        k = k + 1;
    }
    proof {
        assert(min_focal(e@, mn as int));
        assert(max_focal(e@, mx as int));
        assert forall|g: int| min_focal(e@, g) implies g == mn by {
            let j = choose|j: int| 0 <= j < e@.len() && #[trigger] e@[j].focal == g;
            let j2 = choose|j: int| 0 <= j < e@.len() && #[trigger] e@[j].focal == mn;
            assert(e@[j2].focal >= g);
        }
        assert forall|g: int| max_focal(e@, g) implies g == mx by {
            let j = choose|j: int| 0 <= j < e@.len() && #[trigger] e@[j].focal == g;
            let j2 = choose|j: int| 0 <= j < e@.len() && #[trigger] e@[j].focal == mx;
            assert(e@[j2].focal <= g);
        }
    }
    if f <= mn {
        return find_best_vig(e, mn, ta, td);
    }
    if f >= mx {
        return find_best_vig(e, mx, ta, td);
    }
    let g1 = match lo {
        Some(g) => g,
        None => {
            proof {
                let j2 = choose|j: int| 0 <= j < e@.len() && #[trigger] e@[j].focal == mn;
            }
            return Coeffs { c1: 0, c2: 0, c3: 0, model: 0 };
        },
    };
    let g2 = match hi {
        Some(g) => g,
        None => {
            proof {
                let j2 = choose|j: int| 0 <= j < e@.len() && #[trigger] e@[j].focal == mx;
            }
            return Coeffs { c1: 0, c2: 0, c3: 0, model: 0 };
        },
    };
    proof {
        assert forall|g: int| focal_below(e@, f as int, g) implies g == g1 by {
            let j = choose|j: int| 0 <= j < e@.len() && #[trigger] e@[j].focal == g;
            let j2 = choose|j: int| 0 <= j < e@.len() && #[trigger] e@[j].focal == g1;
        }
        assert forall|g: int| focal_at_or_above(e@, f as int, g) implies g == g2 by {
            let j = choose|j: int| 0 <= j < e@.len() && #[trigger] e@[j].focal == g;
            let j2 = choose|j: int| 0 <= j < e@.len() && #[trigger] e@[j].focal == g2;
        }
    }
    let p = find_best_vig(e, g1, ta, td);
    let q = find_best_vig(e, g2, ta, td);
    let n = f - g1;
    let d = g2 - g1;
    Coeffs { c1: lerp_exec(p.c1, q.c1, n, d), c2: lerp_exec(p.c2, q.c2, n, d), c3: lerp_exec(p.c3, q.c3, n, d), model: 0 }
}

/// A name in one language (`lang` absent for the default).
#[derive(Clone, Debug)]
pub struct MultiName {
    pub lang: Option<String>,
    pub value: String,
}

#[derive(Clone, Copy, Debug, PartialEq, Eq, Structural)]
pub struct Focal {
    pub value: Option<u32>,
    pub min: Option<u32>,
    pub max: Option<u32>,
}

#[derive(Clone, Copy, Debug, PartialEq, Eq, Structural)]
pub struct Aperture {
    pub min: Option<u32>,
    pub max: Option<u32>,
}

/// A lens of the calibration database.
#[derive(Clone, Debug)]
pub struct Lens {
    pub maker: Vec<MultiName>,
    pub model: Vec<MultiName>,
    pub mount: Vec<String>,
    pub cropfactor: Option<u32>,
    pub calibration: Option<Calibration>,
    pub type_: Option<String>,
    pub focal: Option<Focal>,
    pub aspect_ratio: Option<String>,
    pub center: Option<String>,
    pub compat: Option<String>,
    pub notes: Option<String>,
    pub aperture: Option<Aperture>,
}

/// Neutral distortion: no correction.
pub open spec fn neutral_distortion() -> Coeffs {
    Coeffs { c1: 0, c2: 0, c3: 0, model: 0 }
}

/// Neutral TCA: unit scale factors.
pub open spec fn neutral_tca() -> Coeffs {
    Coeffs { c1: COEF_ONE, c2: COEF_ONE, c3: 0, model: 0 }
}

/// The parameters of a lens without calibration data: no distortion, unit
/// TCA scale factors, no vignetting.
pub open spec fn neutral_params() -> LensDistortionParams {
    LensDistortionParams {
        k1: 0,
        k2: 0,
        k3: 0,
        model: 0,
        tca_vr: COEF_ONE,
        tca_vb: COEF_ONE,
        vig_k1: 0,
        vig_k2: 0,
        vig_k3: 0,
    }
}

/// The parameters resolved from a calibration table for focal `f`, aperture
/// `ta` and focus distance `td`.
pub open spec fn params_resolved(cal: Calibration, f: int, ta: int, td: int, p: LensDistortionParams) -> bool {
    let es = cal.elements@;
    &&& focal_resolved(
        distortions(es),
        f,
        neutral_distortion(),
        Coeffs { c1: p.k1, c2: p.k2, c3: p.k3, model: p.model },
    )
    &&& exists|t: Coeffs| focal_resolved(tcas(es), f, neutral_tca(), t) && t.c1 == p.tca_vr && t.c2 == p.tca_vb
    &&& vig_resolved(
        vignettings(es),
        f,
        ta,
        td,
        Coeffs { c1: p.vig_k1, c2: p.vig_k2, c3: p.vig_k3, model: 0 },
    )
}

impl Lens {
    /// Correction parameters for a shot at `focal_length`, with the given or
    /// default aperture and focus distance. A lens without calibration data,
    /// like a category without entries, gives the neutral values.
    pub fn get_distortion_params(&self, focal_length: u32, aperture: Option<u32>, distance: Option<u32>) -> (r:
        Option<LensDistortionParams>)
        ensures
            match self.calibration {
                None => r == Some(neutral_params()),
                Some(cal) => match r {
                    Some(p) => params_resolved(
                        cal,
                        focal_length as int,
                        match aperture {
                            Some(a) => a as int,
                            None => DEFAULT_APERTURE as int,
                        },
                        match distance {
                            Some(d) => d as int,
                            None => DEFAULT_DISTANCE as int,
                        },
                        p,
                    ),
                    None => false,
                },
            },
    {
        let cal = match &self.calibration {
            Some(c) => c,
            None => {
                return Some(
                    LensDistortionParams {
                        k1: 0,
                        k2: 0,
                        k3: 0,
                        model: 0,
                        tca_vr: COEF_ONE,
                        tca_vb: COEF_ONE,
                        vig_k1: 0,
                        vig_k2: 0,
                        vig_k3: 0,
                    },
                )
            },
        };
        let (ds, ts, vs) = split_calibration(cal);
        let d = resolve_focal(&ds, focal_length, Coeffs { c1: 0, c2: 0, c3: 0, model: 0 });
        let t = resolve_focal(&ts, focal_length, Coeffs { c1: COEF_ONE, c2: COEF_ONE, c3: 0, model: 0 });
        let ta = match aperture {
            Some(a) => a,
            None => DEFAULT_APERTURE,
        };
        let td = match distance {
            Some(x) => x,
            None => DEFAULT_DISTANCE,
        };
        let v = resolve_vignetting(&vs, focal_length, ta, td);
        let p = LensDistortionParams {
            k1: d.c1,
            k2: d.c2,
            k3: d.c3,
            model: d.model,
            tca_vr: t.c1,
            tca_vb: t.c2,
            vig_k1: v.c1,
            vig_k2: v.c2,
            vig_k3: v.c3,
        };
        assert(focal_resolved(tcas(cal.elements@), focal_length as int, neutral_tca(), t));
        Some(p)
    }
}

/// What `str::to_lowercase` returns for `s`.
pub uninterp spec fn lower_of(s: Seq<char>) -> Seq<char>;

/// Relies on `str::to_lowercase`: the result depends on the characters alone.
#[verifier::external_body]
fn lowercase(s: &str) -> (r: String)
    ensures
        r@ == lower_of(s@),
{
    s.to_lowercase()
}

/// The name is tagged as English.
pub open spec fn is_english(n: MultiName) -> bool {
    match n.lang {
        Some(l) => l@ == "en"@,
        None => false,
    }
}

/// Entry `i` is the first English name.
pub open spec fn first_english(names: Seq<MultiName>, i: int) -> bool {
    0 <= i < names.len() && is_english(names[i]) && forall|j: int| 0 <= j < i ==> !is_english(#[trigger] names[j])
}

/// The name to show: the first English one, else the first one, else `fallback`.
pub open spec fn preferred_name(names: Seq<MultiName>, fallback: Seq<char>) -> Seq<char> {
    if exists|i: int| first_english(names, i) {
        names[choose|i: int| first_english(names, i)].value@
    } else if names.len() > 0 {
        names[0].value@
    } else {
        fallback
    }
}

fn pick_name(names: &Vec<MultiName>, fallback: &str) -> (r: String)
    ensures
        r@ == preferred_name(names@, fallback@),
{
    let en = String::from_str("en");
    let mut i: usize = 0;
    while i < names.len()
        invariant
            i <= names@.len(),
            en@ == "en"@,
            forall|j: int| 0 <= j < i ==> !is_english(#[trigger] names@[j]),
        decreases names@.len() - i,
    {
        let hit = match &names[i].lang {
            Some(l) => *l == en,
            None => false,
        };
        if hit {
            proof {
                assert(first_english(names@, i as int));
                assert forall|i2: int| first_english(names@, i2) implies i2 == i by {
                    if i2 < i {
                        assert(!is_english(names@[i2]));
                    } else if i2 > i {
                        assert(!is_english(names@[i as int]));
                    }
                }
            }
            return names[i].value.clone();
        }
        i = i + 1;
    }
    assert(!exists|i: int| first_english(names@, i));
    if names.len() > 0 {
        names[0].value.clone()
    } else {
        String::from_str(fallback)
    }
}

/// The lens name without a leading maker name (compared case-insensitively
/// through the lowercase forms `raw_lower` and `maker_lower`), trimmed; the
/// full name where that would leave nothing.
pub open spec fn name_without_maker(
    raw: Seq<char>,
    maker: Seq<char>,
    raw_lower: Seq<char>,
    maker_lower: Seq<char>,
) -> Seq<char> {
    if maker_lower.is_prefix_of(raw_lower) && maker.len() <= raw.len() && trimmed(
        raw.subrange(maker.len() as int, raw.len() as int),
    ).len() > 0 {
        trimmed(raw.subrange(maker.len() as int, raw.len() as int))
    } else {
        raw
    }
}

/// Strips the maker from a lens name, given both names and their lowercase forms.
pub fn strip_maker(raw: &str, maker: &str, raw_lower: &str, maker_lower: &str) -> (r: String)
    ensures
        r@ == name_without_maker(raw@, maker@, raw_lower@, maker_lower@),
{
    let rl = raw_lower.unicode_len();
    let ml = maker_lower.unicode_len();
    let mut prefix = ml <= rl;
    let mut i: usize = 0;
    while prefix && i < ml
        invariant
            rl == raw_lower@.len(),
            ml == maker_lower@.len(),
            prefix ==> ml <= rl,
            i <= ml,
            prefix ==> forall|j: int| 0 <= j < i ==> maker_lower@[j] == raw_lower@[j],
            !prefix ==> !maker_lower@.is_prefix_of(raw_lower@),
        decreases ml - i,
    {
        if maker_lower.get_char(i) != raw_lower.get_char(i) {
            prefix = false;
        }
        i = i + 1;
    }
    if prefix {
        assert(maker_lower@ =~= raw_lower@.subrange(0, ml as int));
    }
    let n = raw.unicode_len();
    let m = maker.unicode_len();
    if prefix && m <= n {
        let rest = raw.substring_char(m, n);
        let t = trim_str(rest);
        if t.unicode_len() > 0 {
            return String::from_str(t);
        }
    }
    String::from_str(raw)
}

impl Lens {
    /// The model name: the English one, else the first, else `Unknown Model`.
    pub fn get_full_model_name(&self) -> (r: String)
        ensures
            r@ == preferred_name(self.model@, "Unknown Model"@),
    {
        pick_name(&self.model, "Unknown Model")
    }

    /// The maker name: the English one, else the first, else `Misc`.
    pub fn get_maker(&self) -> (r: String)
        ensures
            r@ == preferred_name(self.maker@, "Misc"@),
    {
        pick_name(&self.maker, "Misc")
    }

    /// The model name without a leading maker name.
    pub fn get_name(&self) -> (r: String)
        ensures
            r@ == lens_name(*self),
    {
        let raw = self.get_full_model_name();
        let maker = self.get_maker();
        let raw_lower = lowercase(raw.as_str());
        let maker_lower = lowercase(maker.as_str());
        strip_maker(raw.as_str(), maker.as_str(), raw_lower.as_str(), maker_lower.as_str())
    }
}

/// The maker name shown for a lens.
pub open spec fn lens_maker(l: Lens) -> Seq<char> {
    preferred_name(l.maker@, "Misc"@)
}

/// The short name shown for a lens: its model name without the maker.
pub open spec fn lens_name(l: Lens) -> Seq<char> {
    let raw = preferred_name(l.model@, "Unknown Model"@);
    let maker = lens_maker(l);
    name_without_maker(raw, maker, lower_of(raw), lower_of(maker))
}

pub open spec fn lens_matches(l: Lens, maker: Seq<char>, model: Seq<char>) -> bool {
    lens_maker(l) == maker && lens_name(l) == model
}

/// A camera of the calibration database.
#[derive(Clone, Debug)]
pub struct Camera {
    pub maker: Vec<MultiName>,
    pub model: Vec<MultiName>,
    pub mount: String,
    /// Crop factor in thousandths.
    pub cropfactor: u32,
}

/// The calibration database: cameras and lenses.
#[derive(Clone, Debug)]
pub struct LensDatabase {
    pub cameras: Vec<Camera>,
    pub lenses: Vec<Lens>,
}

impl LensDatabase {
    /// Index of the first lens shown as `maker` / `model`.
    pub fn find_lens(&self, maker: &str, model: &str) -> (r: Option<usize>)
        ensures
            match r {
                Some(i) => i < self.lenses@.len() && lens_matches(self.lenses@[i as int], maker@, model@)
                    && forall|j: int| 0 <= j < i ==> !lens_matches(#[trigger] self.lenses@[j], maker@, model@),
                None => forall|j: int|
                    0 <= j < self.lenses@.len() ==> !lens_matches(#[trigger] self.lenses@[j], maker@, model@),
            },
    {
        let mk = String::from_str(maker);
        let md = String::from_str(model);
        let mut i: usize = 0;
        while i < self.lenses.len()
            invariant
                i <= self.lenses@.len(),
                mk@ == maker@,
                md@ == model@,
                forall|j: int| 0 <= j < i ==> !lens_matches(#[trigger] self.lenses@[j], maker@, model@),
            decreases self.lenses@.len() - i,
        {
            let l = &self.lenses[i];
            if l.get_maker() == mk && l.get_name() == md {
                return Some(i);
            }
            i = i + 1;
        }
        None
    }
}

/// Correction parameters of the lens shown as `maker` / `model`; `None` when
/// the database has no such lens or the lens has no calibration data.
#[verifier::rlimit(40)]
pub fn get_lens_distortion_params(
    db: &LensDatabase,
    maker: &str,
    model: &str,
    focal_length: u32,
    aperture: Option<u32>,
    distance: Option<u32>,
) -> (r: Option<LensDistortionParams>)
    ensures
        (forall|j: int| 0 <= j < db.lenses@.len() ==> !lens_matches(#[trigger] db.lenses@[j], maker@, model@))
            ==> r is None,
        forall|i: int|
            0 <= i < db.lenses@.len() && lens_matches(db.lenses@[i], maker@, model@) && (forall|j: int|
                0 <= j < i ==> !lens_matches(#[trigger] db.lenses@[j], maker@, model@)) ==> match db.lenses@[i].calibration {
                None => r == Some(neutral_params()),
                Some(cal) => match r {
                    Some(p) => params_resolved(
                        cal,
                        focal_length as int,
                        match aperture {
                            Some(a) => a as int,
                            None => DEFAULT_APERTURE as int,
                        },
                        match distance {
                            Some(d) => d as int,
                            None => DEFAULT_DISTANCE as int,
                        },
                        p,
                    ),
                    None => false,
                },
            },
{
    match db.find_lens(maker, model) {
        Some(i) => {
            proof {
                assert forall|i2: int|
                    0 <= i2 < db.lenses@.len() && lens_matches(db.lenses@[i2], maker@, model@) && (forall|j: int|
                        0 <= j < i2 ==> !lens_matches(#[trigger] db.lenses@[j], maker@, model@)) implies i2 == i by {
                    if i2 < i {
                    } else if i2 > i {
                        assert(lens_matches(db.lenses@[i as int], maker@, model@));
                    }
                }
            }
            db.lenses[i].get_distortion_params(focal_length, aperture, distance)
        },
        None => None,
    }
}

} // verus!
