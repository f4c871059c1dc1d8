//! Reconstruction of full-color pixels from a single-channel color-filter-array mosaic.
use vstd::prelude::*;
use crate::geometry::Rect;
use crate::intermediate::{
    chan_of, col_of, lemma_index_decomp, lemma_index_in_range, lemma_mul_le_mul_n, lemma_sub_area,
    row_of, ImageModel, Intermediate, Pixels,
};

verus! {

/// The demosaicing algorithm to use.
#[derive(Clone, Copy, Debug, PartialEq, Eq, Structural)]
pub enum DemosaicAlgorithm {
    /// Full resolution: each missing color is estimated from its neighborhood.
    Quality,
    /// Half resolution in each axis: each 2x2 block is binned into one pixel.
    Speed,
}

impl DemosaicAlgorithm {
    pub fn default() -> (r: DemosaicAlgorithm)
        ensures
            r == DemosaicAlgorithm::Quality,
    {
        DemosaicAlgorithm::Quality
    }
}

/// A color-filter-array pattern: a `width x height` tile of color indices
/// repeated over the sensor.
#[derive(Clone, Debug)]
pub struct Cfa {
    pub name: String,
    pub width: usize,
    pub height: usize,
    pub colors: Vec<u8>,
}

impl Cfa {
    pub open spec fn wf(&self) -> bool {
        &&& self.width > 0
        &&& self.height > 0
        &&& self.colors@.len() == self.width * self.height
    }

    /// Color index of the sensor site `(x, y)`.
    pub open spec fn spec_color_at(&self, x: int, y: int) -> int {
        self.colors@[(y % (self.height as int)) * self.width + x % (self.width as int)] as int
    }

    /// Every cell of the tile is red, green or blue.
    pub open spec fn spec_is_rgb(&self) -> bool {
        forall|i: int| 0 <= i < self.colors@.len() ==> self.colors@[i] < 3
    }

    /// The tile uses exactly the four colors `0..4`.
    pub open spec fn spec_is_four_color(&self) -> bool {
        &&& forall|i: int| 0 <= i < self.colors@.len() ==> self.colors@[i] < 4
        &&& self.tile_has(0)
        &&& self.tile_has(1)
        &&& self.tile_has(2)
        &&& self.tile_has(3)
    }

    /// Some cell of the tile has color `c`.
    pub open spec fn tile_has(&self, c: int) -> bool {
        exists|i: int| 0 <= i < self.colors@.len() && #[trigger] self.colors@[i] == c
    }

    pub fn color_at(&self, x: usize, y: usize) -> (c: u8)
        requires
            self.wf(),
        ensures
            c as int == self.spec_color_at(x as int, y as int),
    {
        let row = y % self.height;
        let col = x % self.width;
        let len = self.colors.len();
        proof {
            lemma_index_decomp(col as int, row as int, 0, self.width as int, self.height as int, 1);
            assert(row as int * self.width as int <= row as int * self.width as int + col as int);
        }
        self.colors[row * self.width + col]
    }

    pub fn is_rgb(&self) -> (r: bool)
        ensures
            r == self.spec_is_rgb(),
    {
        let mut i: usize = 0;
        while i < self.colors.len()
            invariant
                i <= self.colors@.len(),
                forall|j: int| 0 <= j < i ==> self.colors@[j] < 3,
            decreases self.colors@.len() - i,
        {
            if self.colors[i] >= 3 {
                return false;
            }
            i = i + 1;
        }
        true
    }

    /// Whether color `c` occurs in the tile.
    fn has_color(&self, c: u8) -> (r: bool)
        ensures
            r == exists|i: int| 0 <= i < self.colors@.len() && #[trigger] self.colors@[i] == c,
    {
        let mut i: usize = 0;
        while i < self.colors.len()
            invariant
                i <= self.colors@.len(),
                forall|j: int| 0 <= j < i ==> self.colors@[j] != c,
            decreases self.colors@.len() - i,
        {
            if self.colors[i] == c {
                return true;
            }
            i = i + 1;
        }
        false
    }

    pub fn is_four_color(&self) -> (r: bool)
        ensures
            r == self.spec_is_four_color(),
    {
        let mut i: usize = 0;
        while i < self.colors.len()
            invariant
                i <= self.colors@.len(),
                forall|j: int| 0 <= j < i ==> self.colors@[j] < 4,
            decreases self.colors@.len() - i,
        {
            if self.colors[i] >= 4 {
                return false;
            }
            i = i + 1;
        }
        let h0 = self.has_color(0);
        let h1 = self.has_color(1);
        let h2 = self.has_color(2);
        let h3 = self.has_color(3);
        h0 && h1 && h2 && h3
    }

    /// An X-Trans style 6x6 tile.
    pub open spec fn spec_is_six_by_six(&self) -> bool {
        self.width == 6 && self.height == 6
    }
}

/// The mosaic and region a demosaic call reads: the region lies inside the mosaic.
pub open spec fn input_ok(m: Pixels, cfa: Cfa, roi: Rect) -> bool {
    &&& m.wf(1)
    &&& cfa.wf()
    &&& roi.fits(m.width as int, m.height as int)
}

/// The raw sample at `(lx, ly)` relative to the region's corner.
pub open spec fn sample(m: ImageModel, roi: Rect, lx: int, ly: int) -> int {
    m.data[(roi.y + ly) * m.width + roi.x + lx] as int
}

pub open spec fn site_color(cfa: Cfa, roi: Rect, lx: int, ly: int) -> int {
    cfa.spec_color_at(roi.x + lx, roi.y + ly)
}

/// Cell `k` of the `(2r+1) x (2r+1)` window centred on `(lx, ly)`, relative to the region.
pub open spec fn win_x(lx: int, r: int, k: int) -> int {
    lx + k % (2 * r + 1) - r
}

pub open spec fn win_y(ly: int, r: int, k: int) -> int {
    ly + k / (2 * r + 1) - r
}

/// Window cell `k` lies in the region and carries color `c`.
pub open spec fn win_hit(cfa: Cfa, roi: Rect, lx: int, ly: int, c: int, r: int, k: int) -> bool {
    let nx = win_x(lx, r, k);
    let ny = win_y(ly, r, k);
    0 <= nx < roi.w && 0 <= ny < roi.h && site_color(cfa, roi, nx, ny) == c
}

/// Sum of the samples of color `c` over the first `k` window cells.
pub open spec fn win_sum(m: ImageModel, cfa: Cfa, roi: Rect, lx: int, ly: int, c: int, r: int, k: int) -> int
    decreases k,
{
    if k <= 0 {
        0
    } else {
        win_sum(m, cfa, roi, lx, ly, c, r, k - 1) + if win_hit(cfa, roi, lx, ly, c, r, k - 1) {
            sample(m, roi, win_x(lx, r, k - 1), win_y(ly, r, k - 1))
        } else {
            0
        }
    }
}

/// Number of samples of color `c` among the first `k` window cells.
pub open spec fn win_count(cfa: Cfa, roi: Rect, lx: int, ly: int, c: int, r: int, k: int) -> int
    decreases k,
{
    if k <= 0 {
        0
    } else {
        win_count(cfa, roi, lx, ly, c, r, k - 1) + if win_hit(cfa, roi, lx, ly, c, r, k - 1) {
            1int
        } else {
            0
        }
    }
}

/// The mean of the color-`c` samples in the window of radius `r`, or the
/// site's own sample when the window holds none.
pub open spec fn interp(m: ImageModel, cfa: Cfa, roi: Rect, lx: int, ly: int, c: int, r: int) -> int {
    let cells = (2 * r + 1) * (2 * r + 1);
    let cnt = win_count(cfa, roi, lx, ly, c, r, cells);
    if cnt == 0 {
        sample(m, roi, lx, ly)
    } else {
        win_sum(m, cfa, roi, lx, ly, c, r, cells) / cnt
    }
}

pub open spec fn abs_diff(a: int, b: int) -> int {
    if a >= b {
        a - b
    } else {
        b - a
    }
}

/// Green at a red or blue site, interpolated along the smoother direction:
/// the pair of green neighbors (left/right or up/down) that differ less, or
/// all four when both pairs differ equally. `None` where the four direct
/// neighbors are not all green samples of the region.
pub open spec fn edge_green(m: ImageModel, cfa: Cfa, roi: Rect, lx: int, ly: int) -> Option<int> {
    if 1 <= lx && lx + 1 < roi.w && 1 <= ly && ly + 1 < roi.h && site_color(cfa, roi, lx - 1, ly) == 1
        && site_color(cfa, roi, lx + 1, ly) == 1 && site_color(cfa, roi, lx, ly - 1) == 1 && site_color(
        cfa,
        roi,
        lx,
        ly + 1,
    ) == 1 {
        let l = sample(m, roi, lx - 1, ly);
        let r = sample(m, roi, lx + 1, ly);
        let u = sample(m, roi, lx, ly - 1);
        let d = sample(m, roi, lx, ly + 1);
        Some(
            if abs_diff(l, r) < abs_diff(u, d) {
                (l + r) / 2
            } else if abs_diff(u, d) < abs_diff(l, r) {
                (u + d) / 2
            } else {
                (l + r + u + d) / 4
            },
        )
    } else {
        None
    }
}

/// Full-resolution value of color `c` at `(lx, ly)`: the raw sample where the
/// site has that color; with `edge_aware`, green from the smoother direction
/// where [`edge_green`] applies; else the neighborhood estimate.
pub open spec fn full_value(m: ImageModel, cfa: Cfa, roi: Rect, lx: int, ly: int, c: int, r: int, edge_aware: bool) -> int {
    if site_color(cfa, roi, lx, ly) == c {
        sample(m, roi, lx, ly)
    } else if edge_aware && c == 1 && edge_green(m, cfa, roi, lx, ly) is Some {
        edge_green(m, cfa, roi, lx, ly)->Some_0
    } else {
        interp(m, cfa, roi, lx, ly, c, r)
    }
}

/// The full-resolution output buffer with `n` colors.
pub open spec fn full_seq(m: ImageModel, cfa: Cfa, roi: Rect, n: int, r: int, edge_aware: bool) -> Seq<u32> {
    Seq::new(
        (roi.w * roi.h * n) as nat,
        |k: int|
            full_value(
                m,
                cfa,
                roi,
                col_of(k, roi.w as int, n),
                row_of(k, roi.w as int, n),
                chan_of(k, n),
                r,
                edge_aware,
            ) as u32,
    )
}

/// Cell `k` (of 4) of the 2x2 block binned into output pixel `(bx, by)`.
pub open spec fn block_x(bx: int, k: int) -> int {
    2 * bx + k % 2
}

pub open spec fn block_y(by: int, k: int) -> int {
    2 * by + k / 2
}

pub open spec fn block_hit(cfa: Cfa, roi: Rect, bx: int, by: int, c: int, k: int) -> bool {
    site_color(cfa, roi, block_x(bx, k), block_y(by, k)) == c
}

pub open spec fn block_sum(m: ImageModel, cfa: Cfa, roi: Rect, bx: int, by: int, c: int, k: int) -> int
    decreases k,
{
    if k <= 0 {
        0
    } else {
        block_sum(m, cfa, roi, bx, by, c, k - 1) + if block_hit(cfa, roi, bx, by, c, k - 1) {
            sample(m, roi, block_x(bx, k - 1), block_y(by, k - 1))
        } else {
            0
        }
    }
}

pub open spec fn block_count(cfa: Cfa, roi: Rect, bx: int, by: int, c: int, k: int) -> int
    decreases k,
{
    if k <= 0 {
        0
    } else {
        block_count(cfa, roi, bx, by, c, k - 1) + if block_hit(cfa, roi, bx, by, c, k - 1) {
            1int
        } else {
            0
        }
    }
}

/// Radius of the neighborhood used where a 2x2 block lacks a color.
pub open spec fn fallback_radius() -> int {
    2
}

/// Binned value of color `c` for output pixel `(bx, by)`: the mean of the
/// block's samples of that color, or the neighborhood estimate at the
/// block's corner when the block has none.
pub open spec fn block_value(m: ImageModel, cfa: Cfa, roi: Rect, bx: int, by: int, c: int) -> int {
    let cnt = block_count(cfa, roi, bx, by, c, 4);
    if cnt == 0 {
        interp(m, cfa, roi, 2 * bx, 2 * by, c, fallback_radius())
    } else {
        block_sum(m, cfa, roi, bx, by, c, 4) / cnt
    }
}

/// The half-resolution output buffer with `n` colors.
pub open spec fn speed_seq(m: ImageModel, cfa: Cfa, roi: Rect, n: int) -> Seq<u32> {
    let ow = roi.w / 2;
    let oh = roi.h / 2;
    Seq::new(
        (ow * oh * n) as nat,
        |k: int|
            block_value(m, cfa, roi, col_of(k, ow as int, n), row_of(k, ow as int, n), chan_of(k, n))
                as u32,
    )
}

/// Bayer-like patterns (red/green/blue, not 6x6) interpolate green along edges.
pub open spec fn edge_aware_pattern(cfa: Cfa) -> bool {
    cfa.spec_is_rgb() && !cfa.spec_is_six_by_six()
}

/// Neighborhood radius of the full-resolution estimate for a pattern.
pub open spec fn quality_radius(cfa: Cfa) -> int {
    if cfa.spec_is_six_by_six() {
        2
    } else {
        1
    }
}

/// The largest sample value.
pub open spec fn sample_max() -> int {
    0xFFFF_FFFF
}

fn sample_at(m: &Pixels, roi: Rect, lx: usize, ly: usize) -> (v: u32)
    requires
        m.wf(1),
        roi.fits(m.width as int, m.height as int),
        lx < roi.w,
        ly < roi.h,
    ensures
        v as int == sample(m.model(1), roi, lx as int, ly as int),
{
    let len = m.data.len();
    let x = roi.x + lx;
    let y = roi.y + ly;
    proof {
        lemma_index_decomp(x as int, y as int, 0, m.width as int, m.height as int, 1);
        assert(y as int * m.width as int <= y as int * m.width as int + x as int);
    }
    m.data[y * m.width + x]
}

/// A sum of `cnt` samples divided by `cnt` is itself a sample value.
proof fn lemma_mean_bound(sum: int, cnt: int)
    requires
        cnt > 0,
        0 <= sum <= cnt * sample_max(),
    ensures
        0 <= sum / cnt <= sample_max(),
{
    vstd::arithmetic::div_mod::lemma_div_is_ordered(sum, cnt * sample_max(), cnt);
    vstd::arithmetic::div_mod::lemma_div_multiples_vanish(sample_max(), cnt);
    vstd::arithmetic::div_mod::lemma_div_pos_is_pos(sum, cnt);
}

/// The coordinate `p + d - r` when it lies in `0..len`.
fn offset_within(p: usize, d: usize, r: usize, len: usize) -> (o: Option<usize>)
    requires
        p < len,
        r <= 2,
        d <= 4,
    ensures
        match o {
            Some(v) => v as int == p + d - r && v < len,
            None => !(0 <= p + d - r < len),
        },
{
    if d >= r {
        let off = d - r;
        if off < len - p {
            Some(p + off)
        } else {
            None
        }
    } else {
        let back = r - d;
        if back <= p {
            Some(p - back)
        } else {
            None
        }
    }
}

/// Mean of the color-`c` samples in the window of radius `r` around `(lx, ly)`.
#[verifier::rlimit(40)]
fn window_mean(m: &Pixels, cfa: &Cfa, roi: Rect, lx: usize, ly: usize, c: usize, r: usize) -> (v: u32)
    requires
        input_ok(*m, *cfa, roi),
        lx < roi.w,
        ly < roi.h,
        1 <= r <= 2,
    ensures
        v as int == interp(m.model(1), *cfa, roi, lx as int, ly as int, c as int, r as int),
{
    let side = 2 * r + 1;
    proof {
        assert(side * side <= 25) by (nonlinear_arith)
            requires
                side <= 5,
                side >= 0,
        ;
    }
    let cells = side * side;
    let mut sum: u64 = 0;
    let mut cnt: u64 = 0;
    let mut k: usize = 0;
    while k < cells
        invariant
            input_ok(*m, *cfa, roi),
            lx < roi.w,
            ly < roi.h,
            1 <= r <= 2,
            side == 2 * r + 1,
            cells == side * side,
            cells <= 25,
            k <= cells,
            sum as int == win_sum(m.model(1), *cfa, roi, lx as int, ly as int, c as int, r as int, k as int),
            cnt as int == win_count(*cfa, roi, lx as int, ly as int, c as int, r as int, k as int),
            cnt <= k,
            sum as int <= cnt as int * sample_max(),
        decreases cells - k,
    {
        let dx = k % side;
        let dy = k / side;
        proof {
            assert(dy <= 4) by (nonlinear_arith)
                requires
                    k < side * side,
                    side <= 5,
                    side >= 3,
                    dy == k / side,
            {
                vstd::arithmetic::div_mod::lemma_div_is_ordered(k as int, side * side - 1, side as int);
                vstd::arithmetic::div_mod::lemma_fundamental_div_mod(k as int, side as int);
            }
        }
        let nx = offset_within(lx, dx, r, roi.w);
        let ny = offset_within(ly, dy, r, roi.h);
        match (nx, ny) {
            (Some(nx), Some(ny)) => {
                let site = cfa.color_at(roi.x + nx, roi.y + ny);
                if site as usize == c {
                    let s = sample_at(m, roi, nx, ny);
                    sum = sum + s as u64;
                    cnt = cnt + 1;
                }
            },
            _ => {},
        }
        k = k + 1;
    }
    if cnt == 0 {
        sample_at(m, roi, lx, ly)
    } else {
        proof {
            lemma_mean_bound(sum as int, cnt as int);
        }
        (sum / cnt) as u32
    }
}

/// Mean of the color-`c` samples of the 2x2 block binned into `(bx, by)`.
fn block_mean(m: &Pixels, cfa: &Cfa, roi: Rect, bx: usize, by: usize, c: usize) -> (v: u32)
    requires
        input_ok(*m, *cfa, roi),
        bx < roi.w / 2,
        by < roi.h / 2,
    ensures
        v as int == block_value(m.model(1), *cfa, roi, bx as int, by as int, c as int),
{
    let mut sum: u64 = 0;
    let mut cnt: u64 = 0;
    let mut k: usize = 0;
    while k < 4
        invariant
            input_ok(*m, *cfa, roi),
            bx < roi.w / 2,
            by < roi.h / 2,
            k <= 4,
            sum as int == block_sum(m.model(1), *cfa, roi, bx as int, by as int, c as int, k as int),
            cnt as int == block_count(*cfa, roi, bx as int, by as int, c as int, k as int),
            cnt <= k,
            sum as int <= cnt as int * sample_max(),
        decreases 4 - k,
    {
        let x = 2 * bx + k % 2;
        let y = 2 * by + k / 2;
        let site = cfa.color_at(roi.x + x, roi.y + y);
        if site as usize == c {
            let s = sample_at(m, roi, x, y);
            sum = sum + s as u64;
            cnt = cnt + 1;
        }
        k = k + 1;
    }
    if cnt == 0 {
        window_mean(m, cfa, roi, 2 * bx, 2 * by, c, 2)
    } else {
        proof {
            lemma_mean_bound(sum as int, cnt as int);
        }
        (sum / cnt) as u32
    }
}

fn green_along_edge(m: &Pixels, cfa: &Cfa, roi: Rect, lx: usize, ly: usize) -> (o: Option<u32>)
    requires
        input_ok(*m, *cfa, roi),
        lx < roi.w,
        ly < roi.h,
    ensures
        match o {
            Some(v) => edge_green(m.model(1), *cfa, roi, lx as int, ly as int) == Some(v as int),
            None => edge_green(m.model(1), *cfa, roi, lx as int, ly as int) is None,
        },
{
    if 1 <= lx && lx + 1 < roi.w && 1 <= ly && ly + 1 < roi.h {
        let gl = cfa.color_at(roi.x + lx - 1, roi.y + ly);
        let gr = cfa.color_at(roi.x + lx + 1, roi.y + ly);
        let gu = cfa.color_at(roi.x + lx, roi.y + ly - 1);
        let gd = cfa.color_at(roi.x + lx, roi.y + ly + 1);
        if gl == 1 && gr == 1 && gu == 1 && gd == 1 {
            let l = sample_at(m, roi, lx - 1, ly) as u64;
            let r = sample_at(m, roi, lx + 1, ly) as u64;
            let u = sample_at(m, roi, lx, ly - 1) as u64;
            let d = sample_at(m, roi, lx, ly + 1) as u64;
            let dh = if l >= r { l - r } else { r - l };
            let dv = if u >= d { u - d } else { d - u };
            let v = if dh < dv {
                (l + r) / 2
            } else if dv < dh {
                (u + d) / 2
            } else {
                (l + r + u + d) / 4
            };
            Some(v as u32)
        } else {
            None
        }
    } else {
        None
    }
}

/// Full-resolution reconstruction of `n` colors over the region.
#[verifier::rlimit(40)]
fn full_buffer(m: &Pixels, cfa: &Cfa, roi: Rect, n: usize, r: usize, edge: bool) -> (data: Vec<u32>)
    requires
        input_ok(*m, *cfa, roi),
        3 <= n <= 4,
        1 <= r <= 2,
        roi.w * roi.h * 4 <= usize::MAX,
    ensures
        data@ == full_seq(m.model(1), *cfa, roi, n as int, r as int, edge),
{
    proof {
        assert(roi.w * roi.h * n <= roi.w * roi.h * 4) by (nonlinear_arith)
            requires
                n <= 4,
        ;
    }
    let total = roi.w * roi.h * n;
    let mut data: Vec<u32> = Vec::with_capacity(total);
    let mut k: usize = 0;
    while k < total
        invariant
            input_ok(*m, *cfa, roi),
            3 <= n <= 4,
            1 <= r <= 2,
            total == roi.w * roi.h * n,
            k <= total,
            data@.len() == k,
            forall|j: int|
                0 <= j < k ==> data@[j] == full_seq(m.model(1), *cfa, roi, n as int, r as int, edge)[j],
        decreases total - k,
    {
        proof {
            if roi.w == 0 {
                assert(roi.w * roi.h * n == 0) by (nonlinear_arith)
                    requires
                        roi.w == 0,
                ;
            }
            lemma_index_in_range(k as int, roi.w as int, roi.h as int, n as int);
        }
        let lx = (k / n) % roi.w;
        let ly = (k / n) / roi.w;
        let c = k % n;
        let site = cfa.color_at(roi.x + lx, roi.y + ly);
        let v = if site as usize == c {
            sample_at(m, roi, lx, ly)
        } else {
            let g = if edge && c == 1 {
                green_along_edge(m, cfa, roi, lx, ly)
            } else {
                None
            };
            match g {
                Some(gv) => gv,
                None => window_mean(m, cfa, roi, lx, ly, c, r),
            }
        };
        data.push(v);
        k = k + 1;
    }
    assert(data@ =~= full_seq(m.model(1), *cfa, roi, n as int, r as int, edge));
    data
}

/// Half-resolution binning of `n` colors over the region.
fn speed_buffer(m: &Pixels, cfa: &Cfa, roi: Rect, n: usize) -> (data: Vec<u32>)
    requires
        input_ok(*m, *cfa, roi),
        3 <= n <= 4,
        roi.w * roi.h * 4 <= usize::MAX,
    ensures
        data@ == speed_seq(m.model(1), *cfa, roi, n as int),
{
    let ow = roi.w / 2;
    let oh = roi.h / 2;
    proof {
        lemma_sub_area(ow as int, oh as int, roi.w as int, roi.h as int, n as int);
        lemma_mul_le_mul_n(ow as int * oh as int, n as int);
        assert(roi.w * roi.h * n <= roi.w * roi.h * 4) by (nonlinear_arith)
            requires
                n <= 4,
        ;
    }
    let total = ow * oh * n;
    let mut data: Vec<u32> = Vec::with_capacity(total);
    let mut k: usize = 0;
    while k < total
        invariant
            input_ok(*m, *cfa, roi),
            3 <= n <= 4,
            ow == roi.w / 2,
            oh == roi.h / 2,
            total == ow * oh * n,
            k <= total,
            data@.len() == k,
            forall|j: int| 0 <= j < k ==> data@[j] == speed_seq(m.model(1), *cfa, roi, n as int)[j],
        decreases total - k,
    {
        proof {
            if ow == 0 {
                assert(ow * oh * n == 0) by (nonlinear_arith)
                    requires
                        ow == 0,
                ;
            }
            lemma_index_in_range(k as int, ow as int, oh as int, n as int);
        }
        let bx = (k / n) % ow;
        let by = (k / n) / ow;
        let c = k % n;
        let v = block_mean(m, cfa, roi, bx, by, c);
        data.push(v);
        k = k + 1;
    }
    assert(data@ =~= speed_seq(m.model(1), *cfa, roi, n as int));
    data
}

/// The image `demosaic` returns for a mosaic, pattern, region and algorithm.
pub open spec fn demosaiced(m: ImageModel, cfa: Cfa, roi: Rect, alg: DemosaicAlgorithm) -> ImageModel {
    if cfa.spec_is_rgb() || cfa.spec_is_four_color() {
        let n: int = if cfa.spec_is_rgb() { 3 } else { 4 };
        match alg {
            DemosaicAlgorithm::Quality => ImageModel {
                channels: n,
                width: roi.w as int,
                height: roi.h as int,
                data: full_seq(m, cfa, roi, n, quality_radius(cfa), edge_aware_pattern(cfa)),
            },
            DemosaicAlgorithm::Speed => ImageModel {
                channels: n,
                width: (roi.w / 2) as int,
                height: (roi.h / 2) as int,
                data: speed_seq(m, cfa, roi, n),
            },
        }
    } else {
        m
    }
}

/// Reconstructs color from a mosaic within `roi`. The pattern picks the family:
/// a red/green/blue tile gives a three-color image (Bayer-like tiles take green
/// along the smoother direction, a 6x6 tile estimates from a wider
/// neighborhood), a tile of four distinct colors gives a four-color image, and
/// any other tile passes the mosaic through unchanged. `Quality` keeps the
/// region's resolution; `Speed` bins 2x2 blocks, halving it in each axis.
pub fn demosaic(mosaic: &Pixels, cfa: &Cfa, roi: Rect, algorithm: DemosaicAlgorithm) -> (out: Intermediate)
    requires
        input_ok(*mosaic, *cfa, roi),
        roi.w * roi.h * 4 <= usize::MAX,
    ensures
        out@ == demosaiced(mosaic.model(1), *cfa, roi, algorithm),
        out.wf(),
{
    let rgb = cfa.is_rgb();
    let four = if rgb { false } else { cfa.is_four_color() };
    if rgb || four {
        let n: usize = if rgb { 3 } else { 4 };
        let six = cfa.width == 6 && cfa.height == 6;
        let r: usize = if six { 2 } else { 1 };
        match algorithm {
            DemosaicAlgorithm::Quality => {
                let data = full_buffer(mosaic, cfa, roi, n, r, rgb && !six);
                let p = Pixels { width: roi.w, height: roi.h, data };
                if rgb {
                    Intermediate::ThreeColor(p)
                } else {
                    Intermediate::FourColor(p)
                }
            },
            DemosaicAlgorithm::Speed => {
                let data = speed_buffer(mosaic, cfa, roi, n);
                let p = Pixels { width: roi.w / 2, height: roi.h / 2, data };
                if rgb {
                    Intermediate::ThreeColor(p)
                } else {
                    Intermediate::FourColor(p)
                }
            },
        }
    } else {
        Intermediate::Monochrome(Pixels { width: mosaic.width, height: mosaic.height, data: mosaic.data.clone() })
    }
}

/// A red/green/blue 2x2 pattern demosaics to a three-color image of the
/// region's size (quality) or of half its size in each axis (speed).
pub proof fn lemma_bayer_demosaic_shape(m: ImageModel, cfa: Cfa, roi: Rect, alg: DemosaicAlgorithm)
    requires
        cfa.spec_is_rgb(),
        cfa.width == 2,
        cfa.height == 2,
    ensures
        demosaiced(m, cfa, roi, alg).channels == 3,
        alg == DemosaicAlgorithm::Quality ==> demosaiced(m, cfa, roi, alg).width == roi.w
            && demosaiced(m, cfa, roi, alg).height == roi.h,
        alg == DemosaicAlgorithm::Speed ==> demosaiced(m, cfa, roi, alg).width == roi.w / 2
            && demosaiced(m, cfa, roi, alg).height == roi.h / 2,
{
}

/// Every raw sample of the region has the value `v`.
pub open spec fn uniform_region(m: ImageModel, roi: Rect, v: int) -> bool {
    forall|lx: int, ly: int| 0 <= lx < roi.w && 0 <= ly < roi.h ==> #[trigger] sample(m, roi, lx, ly) == v
}

proof fn lemma_window_uniform(m: ImageModel, cfa: Cfa, roi: Rect, lx: int, ly: int, c: int, r: int, k: int, v: int)
    requires
        uniform_region(m, roi, v),
    ensures
        win_sum(m, cfa, roi, lx, ly, c, r, k) == v * win_count(cfa, roi, lx, ly, c, r, k),
    decreases k,
{
    if k > 0 {
        lemma_window_uniform(m, cfa, roi, lx, ly, c, r, k - 1, v);
        if win_hit(cfa, roi, lx, ly, c, r, k - 1) {
            assert(sample(m, roi, win_x(lx, r, k - 1), win_y(ly, r, k - 1)) == v);
        }
        assert(v * win_count(cfa, roi, lx, ly, c, r, k - 1) + v == v * (win_count(cfa, roi, lx, ly, c, r, k - 1)
            + 1)) by (nonlinear_arith);
    }
}

proof fn lemma_interp_uniform(m: ImageModel, cfa: Cfa, roi: Rect, lx: int, ly: int, c: int, r: int, v: int)
    requires
        uniform_region(m, roi, v),
        0 <= lx < roi.w,
        0 <= ly < roi.h,
    ensures
        interp(m, cfa, roi, lx, ly, c, r) == v,
{
    let cells = (2 * r + 1) * (2 * r + 1);
    lemma_window_uniform(m, cfa, roi, lx, ly, c, r, cells, v);
    assert(sample(m, roi, lx, ly) == v);
    let cnt = win_count(cfa, roi, lx, ly, c, r, cells);
    if cnt != 0 {
        assert(v * cnt == cnt * v) by (nonlinear_arith);
        assert(cnt > 0) by {
            lemma_count_nonneg(cfa, roi, lx, ly, c, r, cells);
        }
        vstd::arithmetic::div_mod::lemma_div_multiples_vanish(v, cnt);
    }
}

proof fn lemma_count_nonneg(cfa: Cfa, roi: Rect, lx: int, ly: int, c: int, r: int, k: int)
    ensures
        win_count(cfa, roi, lx, ly, c, r, k) >= 0,
    decreases k,
{
    if k > 0 {
        lemma_count_nonneg(cfa, roi, lx, ly, c, r, k - 1);
    }
}

proof fn lemma_block_uniform(m: ImageModel, cfa: Cfa, roi: Rect, bx: int, by: int, c: int, k: int, v: int)
    requires
        uniform_region(m, roi, v),
        0 <= bx < roi.w / 2,
        0 <= by < roi.h / 2,
        k <= 4,
    ensures
        block_sum(m, cfa, roi, bx, by, c, k) == v * block_count(cfa, roi, bx, by, c, k),
        block_count(cfa, roi, bx, by, c, k) >= 0,
    decreases k,
{
    if k > 0 {
        lemma_block_uniform(m, cfa, roi, bx, by, c, k - 1, v);
        assert(0 <= block_x(bx, k - 1) < roi.w && 0 <= block_y(by, k - 1) < roi.h);
        assert(sample(m, roi, block_x(bx, k - 1), block_y(by, k - 1)) == v);
        assert(v * block_count(cfa, roi, bx, by, c, k - 1) + v == v * (block_count(cfa, roi, bx, by, c, k - 1)
            + 1)) by (nonlinear_arith);
    }
}

/// A region of one constant raw value demosaics to that value in every
/// channel of every output pixel.
#[verifier::rlimit(40)]
pub proof fn lemma_demosaic_uniform(m: ImageModel, cfa: Cfa, roi: Rect, alg: DemosaicAlgorithm, v: u32)
    requires
        uniform_region(m, roi, v as int),
    ensures
        forall|k: int|
            0 <= k < demosaiced(m, cfa, roi, alg).data.len() && (cfa.spec_is_rgb() || cfa.spec_is_four_color())
                ==> #[trigger] demosaiced(m, cfa, roi, alg).data[k] == v,
{
    if cfa.spec_is_rgb() || cfa.spec_is_four_color() {
        let n: int = if cfa.spec_is_rgb() { 3 } else { 4 };
        let out = demosaiced(m, cfa, roi, alg);
        assert forall|k: int| 0 <= k < out.data.len() implies #[trigger] out.data[k] == v by {
            match alg {
                DemosaicAlgorithm::Quality => {
                    if roi.w == 0 {
                        assert(roi.w * roi.h * n == 0) by (nonlinear_arith)
                            requires
                                roi.w == 0,
                        ;
                    }
                    lemma_index_in_range(k, roi.w as int, roi.h as int, n);
                    let lx = col_of(k, roi.w as int, n);
                    let ly = row_of(k, roi.w as int, n);
                    lemma_interp_uniform(m, cfa, roi, lx, ly, chan_of(k, n), quality_radius(cfa), v as int);
                    assert(sample(m, roi, lx, ly) == v);
                    if 1 <= lx && lx + 1 < roi.w && 1 <= ly && ly + 1 < roi.h {
                        assert(sample(m, roi, lx - 1, ly) == v);
                        assert(sample(m, roi, lx + 1, ly) == v);
                        assert(sample(m, roi, lx, ly - 1) == v);
                        assert(sample(m, roi, lx, ly + 1) == v);
                    }
                },
                DemosaicAlgorithm::Speed => {
                    let ow = roi.w / 2;
                    let oh = roi.h / 2;
                    if ow == 0 {
                        assert(ow * oh * n == 0) by (nonlinear_arith)
                            requires
                                ow == 0,
                        ;
                    }
                    lemma_index_in_range(k, ow as int, oh as int, n);
                    let bx = col_of(k, ow as int, n);
                    let by = row_of(k, ow as int, n);
                    let c = chan_of(k, n);
                    lemma_block_uniform(m, cfa, roi, bx, by, c, 4, v as int);
                    lemma_interp_uniform(m, cfa, roi, 2 * bx, 2 * by, c, fallback_radius(), v as int);
                    let cnt = block_count(cfa, roi, bx, by, c, 4);
                    if cnt != 0 {
                        assert(v * cnt == cnt * v) by (nonlinear_arith);
                        vstd::arithmetic::div_mod::lemma_div_multiples_vanish(v as int, cnt);
                    }
                },
            }
        }
    }
}

} // verus!
