//! The pipeline's working buffer: a tagged, dense, row-major pixel buffer.
use vstd::prelude::*;
use crate::fixed::UNIT;
use crate::geometry::{Dim2, Rect};

verus! {

/// The mathematical content of an image: dimensions, samples per pixel and
/// the row-major samples.
pub struct ImageModel {
    pub channels: int,
    pub width: int,
    pub height: int,
    pub data: Seq<u32>,
}

impl ImageModel {
    /// The sample count matches the dimensions.
    pub open spec fn wf(&self) -> bool {
        &&& self.width >= 0
        &&& self.height >= 0
        &&& self.data.len() == self.width * self.height * self.channels
    }

    /// Sample `c` of pixel `(x, y)`.
    pub open spec fn at(&self, x: int, y: int, c: int) -> u32 {
        self.data[(y * self.width + x) * self.channels + c]
    }
}

/// A row-major buffer of `width * height` pixels, each `n` consecutive samples.
#[derive(Clone, Debug)]
pub struct Pixels {
    pub width: usize,
    pub height: usize,
    pub data: Vec<u32>,
}

impl Pixels {
    /// The buffer holds exactly `n` samples for each pixel.
    pub open spec fn wf(&self, n: int) -> bool {
        self.data@.len() == self.width * self.height * n
    }

    /// Sample `c` of pixel `(x, y)` for a buffer of `n` samples per pixel.
    pub open spec fn at(&self, n: int, x: int, y: int, c: int) -> u32 {
        self.data@[(y * self.width + x) * n + c]
    }

    /// This buffer read as an image of `n` samples per pixel.
    pub open spec fn model(&self, n: int) -> ImageModel {
        ImageModel { channels: n, width: self.width as int, height: self.height as int, data: self.data@ }
    }

    pub fn new_with(data: Vec<u32>, width: usize, height: usize) -> (r: Pixels)
        ensures
            r.width == width,
            r.height == height,
            r.data@ == data@,
    {
        Pixels { width, height, data }
    }

    pub fn dim(&self) -> (d: Dim2)
        ensures
            d == (Dim2 { w: self.width, h: self.height }),
    {
        Dim2 { w: self.width, h: self.height }
    }

    pub fn rect(&self) -> (r: Rect)
        ensures
            r == (Rect { x: 0, y: 0, w: self.width, h: self.height }),
    {
        Rect { x: 0, y: 0, w: self.width, h: self.height }
    }
}

/// The developed image at some pipeline stage.
#[derive(Clone, Debug)]
pub enum Intermediate {
    Monochrome(Pixels),
    ThreeColor(Pixels),
    FourColor(Pixels),
}

/// Index decomposition of a flat sample index `k` into pixel column, row and channel.
pub open spec fn col_of(k: int, w: int, n: int) -> int {
    (k / n) % w
}

pub open spec fn row_of(k: int, w: int, n: int) -> int {
    (k / n) / w
}

pub open spec fn chan_of(k: int, n: int) -> int {
    k % n
}

/// The flat index of `(x, y, c)` decomposes back into `x`, `y` and `c`.
pub proof fn lemma_index_decomp(x: int, y: int, c: int, w: int, h: int, n: int)
    requires
        0 <= x < w,
        0 <= y < h,
        0 <= c < n,
    ensures
        0 <= (y * w + x) * n + c < w * h * n,
        col_of((y * w + x) * n + c, w, n) == x,
        row_of((y * w + x) * n + c, w, n) == y,
        chan_of((y * w + x) * n + c, n) == c,
{
    let p = y * w + x;
    let k = p * n + c;
    vstd::arithmetic::div_mod::lemma_fundamental_div_mod_converse(k, n, p, c);
    vstd::arithmetic::div_mod::lemma_fundamental_div_mod_converse(p, w, y, x);
    assert(p < w * h) by (nonlinear_arith)
        requires
            p == y * w + x,
            x < w,
            y < h,
            0 <= x,
    ;
    assert(k < w * h * n) by (nonlinear_arith)
        requires
            k == p * n + c,
            p < w * h,
            c < n,
            0 <= c,
    ;
    assert(0 <= k) by (nonlinear_arith)
        requires
            k == p * n + c,
            0 <= x,
            0 <= y,
            0 <= w,
            0 <= c,
            p == y * w + x,
            0 <= n,
    ;
}

/// A flat index below `w * h * n` lies on a pixel of the image.
pub proof fn lemma_index_in_range(k: int, w: int, h: int, n: int)
    requires
        0 <= k < w * h * n,
        w > 0,
        n > 0,
    ensures
        0 <= col_of(k, w, n) < w,
        0 <= row_of(k, w, n) < h,
        0 <= chan_of(k, n) < n,
        k == (row_of(k, w, n) * w + col_of(k, w, n)) * n + chan_of(k, n),
{
    let p = k / n;
    vstd::arithmetic::div_mod::lemma_fundamental_div_mod(k, n);
    vstd::arithmetic::div_mod::lemma_fundamental_div_mod(p, w);
    assert(w * h * n == (w * h) * n) by (nonlinear_arith);
    vstd::arithmetic::div_mod::lemma_div_is_ordered(k, (w * h) * n - 1, n);
    assert(((w * h) * n - 1) / n < w * h) by (nonlinear_arith)
        requires
            n > 0,
            w * h * n > 0,
    {
        vstd::arithmetic::div_mod::lemma_div_by_multiple((w * h), n);
        vstd::arithmetic::div_mod::lemma_div_is_ordered((w * h) * n - 1, (w * h) * n, n);
        vstd::arithmetic::div_mod::lemma_fundamental_div_mod((w * h) * n - 1, n);
    }
    assert(p < w * h);
    vstd::arithmetic::div_mod::lemma_div_is_ordered(p, w * h - 1, w);
    vstd::arithmetic::div_mod::lemma_div_pos_is_pos(p, w);
    assert((w * h - 1) / w < h) by (nonlinear_arith)
        requires
            w > 0,
            w * h > 0,
    {
        vstd::arithmetic::div_mod::lemma_fundamental_div_mod(w * h - 1, w);
        vstd::arithmetic::div_mod::lemma_div_pos_is_pos(w * h - 1, w);
        if (w * h - 1) / w >= h {
            assert(w * ((w * h - 1) / w) >= w * h) by (nonlinear_arith)
                requires
                    (w * h - 1) / w >= h,
                    w > 0,
            ;
        }
    }
    vstd::arithmetic::div_mod::lemma_div_pos_is_pos(k, n);
    assert(k == ((p / w) * w + p % w) * n + k % n) by (nonlinear_arith)
        requires
            k == n * p + k % n,
            p == w * (p / w) + p % w,
    ;
}

impl View for Intermediate {
    type V = ImageModel;

    open spec fn view(&self) -> ImageModel {
        self.pixels().model(self.channels())
    }
}

impl Intermediate {
    /// Samples per pixel of the variant.
    pub open spec fn channels(&self) -> int {
        match self {
            Intermediate::Monochrome(_) => 1,
            Intermediate::ThreeColor(_) => 3,
            Intermediate::FourColor(_) => 4,
        }
    }

    pub open spec fn pixels(&self) -> Pixels {
        match self {
            Intermediate::Monochrome(p) => *p,
            Intermediate::ThreeColor(p) => *p,
            Intermediate::FourColor(p) => *p,
        }
    }

    /// The buffer length matches the dimensions and the variant's channel count.
    pub open spec fn wf(&self) -> bool {
        self.pixels().wf(self.channels())
    }

    pub fn channel_count(&self) -> (n: usize)
        ensures
            n == self.channels(),
    {
        match self {
            Intermediate::Monochrome(_) => 1,
            Intermediate::ThreeColor(_) => 3,
            Intermediate::FourColor(_) => 4,
        }
    }

    pub fn as_pixels(&self) -> (p: &Pixels)
        ensures
            *p == self.pixels(),
    {
        match self {
            Intermediate::Monochrome(p) => p,
            Intermediate::ThreeColor(p) => p,
            Intermediate::FourColor(p) => p,
        }
    }

    pub fn dim(&self) -> (d: Dim2)
        ensures
            d == (Dim2 { w: self.pixels().width, h: self.pixels().height }),
    {
        self.as_pixels().dim()
    }

    pub fn rect(&self) -> (r: Rect)
        ensures
            r == (Rect { x: 0, y: 0, w: self.pixels().width, h: self.pixels().height }),
    {
        self.as_pixels().rect()
    }

    /// Keeps the variant and replaces the buffer.
    pub open spec fn with_pixels(&self, p: Pixels) -> Intermediate {
        match self {
            Intermediate::Monochrome(_) => Intermediate::Monochrome(p),
            Intermediate::ThreeColor(_) => Intermediate::ThreeColor(p),
            Intermediate::FourColor(_) => Intermediate::FourColor(p),
        }
    }

    fn rewrap(&self, p: Pixels) -> (r: Intermediate)
        ensures
            r == self.with_pixels(p),
    {
        match self {
            Intermediate::Monochrome(_) => Intermediate::Monochrome(p),
            Intermediate::ThreeColor(_) => Intermediate::ThreeColor(p),
            Intermediate::FourColor(_) => Intermediate::FourColor(p),
        }
    }

    /// The part of the image under `r`, same variant.
    pub fn crop(&self, r: Rect) -> (out: Intermediate)
        requires
            self.wf(),
            r.fits(self.pixels().width as int, self.pixels().height as int),
        ensures
            out@ == cropped(self@, r),
            out.wf(),
    {
        let n = self.channel_count();
        let p = crop_buffer(self.as_pixels(), n, r);
        self.rewrap(p)
    }
}

/// The samples of the cropped buffer, in row-major order.
pub open spec fn crop_seq(img: ImageModel, r: Rect) -> Seq<u32> {
    let n = img.channels;
    Seq::new(
        (r.w * r.h * n) as nat,
        |k: int| img.at(r.x + col_of(k, r.w as int, n), r.y + row_of(k, r.w as int, n), chan_of(k, n)),
    )
}

/// The part of an image under `r`.
pub open spec fn cropped(img: ImageModel, r: Rect) -> ImageModel {
    ImageModel { channels: img.channels, width: r.w as int, height: r.h as int, data: crop_seq(img, r) }
}

/// A sub-rectangle of an image has no more samples than the image.
pub proof fn lemma_sub_area(rw: int, rh: int, w: int, h: int, n: int)
    requires
        0 <= rw <= w,
        0 <= rh <= h,
        0 <= n,
    ensures
        rw * rh * n <= w * h * n,
{
    assert(rw * rh <= w * h) by (nonlinear_arith)
        requires
            0 <= rw <= w,
            0 <= rh <= h,
    ;
    assert(rw * rh * n <= w * h * n) by (nonlinear_arith)
        requires
            rw * rh <= w * h,
            0 <= n,
    ;
}

/// Multiplying by a positive count does not shrink a natural number.
pub proof fn lemma_mul_le_mul_n(a: int, n: int)
    requires
        0 <= a,
        1 <= n,
    ensures
        a <= a * n,
{
    assert(a <= a * n) by (nonlinear_arith)
        requires
            0 <= a,
            1 <= n,
    ;
}

fn crop_buffer(p: &Pixels, n: usize, r: Rect) -> (out: Pixels)
    requires
        p.wf(n as int),
        1 <= n <= 4,
        r.fits(p.width as int, p.height as int),
    ensures
        out.width == r.w,
        out.height == r.h,
        out.data@ == crop_seq(p.model(n as int), r),
        out.wf(n as int),
{
    let len = p.data.len();
    proof {
        lemma_sub_area(r.w as int, r.h as int, p.width as int, p.height as int, n as int);
        lemma_mul_le_mul_n(r.w as int * r.h as int, n as int);
    }
    let total: usize = r.w * r.h * n;
    let mut data: Vec<u32> = Vec::with_capacity(total);
    let mut k: usize = 0;
    while k < total
        invariant
            p.wf(n as int),
            len == p.data@.len(),
            1 <= n <= 4,
            r.fits(p.width as int, p.height as int),
            total == r.w * r.h * n,
            k <= total,
            data@.len() == k,
            forall|j: int| 0 <= j < k ==> data@[j] == crop_seq(p.model(n as int), r)[j],
        decreases total - k,
    {
        proof {
            if r.w == 0 {
                assert(r.w * r.h * n == 0) by (nonlinear_arith) requires r.w == 0;
            }
            lemma_index_in_range(k as int, r.w as int, r.h as int, n as int);
        }
        let lx = (k / n) % r.w;
        let ly = (k / n) / r.w;
        let c = k % n;
        let x = r.x + lx;
        let y = r.y + ly;
        proof {
            lemma_index_decomp(x as int, y as int, c as int, p.width as int, p.height as int, n as int);
            lemma_mul_le_mul_n(y as int * p.width as int + x as int, n as int);
            assert(y as int * p.width as int <= y as int * p.width as int + x as int);
        }
        let idx = (y * p.width + x) * n + c;
        data.push(p.data[idx]);
        k = k + 1;
    }
    assert(data@ =~= crop_seq(p.model(n as int), r));
    Pixels { width: r.w, height: r.h, data }
}

/// A display-range sample as a 16-bit value: `[0, UNIT]` onto `[0, 65535]`,
/// rounded; larger values saturate.
pub open spec fn to_u16(v: int) -> int {
    if v >= UNIT {
        65535
    } else {
        (v * 65535 + 32768) / 65536
    }
}

impl Intermediate {
    /// The samples as 16-bit values, in buffer order.
    pub fn to_u16_samples(&self) -> (r: Vec<u16>)
        ensures
            r@.len() == self.pixels().data@.len(),
            forall|k: int| 0 <= k < r@.len() ==> #[trigger] r@[k] as int == to_u16(self.pixels().data@[k] as int),
    {
        let data = &self.as_pixels().data;
        let mut out: Vec<u16> = Vec::with_capacity(data.len());
        let mut i: usize = 0;
        while i < data.len()
            invariant
                *data == self.pixels().data,
                i <= data@.len(),
                out@.len() == i,
                forall|k: int| 0 <= k < i ==> #[trigger] out@[k] as int == to_u16(data@[k] as int),
            decreases data@.len() - i,
        {
            let v = data[i];
            let q: u16 = if v >= UNIT {
                65535
            } else {
                proof {
                    assert((v as int * 65535 + 32768) / 65536 <= 65535) by (nonlinear_arith)
                        requires
                            v < 65536,
                    ;
                }
                ((v as u64 * 65535 + 32768) / 65536) as u16
            };
            out.push(q);
            i = i + 1;
        }
        out
    }
}

} // verus!
