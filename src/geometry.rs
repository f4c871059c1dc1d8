//! Rectangles on the sensor grid and the default-crop mapping.
use vstd::prelude::*;

verus! {

/// Width and height of an image.
#[derive(Clone, Copy, Debug, PartialEq, Eq, Structural)]
pub struct Dim2 {
    pub w: usize,
    pub h: usize,
}

/// An axis-aligned rectangle: top-left corner and extent.
#[derive(Clone, Copy, Debug, PartialEq, Eq, Structural)]
pub struct Rect {
    pub x: usize,
    pub y: usize,
    pub w: usize,
    pub h: usize,
}

impl Rect {
    /// The corner plus the extent stays representable.
    pub open spec fn wf(&self) -> bool {
        self.x + self.w <= usize::MAX && self.y + self.h <= usize::MAX
    }

    /// The rectangle lies inside an image of the given size.
    pub open spec fn fits(&self, w: int, h: int) -> bool {
        self.x + self.w <= w && self.y + self.h <= h
    }

    pub open spec fn spec_is_empty(&self) -> bool {
        self.w == 0 || self.h == 0
    }

    pub fn new(x: usize, y: usize, w: usize, h: usize) -> (r: Rect)
        ensures
            r == (Rect { x, y, w, h }),
    {
        Rect { x, y, w, h }
    }

    /// The rectangle at the origin covering a whole image.
    pub fn full(d: Dim2) -> (r: Rect)
        ensures
            r == (Rect { x: 0, y: 0, w: d.w, h: d.h }),
    {
        Rect { x: 0, y: 0, w: d.w, h: d.h }
    }

    pub fn dim(&self) -> (d: Dim2)
        ensures
            d == (Dim2 { w: self.w, h: self.h }),
    {
        Dim2 { w: self.w, h: self.h }
    }

    pub fn is_empty(&self) -> (r: bool)
        ensures
            r == self.spec_is_empty(),
    {
        self.w == 0 || self.h == 0
    }

    /// One past the right edge, saturated at `usize::MAX`.
    pub open spec fn end_x(&self) -> int {
        if self.x + self.w > usize::MAX {
            usize::MAX as int
        } else {
            self.x + self.w
        }
    }

    /// One past the bottom edge, saturated at `usize::MAX`.
    pub open spec fn end_y(&self) -> int {
        if self.y + self.h > usize::MAX {
            usize::MAX as int
        } else {
            self.y + self.h
        }
    }

    fn right(&self) -> (e: usize)
        ensures
            e == self.end_x(),
    {
        if self.x <= usize::MAX - self.w {
            self.x + self.w
        } else {
            usize::MAX
        }
    }

    fn bottom(&self) -> (e: usize)
        ensures
            e == self.end_y(),
    {
        if self.y <= usize::MAX - self.h {
            self.y + self.h
        } else {
            usize::MAX
        }
    }

    pub open spec fn spec_intersection(&self, o: &Rect) -> Rect {
        let x0 = if self.x >= o.x { self.x } else { o.x };
        let y0 = if self.y >= o.y { self.y } else { o.y };
        let x1 = if self.end_x() <= o.end_x() { self.end_x() } else { o.end_x() };
        let y1 = if self.end_y() <= o.end_y() { self.end_y() } else { o.end_y() };
        Rect {
            x: x0,
            y: y0,
            w: if x1 > x0 { (x1 - x0) as usize } else { 0 },
            h: if y1 > y0 { (y1 - y0) as usize } else { 0 },
        }
    }

    /// The common part of two rectangles (empty extent when they do not overlap).
    pub fn intersection(&self, o: &Rect) -> (r: Rect)
        ensures
            r == self.spec_intersection(o),
            r.wf(),
    {
        let x0 = if self.x >= o.x { self.x } else { o.x };
        let y0 = if self.y >= o.y { self.y } else { o.y };
        let (e1, e2) = (self.right(), o.right());
        let (f1, f2) = (self.bottom(), o.bottom());
        let x1 = if e1 <= e2 { e1 } else { e2 };
        let y1 = if f1 <= f2 { f1 } else { f2 };
        Rect {
            x: x0,
            y: y0,
            w: if x1 > x0 { x1 - x0 } else { 0 },
            h: if y1 > y0 { y1 - y0 } else { 0 },
        }
    }

    pub open spec fn spec_adapt(&self, outer: &Rect) -> Rect {
        Rect {
            x: if self.x >= outer.x { (self.x - outer.x) as usize } else { 0 },
            y: if self.y >= outer.y { (self.y - outer.y) as usize } else { 0 },
            w: self.w,
            h: self.h,
        }
    }

    /// The same rectangle in coordinates relative to `outer`'s corner.
    pub fn adapt(&self, outer: &Rect) -> (r: Rect)
        ensures
            r == self.spec_adapt(outer),
            self.wf() ==> r.wf(),
    {
        Rect {
            x: if self.x >= outer.x { self.x - outer.x } else { 0 },
            y: if self.y >= outer.y { self.y - outer.y } else { 0 },
            w: self.w,
            h: self.h,
        }
    }

    pub open spec fn spec_scale(&self, num: usize, den: usize) -> Rect {
        Rect {
            x: scale_len(self.x, num, den),
            y: scale_len(self.y, num, den),
            w: scale_len(self.w, num, den),
            h: scale_len(self.h, num, den),
        }
    }

    /// Scales corner and extent by `num / den` (rounding down, saturating),
    /// as when an image changed resolution from `den` to `num` pixels across.
    pub fn scale(&mut self, num: usize, den: usize)
        requires
            den > 0,
        ensures
            *final(self) == old(self).spec_scale(num, den),
    {
        self.x = scale_usize(self.x, num, den);
        self.y = scale_usize(self.y, num, den);
        self.w = scale_usize(self.w, num, den);
        self.h = scale_usize(self.h, num, den);
    }
}

/// `v * num / den`, rounded down and saturated at `usize::MAX`.
pub open spec fn scale_len(v: usize, num: usize, den: usize) -> usize {
    let q = (v as int * num as int) / den as int;
    if q > usize::MAX {
        usize::MAX
    } else {
        q as usize
    }
}

fn scale_usize(v: usize, num: usize, den: usize) -> (r: usize)
    requires
        den > 0,
    ensures
        r == scale_len(v, num, den),
{
    proof {
        assert(v as u128 * num as u128 <= u128::MAX) by (nonlinear_arith);
        assert(0 <= (v as int * num as int) / den as int) by (nonlinear_arith)
            requires
                den > 0,
        ;
    }
    let p: u128 = v as u128 * num as u128;
    let q: u128 = p / den as u128;
    if q > usize::MAX as u128 {
        usize::MAX
    } else {
        q as usize
    }
}

/// The rectangle of the default crop to cut from an image of size `cur`, or
/// `None` when no crop applies. The decoder's crop is first made relative to
/// the active area when the image was cut to it, then scaled by the ratio of
/// the image's width to the original width. A crop applies only when that
/// rectangle is non-empty and differs in size from the image; what is cut is
/// its part inside the image (no crop when that part is empty).
pub open spec fn default_crop_rect(
    crop: Rect,
    active: Option<Rect>,
    relative_to_active: bool,
    cur: Dim2,
    raw_width: usize,
) -> Option<Rect> {
    let c1 = match active {
        Some(a) => if relative_to_active {
            crop.spec_intersection(&a).spec_adapt(&a)
        } else {
            crop
        },
        None => crop,
    };
    let ow = match active {
        Some(a) => a.w,
        None => raw_width,
    };
    let c2 = if ow > 0 && cur.w != ow {
        c1.spec_scale(cur.w, ow)
    } else {
        c1
    };
    let c3 = c2.spec_intersection(&Rect { x: 0, y: 0, w: cur.w, h: cur.h });
    if !c2.spec_is_empty() && (c2.w != cur.w || c2.h != cur.h) && !c3.spec_is_empty() {
        Some(c3)
    } else {
        None
    }
}

/// Computes [`default_crop_rect`].
pub fn compute_default_crop(
    crop: Rect,
    active: Option<Rect>,
    relative_to_active: bool,
    cur: Dim2,
    raw_width: usize,
) -> (r: Option<Rect>)
    ensures
        r == default_crop_rect(crop, active, relative_to_active, cur, raw_width),
        match r {
            Some(c) => c.fits(cur.w as int, cur.h as int) && c.wf(),
            None => true,
        },
{
    let c1 = match active {
        Some(a) => if relative_to_active {
            crop.intersection(&a).adapt(&a)
        } else {
            crop
        },
        None => crop,
    };
    let ow = match active {
        Some(a) => a.w,
        None => raw_width,
    };
    let mut c2 = c1;
    if ow > 0 && cur.w != ow {
        c2.scale(cur.w, ow);
    }
    let whole = Rect { x: 0, y: 0, w: cur.w, h: cur.h };
    let c3 = c2.intersection(&whole);
    if !c2.is_empty() && (c2.w != cur.w || c2.h != cur.h) && !c3.is_empty() {
        Some(c3)
    } else {
        None
    }
}

} // verus!
