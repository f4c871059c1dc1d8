//! Color calibration: white balance, then a camera-to-RGB matrix.
use vstd::prelude::*;
use crate::fixed::COEFF_ONE;
use crate::intermediate::{ImageModel, Intermediate, Pixels, lemma_mul_le_mul_n};

verus! {

/// Reference illuminants of the color matrices a decoder reports.
#[derive(Clone, Copy, Debug, PartialEq, Eq, Structural)]
pub enum Illuminant {
    A,
    D50,
    D55,
    D65,
    D75,
    Other,
}

/// A camera color matrix for one reference illuminant: rows of three
/// coefficients (scaled by `COEFF_ONE`), one row per sensor channel.
#[derive(Clone, Debug)]
pub struct ColorMatrix {
    pub illuminant: Illuminant,
    pub coeffs: Vec<i32>,
}

/// Failures that abort a development.
#[derive(Clone, Copy, Debug, PartialEq, Eq, Structural)]
pub enum DevelopError {
    /// No color matrix for the D65 illuminant: calibration cannot proceed.
    MissingD65Matrix,
    /// The sensor buffer does not match its declared size and layout.
    MalformedSensorData,
    /// An output buffer would not be addressable.
    BufferTooLarge,
    /// A step was requested without the step it depends on.
    InconsistentSteps,
    /// A newer development superseded this one before it finished.
    Cancelled,
}

/// The description of each failure.
pub open spec fn error_message(e: DevelopError) -> Seq<char> {
    match e {
        DevelopError::MissingD65Matrix => "Calibration failed: Color matrix for D65 illuminant not found"@,
        DevelopError::MalformedSensorData => "Sensor data does not match its dimensions"@,
        DevelopError::BufferTooLarge => "Image dimensions exceed the addressable buffer size"@,
        DevelopError::InconsistentSteps => "A processing step was requested without the step it depends on"@,
        DevelopError::Cancelled => "Development cancelled"@,
    }
}

impl DevelopError {
    /// A human-readable description.
    pub fn message(&self) -> (s: &'static str)
        ensures
            s@ == error_message(*self),
    {
        match self {
            DevelopError::MissingD65Matrix => "Calibration failed: Color matrix for D65 illuminant not found",
            DevelopError::MalformedSensorData => "Sensor data does not match its dimensions",
            DevelopError::BufferTooLarge => "Image dimensions exceed the addressable buffer size",
            DevelopError::InconsistentSteps => "A processing step was requested without the step it depends on",
            DevelopError::Cancelled => "Development cancelled",
        }
    }
}

/// Index of the first matrix for D65, if any.
pub open spec fn first_d65(ms: Seq<ColorMatrix>, i: int) -> bool {
    &&& 0 <= i < ms.len()
    &&& ms[i].illuminant == Illuminant::D65
    &&& forall|j: int| 0 <= j < i ==> ms[j].illuminant != Illuminant::D65
}

/// Selects the D65 matrix (the first one, if several are given).
pub fn find_d65_matrix(ms: &Vec<ColorMatrix>) -> (r: Result<usize, DevelopError>)
    ensures
        match r {
            Ok(i) => first_d65(ms@, i as int),
            Err(e) => e == DevelopError::MissingD65Matrix && forall|j: int|
                0 <= j < ms@.len() ==> ms@[j].illuminant != Illuminant::D65,
        },
{
    let mut i: usize = 0;
    while i < ms.len()
        invariant
            i <= ms@.len(),
            forall|j: int| 0 <= j < i ==> ms@[j].illuminant != Illuminant::D65,
        decreases ms@.len() - i,
    {
        if ms[i].illuminant == Illuminant::D65 {
            return Ok(i);
        }
        i = i + 1;
    }
    Err(DevelopError::MissingD65Matrix)
}

/// The white-balance gain actually applied to channel `i`: neutral when white
/// balance is disabled or the decoder did not measure the channel.
pub open spec fn effective_wb(wb: Seq<Option<u32>>, apply: bool, i: int) -> u32 {
    if !apply {
        COEFF_ONE
    } else {
        match wb[i] {
            Some(v) => v,
            None => COEFF_ONE,
        }
    }
}

/// The four gains used by calibration.
pub fn white_balance_gains(wb: &Vec<Option<u32>>, apply: bool) -> (g: Vec<u32>)
    requires
        wb@.len() == 4,
    ensures
        g@.len() == 4,
        forall|i: int| 0 <= i < 4 ==> g@[i] == effective_wb(wb@, apply, i),
{
    let mut g: Vec<u32> = Vec::with_capacity(4);
    let mut i: usize = 0;
    while i < 4
        invariant
            wb@.len() == 4,
            i <= 4,
            g@.len() == i,
            forall|j: int| 0 <= j < i ==> g@[j] == effective_wb(wb@, apply, j),
        decreases 4 - i,
    {
        let v = if !apply {
            COEFF_ONE
        } else {
            match wb[i] {
                Some(v) => v,
                None => COEFF_ONE,
            }
        };
        g.push(v);
        i = i + 1;
    }
    g
}

/// Matrix coefficient for sensor channel `i` and output channel `j`; rows the
/// matrix does not give are zero.
pub open spec fn mat_at(m: Seq<i32>, i: int, j: int) -> int {
    if 0 <= i * 3 + j < m.len() {
        m[i * 3 + j] as int
    } else {
        0
    }
}

/// A sample scaled by a white-balance gain.
pub open spec fn balanced(p: int, g: int) -> int {
    p * g / (COEFF_ONE as int)
}

/// Output channel `j` of the pixel whose samples start at `base`, summed over
/// its first `i` sensor channels, before the coefficient scale is removed.
pub open spec fn cal_dot(px: Seq<u32>, base: int, g: Seq<u32>, m: Seq<i32>, j: int, i: int) -> int
    decreases i,
{
    if i <= 0 {
        0
    } else {
        cal_dot(px, base, g, m, j, i - 1) + mat_at(m, i - 1, j) * balanced(
            px[base + i - 1] as int,
            g[i - 1] as int,
        )
    }
}

/// A matrix product turned back into a sample: negatives become 0 and values
/// past the sample range saturate.
pub open spec fn to_sample(total: int) -> int {
    if total <= 0 {
        0
    } else if total / (COEFF_ONE as int) > 0xFFFF_FFFF {
        0xFFFF_FFFF
    } else {
        total / (COEFF_ONE as int)
    }
}

/// The calibrated three-channel samples of an image.
pub open spec fn calibrated_seq(img: ImageModel, g: Seq<u32>, m: Seq<i32>) -> Seq<u32> {
    let n = img.channels;
    Seq::new(
        (img.width * img.height * 3) as nat,
        |k: int| to_sample(cal_dot(img.data, (k / 3) * n, g, m, k % 3, n)) as u32,
    )
}

/// Bound on one term of the matrix product.
pub open spec fn term_bound() -> int {
    0x8_0000_0000_0000_0000_0000
}

fn calibrate_pixel_channel(data: &Vec<u32>, base: usize, n: usize, g: &Vec<u32>, m: &Vec<i32>, j: usize) -> (v: u32)
    requires
        3 <= n <= 4,
        g@.len() == 4,
        base + n <= data@.len(),
        j < 3,
    ensures
        v as int == to_sample(cal_dot(data@, base as int, g@, m@, j as int, n as int)),
{
    let dlen = data.len();
    let mut total: i128 = 0;
    let mut i: usize = 0;
    while i < n
        invariant
            dlen == data@.len(),
            3 <= n <= 4,
            g@.len() == 4,
            base + n <= data@.len(),
            j < 3,
            i <= n,
            total as int == cal_dot(data@, base as int, g@, m@, j as int, i as int),
            -(i as int) * term_bound() <= total <= i as int * term_bound(),
        decreases n - i,
    {
        let p = data[base + i] as u64;
        let gain = g[i] as u64;
        proof {
            assert(p * gain <= 0xFFFF_FFFF * 0xFFFF_FFFF) by (nonlinear_arith)
                requires
                    p <= 0xFFFF_FFFF,
                    gain <= 0xFFFF_FFFF,
            ;
        }
        let b = (p * gain) / (COEFF_ONE as u64);
        let coeff: i128 = if i * 3 + j < m.len() {
            m[i * 3 + j] as i128
        } else {
            0
        };
        proof {
            assert(b <= 0xFFFF_FFFF_FFFF_FFFFu64 / 10000);
            assert(coeff * b <= term_bound() && coeff * b >= -term_bound()) by (nonlinear_arith)
                requires
                    -0x8000_0000 <= coeff <= 0x7FFF_FFFF,
                    0 <= b <= 0xFFFF_FFFF_FFFF_FFFFu64 / 10000,
            ;
        }
        total = total + coeff * (b as i128);
        i = i + 1;
    }
    if total <= 0 {
        0
    } else {
        let q = (total as u128) / (COEFF_ONE as u128);
        if q > 0xFFFF_FFFF {
            0xFFFF_FFFF
        } else {
            q as u32
        }
    }
}

/// Calibrates an `n`-channel buffer into a three-channel one.
pub fn calibrate_pixels(p: &Pixels, n: usize, g: &Vec<u32>, m: &Vec<i32>) -> (out: Pixels)
    requires
        3 <= n <= 4,
        p.wf(n as int),
        g@.len() == 4,
    ensures
        out.width == p.width,
        out.height == p.height,
        out.data@ == calibrated_seq(p.model(n as int), g@, m@),
        out.wf(3),
{
    let len = p.data.len();
    proof {
        lemma_mul_le_mul_n(p.width as int * p.height as int, n as int);
    }
    let npix = p.width * p.height;
    proof {
        assert(npix * 3 <= npix * n) by (nonlinear_arith)
            requires
                n >= 3,
        ;
    }
    let total = npix * 3;
    let mut data: Vec<u32> = Vec::with_capacity(total);
    let mut k: usize = 0;
    while k < total
        invariant
            3 <= n <= 4,
            p.wf(n as int),
            g@.len() == 4,
            len == p.data@.len(),
            npix == p.width * p.height,
            total == npix * 3,
            k <= total,
            data@.len() == k,
            forall|j: int| 0 <= j < k ==> data@[j] == calibrated_seq(p.model(n as int), g@, m@)[j],
        decreases total - k,
    {
        let pix = k / 3;
        proof {
            assert(pix * n + n <= npix * n) by (nonlinear_arith)
                requires
                    pix < npix,
                    n >= 0,
            ;
        }
        let base = pix * n;
        let v = calibrate_pixel_channel(&p.data, base, n, g, m, k % 3);
        data.push(v);
        k = k + 1;
    }
    assert(data@ =~= calibrated_seq(p.model(n as int), g@, m@));
    Pixels { width: p.width, height: p.height, data }
}

/// What `calibrate` makes of an image: three- and four-channel images become
/// calibrated three-channel ones; a monochrome image is unchanged.
pub open spec fn calibrated(img: ImageModel, g: Seq<u32>, m: Seq<i32>) -> ImageModel {
    if img.channels == 3 || img.channels == 4 {
        ImageModel { channels: 3, width: img.width, height: img.height, data: calibrated_seq(img, g, m) }
    } else {
        img
    }
}

/// Applies white-balance gains `g` and the camera matrix `m` to every pixel of
/// a three- or four-channel image, giving linear RGB. A monochrome image is
/// returned unchanged.
pub fn calibrate(img: Intermediate, g: &Vec<u32>, m: &Vec<i32>) -> (out: Intermediate)
    requires
        img.wf(),
        g@.len() == 4,
    ensures
        out@ == calibrated(img@, g@, m@),
        out.wf(),
{
    match img {
        Intermediate::Monochrome(p) => Intermediate::Monochrome(p),
        Intermediate::ThreeColor(p) => Intermediate::ThreeColor(calibrate_pixels(&p, 3, g, m)),
        Intermediate::FourColor(p) => Intermediate::ThreeColor(calibrate_pixels(&p, 4, g, m)),
    }
}

/// Gains of 1.0 on every channel.
pub open spec fn neutral_gains(g: Seq<u32>) -> bool {
    g.len() == 4 && forall|i: int| 0 <= i < 4 ==> g[i] == COEFF_ONE
}

/// A matrix whose first `n` rows are the identity on three channels (the
/// row of a fourth channel, if any, is zero).
pub open spec fn identity_rows(m: Seq<i32>, n: int) -> bool {
    &&& m.len() >= 3 * n
    &&& forall|i: int, j: int|
        0 <= i < n && 0 <= j < 3 ==> #[trigger] m[i * 3 + j] == if i == j {
            COEFF_ONE as i32
        } else {
            0i32
        }
}

proof fn lemma_cal_dot_identity(px: Seq<u32>, base: int, g: Seq<u32>, m: Seq<i32>, j: int, i: int, n: int)
    requires
        0 <= j < 3,
        0 <= i <= n,
        neutral_gains(g),
        identity_rows(m, n),
        n <= 4,
    ensures
        cal_dot(px, base, g, m, j, i) == if j < i {
            COEFF_ONE as int * px[base + j] as int
        } else {
            0
        },
    decreases i,
{
    if i > 0 {
        lemma_cal_dot_identity(px, base, g, m, j, i - 1, n);
        let p = px[base + i - 1] as int;
        vstd::arithmetic::div_mod::lemma_div_multiples_vanish(p, COEFF_ONE as int);
        assert(p * COEFF_ONE as int == COEFF_ONE as int * p) by (nonlinear_arith);
        assert(balanced(p, g[i - 1] as int) == p);
        assert(m[(i - 1) * 3 + j] == if i - 1 == j { COEFF_ONE as i32 } else { 0i32 });
        assert(mat_at(m, i - 1, j) == if i - 1 == j { COEFF_ONE as int } else { 0 });
    }
}

/// Calibration with neutral gains and an identity matrix reproduces the
/// input: each output channel is the same channel of the input pixel (for a
/// three-channel image, the buffer itself).
pub proof fn lemma_calibrate_identity(img: ImageModel, g: Seq<u32>, m: Seq<i32>)
    requires
        img.wf(),
        img.channels == 3 || img.channels == 4,
        neutral_gains(g),
        identity_rows(m, img.channels),
    ensures
        forall|k: int|
            0 <= k < img.width * img.height * 3 ==> #[trigger] calibrated(img, g, m).data[k] == img.data[(k / 3)
                * img.channels + k % 3],
        img.channels == 3 ==> calibrated(img, g, m).data == img.data,
{
    let n = img.channels;
    assert forall|k: int| 0 <= k < img.width * img.height * 3 implies #[trigger] calibrated(img, g, m).data[k]
        == img.data[(k / 3) * n + k % 3] by {
        lemma_cal_dot_identity(img.data, (k / 3) * n, g, m, k % 3, n, n);
        let p = img.data[(k / 3) * n + k % 3] as int;
        vstd::arithmetic::div_mod::lemma_div_multiples_vanish(p, COEFF_ONE as int);
        assert(COEFF_ONE as int * p == p * COEFF_ONE as int) by (nonlinear_arith);
        assert(p * COEFF_ONE as int > 0 || p == 0) by (nonlinear_arith)
            requires
                p >= 0,
        ;
    }
    if n == 3 {
        assert(img.width * img.height * 3 == img.data.len());
        assert forall|k: int| 0 <= k < img.data.len() implies calibrated(img, g, m).data[k] == img.data[k] by {
            assert((k / 3) * 3 + k % 3 == k);
        }
        assert(calibrated(img, g, m).data =~= img.data);
    }
}

} // verus!
