//! The development pipeline: from decoded sensor data to a calibrated image.
use vstd::prelude::*;
use crate::calibrate::{
    calibrate, calibrated, find_d65_matrix, first_d65, white_balance_gains, effective_wb,
    ColorMatrix, DevelopError,
};
use crate::demosaic::{demosaic, demosaiced, Cfa, DemosaicAlgorithm};
use crate::geometry::{compute_default_crop, default_crop_rect, Dim2, Rect};
use crate::highlight::{
    highlights_recovered, recover_highlights, rescale_sample, rescaled, HIGHLIGHT_COMPRESSION_POINT,
};
use crate::intermediate::{cropped, ImageModel, Intermediate, Pixels, lemma_mul_le_mul_n};

verus! {

/// The stages a development may run, always in this order.
#[derive(Clone, Copy, Debug, PartialEq, Eq, Structural)]
pub enum ProcessingStep {
    Rescale,
    Demosaic,
    CropActiveArea,
    WhiteBalance,
    Calibrate,
    CropDefault,
    SRgb,
}

/// Decoded camera data, as a RAW decoder hands it over.
#[derive(Clone, Debug)]
pub struct SensorImage {
    pub make: String,
    pub model: String,
    pub width: usize,
    pub height: usize,
    /// Samples per pixel: 1 for a mosaic or monochrome sensor, else 3 or 4.
    pub cpp: usize,
    pub data: Vec<u16>,
    /// The color-filter pattern, when the data is a mosaic.
    pub cfa: Option<Cfa>,
    /// Black level of each channel (four entries).
    pub black_level: Vec<u32>,
    /// White level of each channel (four entries).
    pub white_level: Vec<u32>,
    /// White-balance gains scaled by `COEFF_ONE`; `None` where unmeasured.
    pub wb_coeffs: Vec<Option<u32>>,
    pub color_matrices: Vec<ColorMatrix>,
    pub active_area: Option<Rect>,
    pub crop_area: Option<Rect>,
}

impl SensorImage {
    /// The buffer matches the dimensions and every per-channel table has four entries.
    pub open spec fn wf(&self) -> bool {
        &&& self.cpp == 1 || self.cpp == 3 || self.cpp == 4
        &&& self.data@.len() == self.width * self.height * self.cpp
        &&& self.black_level@.len() == 4
        &&& self.white_level@.len() == 4
        &&& self.wb_coeffs@.len() == 4
        &&& match self.cfa {
            Some(c) => c.wf(),
            None => true,
        }
    }

    /// Checks [`SensorImage::wf`].
    pub fn is_well_formed(&self) -> (r: bool)
        ensures
            r == self.wf(),
    {
        let dlen = self.data.len();
        if !(self.cpp == 1 || self.cpp == 3 || self.cpp == 4) {
            return false;
        }
        let area = match self.width.checked_mul(self.height) {
            Some(a) => a,
            None => {
                proof {
                    lemma_mul_le_mul_n(self.width * self.height, self.cpp as int);
                }
                return false;
            },
        };
        let total = match area.checked_mul(self.cpp) {
            Some(t) => t,
            None => return false,
        };
        if self.data.len() != total || self.black_level.len() != 4 || self.white_level.len() != 4
            || self.wb_coeffs.len() != 4 {
            return false;
        }
        match &self.cfa {
            Some(c) => {
                if c.width == 0 || c.height == 0 {
                    return false;
                }
                let clen = c.colors.len();
                match c.width.checked_mul(c.height) {
                    Some(t) => clen == t,
                    None => false,
                }
            },
            None => true,
        }
    }

    pub fn dim(&self) -> (d: Dim2)
        ensures
            d == (Dim2 { w: self.width, h: self.height }),
    {
        Dim2 { w: self.width, h: self.height }
    }
}

/// The level table entry that applies to sample `k`: the site's filter color
/// for a mosaic, the channel for multi-sample pixels.
pub open spec fn level_channel(raw: SensorImage, k: int) -> int {
    if raw.cpp == 1 {
        match raw.cfa {
            Some(c) => {
                let col = c.spec_color_at(k % (raw.width as int), k / (raw.width as int));
                if col > 3 {
                    3
                } else {
                    col
                }
            },
            None => 0,
        }
    } else {
        k % (raw.cpp as int)
    }
}

/// A sensor sample as the pipeline first sees it: mapped from its channel's
/// `[black, white]` onto `[0, UNIT]` when rescaling, else the raw value.
pub open spec fn input_sample(raw: SensorImage, rescale: bool, k: int) -> u32 {
    if rescale {
        let ch = level_channel(raw, k);
        rescaled(raw.data@[k] as int, raw.black_level@[ch] as int, raw.white_level@[ch] as int) as u32
    } else {
        raw.data@[k] as u32
    }
}

/// The sensor data as an image, before any other stage.
pub open spec fn input_model(raw: SensorImage, rescale: bool) -> ImageModel {
    ImageModel {
        channels: raw.cpp as int,
        width: raw.width as int,
        height: raw.height as int,
        data: Seq::new(raw.data@.len(), |k: int| input_sample(raw, rescale, k)),
    }
}

/// Region a mosaic is demosaiced over: the active area clipped to the sensor
/// when cropping to it and the two overlap, else the whole sensor.
pub open spec fn demosaic_roi(raw: SensorImage, crop_active: bool) -> Rect {
    let whole = Rect { x: 0, y: 0, w: raw.width, h: raw.height };
    match raw.active_area {
        Some(a) => if crop_active && !a.spec_intersection(&whole).spec_is_empty() {
            a.spec_intersection(&whole)
        } else {
            whole
        },
        None => whole,
    }
}

/// The pipeline configuration: which steps run, and how to demosaic.
#[derive(Clone, Debug)]
pub struct RawDevelop {
    pub steps: Vec<ProcessingStep>,
    pub demosaic_algorithm: DemosaicAlgorithm,
}

/// Builds a [`RawDevelop`] step by step.
#[derive(Clone, Debug)]
pub struct RawDevelopBuilder {
    pub steps: Vec<ProcessingStep>,
    pub demosaic_algorithm: DemosaicAlgorithm,
}

/// The image after demosaicing, when that step applies.
pub open spec fn after_demosaic(steps: Seq<ProcessingStep>, alg: DemosaicAlgorithm, raw: SensorImage, img: ImageModel) -> ImageModel {
    match raw.cfa {
        Some(cfa) => if steps.contains(ProcessingStep::Demosaic) && img.channels == 1 {
            demosaiced(
                img,
                cfa,
                demosaic_roi(raw, steps.contains(ProcessingStep::CropActiveArea)),
                alg,
            )
        } else {
            img
        },
        None => img,
    }
}

/// The demosaic step would need an output buffer past the address space.
pub open spec fn demosaic_too_large(steps: Seq<ProcessingStep>, alg: DemosaicAlgorithm, raw: SensorImage) -> bool {
    let roi = demosaic_roi(raw, steps.contains(ProcessingStep::CropActiveArea));
    &&& raw.cfa is Some
    &&& raw.cpp == 1
    &&& steps.contains(ProcessingStep::Demosaic)
    &&& roi.w * roi.h * 4 > usize::MAX
}

/// The gains calibration applies.
pub open spec fn gains(steps: Seq<ProcessingStep>, alg: DemosaicAlgorithm, raw: SensorImage) -> Seq<u32> {
    Seq::new(4, |i: int| effective_wb(raw.wb_coeffs@, steps.contains(ProcessingStep::WhiteBalance), i))
}

/// The image after the default crop, when that step applies.
pub open spec fn after_crop(steps: Seq<ProcessingStep>, alg: DemosaicAlgorithm, raw: SensorImage, img: ImageModel) -> ImageModel {
    match raw.crop_area {
        Some(crop) => if steps.contains(ProcessingStep::CropDefault) {
            match default_crop_rect(
                crop,
                raw.active_area,
                steps.contains(ProcessingStep::Demosaic) && steps.contains(ProcessingStep::CropActiveArea),
                Dim2 { w: img.width as usize, h: img.height as usize },
                raw.width,
            ) {
                Some(r) => cropped(img, r),
                None => img,
            }
        } else {
            img
        },
        None => img,
    }
}

/// The outcome of developing `raw` with `dev`: the steps present run in the
/// fixed order rescale, demosaic (over the active area when cropping to it),
/// white balance and calibration, default crop. Tone encoding is left to the
/// caller.
pub open spec fn developed_with(steps: Seq<ProcessingStep>, alg: DemosaicAlgorithm, raw: SensorImage) -> Result<ImageModel, DevelopError> {
    match calibrated_stage(steps, alg, raw) {
        Ok(img) => Ok(after_crop(steps, alg, raw, img)),
        Err(e) => Err(e),
    }
}

/// The image after the input, rescale and demosaic steps.
pub open spec fn demosaiced_stage(steps: Seq<ProcessingStep>, alg: DemosaicAlgorithm, raw: SensorImage) -> Result<ImageModel, DevelopError> {
    if !raw.wf() {
        Err(DevelopError::MalformedSensorData)
    } else if demosaic_too_large(steps, alg, raw) {
        Err(DevelopError::BufferTooLarge)
    } else {
        Ok(after_demosaic(steps, alg, raw, input_model(raw, steps.contains(ProcessingStep::Rescale))))
    }
}

/// The image after white balance and calibration, when they apply.
pub open spec fn after_calibrate(steps: Seq<ProcessingStep>, alg: DemosaicAlgorithm, raw: SensorImage, img: ImageModel) -> Result<ImageModel, DevelopError> {
    if steps.contains(ProcessingStep::Calibrate) {
        if exists|i: int| first_d65(raw.color_matrices@, i) {
            let i = choose|i: int| first_d65(raw.color_matrices@, i);
            Ok(calibrated(img, gains(steps, alg, raw), raw.color_matrices@[i].coeffs@))
        } else {
            Err(DevelopError::MissingD65Matrix)
        }
    } else {
        Ok(img)
    }
}

/// The image after the steps up to calibration.
pub open spec fn calibrated_stage(steps: Seq<ProcessingStep>, alg: DemosaicAlgorithm, raw: SensorImage) -> Result<ImageModel, DevelopError> {
    match demosaiced_stage(steps, alg, raw) {
        Ok(img) => after_calibrate(steps, alg, raw, img),
        Err(e) => Err(e),
    }
}

fn input_samples(raw: &SensorImage, rescale: bool) -> (out: Vec<u32>)
    requires
        raw.wf(),
    ensures
        out@ == input_model(*raw, rescale).data,
{
    let len = raw.data.len();
    let mut out: Vec<u32> = Vec::with_capacity(len);
    let mut k: usize = 0;
    while k < len
        invariant
            raw.wf(),
            len == raw.data@.len(),
            k <= len,
            out@.len() == k,
            forall|j: int| 0 <= j < k ==> out@[j] == input_sample(*raw, rescale, j),
        decreases len - k,
    {
        let v = if rescale {
            let ch: usize = if raw.cpp == 1 {
                match &raw.cfa {
                    Some(c) => {
                        proof {
                            if raw.width == 0 {
                                assert(raw.width * raw.height * raw.cpp == 0) by (nonlinear_arith)
                                    requires
                                        raw.width == 0,
                                ;
                            }
                        }
                        let col = c.color_at(k % raw.width, k / raw.width);
                        if col > 3 {
                            3
                        } else {
                            col as usize
                        }
                    },
                    None => 0,
                }
            } else {
                k % raw.cpp
            };
            rescale_sample(raw.data[k], raw.black_level[ch], raw.white_level[ch])
        } else {
            raw.data[k] as u32
        };
        out.push(v);
        k = k + 1;
    }
    assert(out@ =~= input_model(*raw, rescale).data);
    out
}

impl RawDevelop {
    /// The step runs in this development.
    pub open spec fn has(&self, s: ProcessingStep) -> bool {
        self.steps@.contains(s)
    }

    /// Every step, quality demosaicing.
    pub fn default() -> (r: RawDevelop)
        ensures
            r.steps@ == seq![
                ProcessingStep::Rescale,
                ProcessingStep::Demosaic,
                ProcessingStep::CropActiveArea,
                ProcessingStep::WhiteBalance,
                ProcessingStep::Calibrate,
                ProcessingStep::CropDefault,
                ProcessingStep::SRgb,
            ],
            r.demosaic_algorithm == DemosaicAlgorithm::Quality,
    {
        RawDevelop {
            steps: vec![
                ProcessingStep::Rescale,
                ProcessingStep::Demosaic,
                ProcessingStep::CropActiveArea,
                ProcessingStep::WhiteBalance,
                ProcessingStep::Calibrate,
                ProcessingStep::CropDefault,
                ProcessingStep::SRgb,
            ],
            demosaic_algorithm: DemosaicAlgorithm::Quality,
        }
    }

    pub fn has_step(&self, s: ProcessingStep) -> (r: bool)
        ensures
            r == self.has(s),
    {
        let mut i: usize = 0;
        while i < self.steps.len()
            invariant
                i <= self.steps@.len(),
                forall|j: int| 0 <= j < i ==> self.steps@[j] != s,
            decreases self.steps@.len() - i,
        {
            if self.steps[i] == s {
                return true;
            }
            i = i + 1;
        }
        false
    }

    /// The sensor data as the first intermediate image.
    fn input_stage(&self, raw: &SensorImage) -> (img: Intermediate)
        requires
            raw.wf(),
        ensures
            img@ == input_model(*raw, self.has(ProcessingStep::Rescale)),
            img.wf(),
    {
        let rescale = self.has_step(ProcessingStep::Rescale);
        let data = input_samples(raw, rescale);
        let px = Pixels { width: raw.width, height: raw.height, data };
        if raw.cpp == 1 {
            Intermediate::Monochrome(px)
        } else if raw.cpp == 3 {
            Intermediate::ThreeColor(px)
        } else {
            Intermediate::FourColor(px)
        }
    }

    /// The demosaic step, when it applies.
    #[verifier::rlimit(40)]
    fn demosaic_stage(&self, raw: &SensorImage, img: Intermediate) -> (r: Result<Intermediate, DevelopError>)
        requires
            raw.wf(),
            img.wf(),
            img@ == input_model(*raw, self.has(ProcessingStep::Rescale)),
        ensures
            match r {
                Ok(out) => !demosaic_too_large(self.steps@, self.demosaic_algorithm, *raw) && out@ == after_demosaic(
                    self.steps@,
                    self.demosaic_algorithm,
                    *raw,
                    img@,
                ) && out.wf(),
                Err(e) => demosaic_too_large(self.steps@, self.demosaic_algorithm, *raw) && e
                    == DevelopError::BufferTooLarge,
            },
    {
        let do_demosaic = self.has_step(ProcessingStep::Demosaic);
        let crop_active = self.has_step(ProcessingStep::CropActiveArea);
        match &raw.cfa {
            Some(cfa) => {
                if do_demosaic && raw.cpp == 1 {
                    let whole = Rect { x: 0, y: 0, w: raw.width, h: raw.height };
                    let roi = match raw.active_area {
                        Some(a) => {
                            let clipped = a.intersection(&whole);
                            if crop_active && !clipped.is_empty() {
                                clipped
                            } else {
                                whole
                            }
                        },
                        None => whole,
                    };
                    let area = match roi.w.checked_mul(roi.h) {
                        Some(a) => a,
                        None => {
                            proof {
                                assert(roi.w * roi.h * 4 >= roi.w * roi.h) by (nonlinear_arith)
                                    requires
                                        roi.w * roi.h >= 0,
                                ;
                            }
                            return Err(DevelopError::BufferTooLarge);
                        },
                    };
                    if area.checked_mul(4).is_none() {
                        return Err(DevelopError::BufferTooLarge);
                    }
                    proof {
                        assert(roi.x + roi.w <= raw.width && roi.y + roi.h <= raw.height);
                    }
                    let mosaic = match img {
                        Intermediate::Monochrome(p) => p,
                        Intermediate::ThreeColor(p) => p,
                        Intermediate::FourColor(p) => p,
                    };
                    Ok(demosaic(&mosaic, cfa, roi, self.demosaic_algorithm))
                } else {
                    Ok(img)
                }
            },
            None => Ok(img),
        }
    }

    /// White balance and calibration, when they apply.
    #[verifier::rlimit(40)]
    fn calibrate_stage(&self, raw: &SensorImage, img: Intermediate) -> (r: Result<Intermediate, DevelopError>)
        requires
            raw.wf(),
            img.wf(),
        ensures
            match r {
                Ok(out) => out.wf() && after_calibrate(self.steps@, self.demosaic_algorithm, *raw, img@) == Ok::<
                    ImageModel,
                    DevelopError,
                >(out@),
                Err(e) => after_calibrate(self.steps@, self.demosaic_algorithm, *raw, img@) == Err::<
                    ImageModel,
                    DevelopError,
                >(e),
            },
    {
        if self.has_step(ProcessingStep::Calibrate) {
            let gains_v = white_balance_gains(&raw.wb_coeffs, self.has_step(ProcessingStep::WhiteBalance));
            assert(gains_v@ =~= gains(self.steps@, self.demosaic_algorithm, *raw));
            let idx = match find_d65_matrix(&raw.color_matrices) {
                Ok(i) => i,
                Err(e) => return Err(e),
            };
            proof {
                let c = choose|i: int| first_d65(raw.color_matrices@, i);
                assert(first_d65(raw.color_matrices@, c));
                if c < idx {
                } else if c > idx {
                }
                assert(c == idx);
            }
            Ok(calibrate(img, &gains_v, &raw.color_matrices[idx].coeffs))
        } else {
            Ok(img)
        }
    }

    /// The default crop, when it applies.
    fn crop_stage(&self, raw: &SensorImage, img: Intermediate) -> (out: Intermediate)
        requires
            img.wf(),
        ensures
            out@ == after_crop(self.steps@, self.demosaic_algorithm, *raw, img@),
            out.wf(),
    {
        if self.has_step(ProcessingStep::CropDefault) {
            match raw.crop_area {
                Some(crop) => {
                    let relative = self.has_step(ProcessingStep::Demosaic) && self.has_step(
                        ProcessingStep::CropActiveArea,
                    );
                    let cur = img.dim();
                    match compute_default_crop(crop, raw.active_area, relative, cur, raw.width) {
                        Some(r) => img.crop(r),
                        None => img,
                    }
                },
                None => img,
            }
        } else {
            img
        }
    }

    /// Develops sensor data into an image by the steps present; see [`developed_with`].
    #[verifier::rlimit(40)]
    pub fn develop_intermediate(&self, raw: &SensorImage) -> (r: Result<Intermediate, DevelopError>)
        ensures
            match r {
                Ok(img) => developed_with(self.steps@, self.demosaic_algorithm, *raw) == Ok::<ImageModel, DevelopError>(img@) && img.wf(),
                Err(e) => developed_with(self.steps@, self.demosaic_algorithm, *raw) == Err::<ImageModel, DevelopError>(e),
            },
    {
        if !raw.is_well_formed() {
            return Err(DevelopError::MalformedSensorData);
        }
        let img = self.input_stage(raw);
        let img = match self.demosaic_stage(raw, img) {
            Ok(i) => i,
            Err(e) => return Err(e),
        };
        let img = match self.calibrate_stage(raw, img) {
            Ok(i) => i,
            Err(e) => return Err(e),
        };
        Ok(self.crop_stage(raw, img))
    }
}

/// How far a stage-by-stage development has come.
#[derive(Clone, Copy, Debug, PartialEq, Eq, Structural)]
pub enum Phase {
    /// Nothing done yet.
    Start,
    /// Input read, rescaled and demosaiced.
    Demosaiced,
    /// White balance and calibration done.
    Calibrated,
    /// Default crop done: the image is developed.
    Done,
}

/// A development run one stage at a time, so that the caller can abandon it
/// between stages.
#[derive(Clone, Debug)]
pub struct Development {
    pub phase: Phase,
    pub image: Option<Intermediate>,
}

impl Development {
    pub fn new() -> (d: Development)
        ensures
            d.phase == Phase::Start,
            d.image is None,
    {
        Development { phase: Phase::Start, image: None }
    }

    /// The image holds what the stages so far give for `raw` under `dev`.
    pub open spec fn consistent(&self, dev: RawDevelop, raw: SensorImage) -> bool {
        match self.phase {
            Phase::Start => true,
            Phase::Demosaiced => match self.image {
                Some(i) => raw.wf() && i.wf() && demosaiced_stage(dev.steps@, dev.demosaic_algorithm, raw) == Ok::<
                    ImageModel,
                    DevelopError,
                >(i@),
                None => false,
            },
            Phase::Calibrated => match self.image {
                Some(i) => raw.wf() && i.wf() && calibrated_stage(dev.steps@, dev.demosaic_algorithm, raw) == Ok::<
                    ImageModel,
                    DevelopError,
                >(i@),
                None => false,
            },
            Phase::Done => match self.image {
                Some(i) => i.wf() && developed_with(dev.steps@, dev.demosaic_algorithm, raw) == Ok::<
                    ImageModel,
                    DevelopError,
                >(i@),
                None => false,
            },
        }
    }
}

impl RawDevelop {
    /// Runs the next stage of `d` when the development is still `current`;
    /// otherwise leaves it as it is and reports the cancellation. A stage
    /// that fails reports the error [`developed_with`] gives.
    #[verifier::rlimit(40)]
    pub fn advance(&self, raw: &SensorImage, d: &mut Development, current: bool) -> (r: Result<(), DevelopError>)
        requires
            old(d).consistent(*self, *raw),
        ensures
            !current ==> r == Err::<(), DevelopError>(DevelopError::Cancelled) && *final(d) == *old(d),
            current && old(d).phase == Phase::Start ==> match r {
                Ok(_) => final(d).phase == Phase::Demosaiced && final(d).consistent(*self, *raw),
                Err(e) => demosaiced_stage(self.steps@, self.demosaic_algorithm, *raw) == Err::<ImageModel, DevelopError>(e),
            },
            current && old(d).phase == Phase::Demosaiced ==> match r {
                Ok(_) => final(d).phase == Phase::Calibrated && final(d).consistent(*self, *raw),
                Err(e) => calibrated_stage(self.steps@, self.demosaic_algorithm, *raw) == Err::<ImageModel, DevelopError>(e),
            },
            current && old(d).phase == Phase::Calibrated ==> r is Ok && final(d).phase == Phase::Done
                && final(d).consistent(*self, *raw),
            current && old(d).phase == Phase::Done ==> r is Ok && *final(d) == *old(d),
    {
        if !current {
            return Err(DevelopError::Cancelled);
        }
        match d.phase {
            Phase::Start => {
                if !raw.is_well_formed() {
                    return Err(DevelopError::MalformedSensorData);
                }
                let img = self.input_stage(raw);
                match self.demosaic_stage(raw, img) {
                    Ok(i) => {
                        d.image = Some(i);
                        d.phase = Phase::Demosaiced;
                        Ok(())
                    },
                    Err(e) => Err(e),
                }
            },
            Phase::Demosaiced => {
                let img = match d.image.take() {
                    Some(i) => i,
                    None => return Ok(()),
                };
                match self.calibrate_stage(raw, img) {
                    Ok(i) => {
                        d.image = Some(i);
                        d.phase = Phase::Calibrated;
                        Ok(())
                    },
                    Err(e) => Err(e),
                }
            },
            Phase::Calibrated => {
                let img = match d.image.take() {
                    Some(i) => i,
                    None => return Ok(()),
                };
                d.image = Some(self.crop_stage(raw, img));
                d.phase = Phase::Done;
                Ok(())
            },
            Phase::Done => Ok(()),
        }
    }
}

/// The steps of a development for display, before tone encoding.
pub open spec fn display_steps() -> Seq<ProcessingStep> {
    seq![
        ProcessingStep::Rescale,
        ProcessingStep::Demosaic,
        ProcessingStep::CropActiveArea,
        ProcessingStep::WhiteBalance,
        ProcessingStep::Calibrate,
        ProcessingStep::CropDefault,
    ]
}

pub open spec fn display_algorithm(fast_demosaic: bool) -> DemosaicAlgorithm {
    if fast_demosaic {
        DemosaicAlgorithm::Speed
    } else {
        DemosaicAlgorithm::Quality
    }
}

/// The image a development for display returns before tone encoding: every
/// step but tone encoding, then highlight recovery.
pub open spec fn developed_for_display(raw: SensorImage, fast_demosaic: bool) -> Result<ImageModel, DevelopError> {
    match developed_with(display_steps(), display_algorithm(fast_demosaic), raw) {
        Ok(img) => Ok(highlights_recovered(img, HIGHLIGHT_COMPRESSION_POINT as int)),
        Err(e) => Err(e),
    }
}

/// Develops sensor data for display: every step but tone encoding, with
/// superpixel demosaicing when `fast_demosaic`, then highlight recovery. The
/// result is linear and within `[0, UNIT]`.
pub fn develop_internal(raw: &SensorImage, fast_demosaic: bool) -> (r: Result<Intermediate, DevelopError>)
    ensures
        match r {
            Ok(img) => developed_for_display(*raw, fast_demosaic) == Ok::<ImageModel, DevelopError>(img@)
                && img.wf(),
            Err(e) => developed_for_display(*raw, fast_demosaic) == Err::<ImageModel, DevelopError>(e),
        },
{
    let developer = RawDevelop {
        steps: vec![
            ProcessingStep::Rescale,
            ProcessingStep::Demosaic,
            ProcessingStep::CropActiveArea,
            ProcessingStep::WhiteBalance,
            ProcessingStep::Calibrate,
            ProcessingStep::CropDefault,
        ],
        demosaic_algorithm: if fast_demosaic {
            DemosaicAlgorithm::Speed
        } else {
            DemosaicAlgorithm::Quality
        },
    };
    assert(developer.steps@ =~= display_steps());
    let mut img = match developer.develop_intermediate(raw) {
        Ok(i) => i,
        Err(e) => return Err(e),
    };
    recover_highlights(&mut img, HIGHLIGHT_COMPRESSION_POINT);
    Ok(img)
}

/// No step is chosen without the step it acts through: calibration needs a
/// demosaiced image, white balance is applied by calibration, and cropping to
/// the active area happens while demosaicing.
pub open spec fn steps_consistent(s: Seq<ProcessingStep>) -> bool {
    &&& s.contains(ProcessingStep::Calibrate) ==> s.contains(ProcessingStep::Demosaic)
    &&& s.contains(ProcessingStep::WhiteBalance) ==> s.contains(ProcessingStep::Calibrate)
    &&& s.contains(ProcessingStep::CropActiveArea) ==> s.contains(ProcessingStep::Demosaic)
}

/// The steps of `s` in pipeline order, each once.
pub open spec fn ordered_steps(s: Seq<ProcessingStep>) -> Seq<ProcessingStep> {
    (if s.contains(ProcessingStep::Rescale) { seq![ProcessingStep::Rescale] } else { seq![] }) + (if s.contains(
        ProcessingStep::Demosaic,
    ) {
        seq![ProcessingStep::Demosaic]
    } else {
        seq![]
    }) + (if s.contains(ProcessingStep::CropActiveArea) {
        seq![ProcessingStep::CropActiveArea]
    } else {
        seq![]
    }) + (if s.contains(ProcessingStep::WhiteBalance) {
        seq![ProcessingStep::WhiteBalance]
    } else {
        seq![]
    }) + (if s.contains(ProcessingStep::Calibrate) {
        seq![ProcessingStep::Calibrate]
    } else {
        seq![]
    }) + (if s.contains(ProcessingStep::CropDefault) {
        seq![ProcessingStep::CropDefault]
    } else {
        seq![]
    }) + (if s.contains(ProcessingStep::SRgb) { seq![ProcessingStep::SRgb] } else { seq![] })
}

fn contains_step(steps: &Vec<ProcessingStep>, s: ProcessingStep) -> (r: bool)
    ensures
        r == steps@.contains(s),
{
    let mut i: usize = 0;
    while i < steps.len()
        invariant
            i <= steps@.len(),
            forall|j: int| 0 <= j < i ==> steps@[j] != s,
        decreases steps@.len() - i,
    {
        if steps[i] == s {
            return true;
        }
        i = i + 1;
    }
    false
}

fn push_if(out: &mut Vec<ProcessingStep>, steps: &Vec<ProcessingStep>, s: ProcessingStep)
    ensures
        final(out)@ == old(out)@ + (if steps@.contains(s) { seq![s] } else { seq![] }),
{
    if contains_step(steps, s) {
        out.push(s);
    }
    assert(out@ =~= old(out)@ + (if steps@.contains(s) { seq![s] } else { seq![] }));
}

impl RawDevelopBuilder {
    /// No steps, quality demosaicing.
    pub fn new() -> (r: RawDevelopBuilder)
        ensures
            r.steps@ == Seq::<ProcessingStep>::empty(),
            r.demosaic_algorithm == DemosaicAlgorithm::Quality,
    {
        RawDevelopBuilder { steps: Vec::new(), demosaic_algorithm: DemosaicAlgorithm::Quality }
    }

    /// Adds a step (once).
    pub fn with_step(self, s: ProcessingStep) -> (r: RawDevelopBuilder)
        ensures
            r.steps@ == if self.steps@.contains(s) { self.steps@ } else { self.steps@.push(s) },
            r.demosaic_algorithm == self.demosaic_algorithm,
    {
        let mut b = self;
        if !contains_step(&b.steps, s) {
            b.steps.push(s);
        }
        b
    }

    pub fn with_algorithm(self, a: DemosaicAlgorithm) -> (r: RawDevelopBuilder)
        ensures
            r.steps@ == self.steps@,
            r.demosaic_algorithm == a,
    {
        RawDevelopBuilder { steps: self.steps, demosaic_algorithm: a }
    }

    /// The configuration with the chosen steps in pipeline order; refused
    /// when a step depends on one that was not chosen (see [`steps_consistent`]).
    pub fn build(&self) -> (r: Result<RawDevelop, DevelopError>)
        ensures
            match r {
                Ok(d) => steps_consistent(self.steps@) && d.steps@ == ordered_steps(self.steps@)
                    && d.demosaic_algorithm == self.demosaic_algorithm,
                Err(e) => !steps_consistent(self.steps@) && e == DevelopError::InconsistentSteps,
            },
    {
        let demosaic = contains_step(&self.steps, ProcessingStep::Demosaic);
        let calibrate = contains_step(&self.steps, ProcessingStep::Calibrate);
        let wb = contains_step(&self.steps, ProcessingStep::WhiteBalance);
        let active = contains_step(&self.steps, ProcessingStep::CropActiveArea);
        if (calibrate && !demosaic) || (wb && !calibrate) || (active && !demosaic) {
            return Err(DevelopError::InconsistentSteps);
        }
        let mut out: Vec<ProcessingStep> = Vec::new();
        push_if(&mut out, &self.steps, ProcessingStep::Rescale);
        push_if(&mut out, &self.steps, ProcessingStep::Demosaic);
        push_if(&mut out, &self.steps, ProcessingStep::CropActiveArea);
        push_if(&mut out, &self.steps, ProcessingStep::WhiteBalance);
        push_if(&mut out, &self.steps, ProcessingStep::Calibrate);
        push_if(&mut out, &self.steps, ProcessingStep::CropDefault);
        push_if(&mut out, &self.steps, ProcessingStep::SRgb);
        assert(out@ =~= ordered_steps(self.steps@));
        Ok(RawDevelop { steps: out, demosaic_algorithm: self.demosaic_algorithm })
    }
}

/// A well-formed mosaic with a red/green/blue 2x2 pattern, developed with
/// demosaicing and neither calibration nor cropping, gives a three-color
/// image of the sensor's size (quality) or of half of it in each axis (speed),
/// provided the demosaic buffer fits in memory.
pub proof fn lemma_bayer_development_shape(steps: Seq<ProcessingStep>, alg: DemosaicAlgorithm, raw: SensorImage)
    requires
        raw.wf(),
        raw.cpp == 1,
        raw.cfa is Some,
        raw.cfa->Some_0.spec_is_rgb(),
        raw.cfa->Some_0.width == 2,
        raw.cfa->Some_0.height == 2,
        raw.width * raw.height * 4 <= usize::MAX,
        steps.contains(ProcessingStep::Demosaic),
        !steps.contains(ProcessingStep::CropActiveArea),
        !steps.contains(ProcessingStep::Calibrate),
        !steps.contains(ProcessingStep::CropDefault),
    ensures
        developed_with(steps, alg, raw) is Ok,
        developed_with(steps, alg, raw)->Ok_0.channels == 3,
        alg == DemosaicAlgorithm::Quality ==> developed_with(steps, alg, raw)->Ok_0.width == raw.width
            && developed_with(steps, alg, raw)->Ok_0.height == raw.height,
        alg == DemosaicAlgorithm::Speed ==> developed_with(steps, alg, raw)->Ok_0.width == raw.width / 2
            && developed_with(steps, alg, raw)->Ok_0.height == raw.height / 2,
{
    let roi = demosaic_roi(raw, false);
    assert(roi == (Rect { x: 0, y: 0, w: raw.width, h: raw.height }));
    assert(!demosaic_too_large(steps, alg, raw));
}

} // verus!
