use rapidraw::calibrate::{calibrate, find_d65_matrix, white_balance_gains, ColorMatrix, DevelopError, Illuminant};
use rapidraw::demosaic::{demosaic, Cfa, DemosaicAlgorithm};
use rapidraw::develop::{develop_internal, Development, Phase, ProcessingStep, RawDevelop, RawDevelopBuilder, SensorImage};
use rapidraw::fixed::{COEFF_ONE, UNIT};
use rapidraw::geometry::{compute_default_crop, Dim2, Rect};
use rapidraw::highlight::{recover_highlights, recover_pixel, rescale_sample, HIGHLIGHT_COMPRESSION_POINT};
use rapidraw::intermediate::{Intermediate, Pixels};

fn rggb() -> Cfa {
    Cfa { name: "RGGB".to_string(), width: 2, height: 2, colors: vec![0, 1, 1, 2] }
}

fn xtrans() -> Cfa {
    let colors = vec![
        1, 1, 0, 1, 1, 2, //
        1, 1, 2, 1, 1, 0, //
        2, 0, 1, 0, 2, 1, //
        1, 1, 2, 1, 1, 0, //
        1, 1, 0, 1, 1, 2, //
        0, 2, 1, 2, 0, 1,
    ];
    Cfa { name: "XTRANS".to_string(), width: 6, height: 6, colors }
}

fn mosaic(w: usize, h: usize, f: impl Fn(usize, usize) -> u32) -> Pixels {
    let mut data = Vec::new();
    for y in 0..h {
        for x in 0..w {
            data.push(f(x, y));
        }
    }
    Pixels { width: w, height: h, data }
}

fn identity3() -> Vec<i32> {
    let one = COEFF_ONE as i32;
    vec![one, 0, 0, 0, one, 0, 0, 0, one]
}

fn sensor(w: usize, h: usize, value: u16, cfa: Option<Cfa>) -> SensorImage {
    SensorImage {
        make: "Make".to_string(),
        model: "Model".to_string(),
        width: w,
        height: h,
        cpp: 1,
        data: vec![value; w * h],
        cfa,
        black_level: vec![0; 4],
        white_level: vec![u16::MAX as u32; 4],
        wb_coeffs: vec![Some(COEFF_ONE); 4],
        color_matrices: vec![ColorMatrix { illuminant: Illuminant::D65, coeffs: identity3() }],
        active_area: None,
        crop_area: None,
    }
}

#[test]
fn bayer_quality_keeps_resolution() {
    let m = mosaic(4, 4, |x, y| (x + 4 * y) as u32 * 10);
    let out = demosaic(&m, &rggb(), Rect::new(0, 0, 4, 4), DemosaicAlgorithm::Quality);
    match out {
        Intermediate::ThreeColor(p) => {
            assert_eq!((p.width, p.height), (4, 4));
            assert_eq!(p.data.len(), 4 * 4 * 3);
        }
        _ => panic!("expected a three-color image"),
    }
}

#[test]
fn bayer_speed_halves_resolution() {
    let m = mosaic(4, 4, |x, y| (x + 4 * y) as u32 * 10);
    let out = demosaic(&m, &rggb(), Rect::new(0, 0, 4, 4), DemosaicAlgorithm::Speed);
    match out {
        Intermediate::ThreeColor(p) => {
            assert_eq!((p.width, p.height), (2, 2));
            // Block (0,0): R=0, G=(10+40)/2, B=50.
            assert_eq!(&p.data[0..3], &[0, 25, 50]);
            // Block (1,0): R=20, G=(30+60)/2, B=70.
            assert_eq!(&p.data[3..6], &[20, 45, 70]);
        }
        _ => panic!("expected a three-color image"),
    }
}

#[test]
fn bayer_quality_interpolates_missing_colors() {
    let m = mosaic(4, 4, |x, y| (x + 4 * y) as u32 * 10);
    let out = demosaic(&m, &rggb(), Rect::new(0, 0, 4, 4), DemosaicAlgorithm::Quality);
    let p = out.as_pixels();
    // Pixel (1,1) is blue (sample 50); red comes from (0,0),(2,0),(0,2),(2,2);
    // green from (1,0),(0,1),(2,1),(1,2).
    let base = (1 * 4 + 1) * 3;
    assert_eq!(p.data[base], (0 + 20 + 80 + 100) / 4);
    assert_eq!(p.data[base + 1], (10 + 40 + 60 + 90) / 4);
    assert_eq!(p.data[base + 2], 50);
}

#[test]
fn bayer_quality_follows_edges_for_green() {
    // A horizontal edge between rows 2 and 3.
    let m = mosaic(6, 6, |_, y| if y < 3 { 100 } else { 1000 });
    let out = demosaic(&m, &rggb(), Rect::new(0, 0, 6, 6), DemosaicAlgorithm::Quality);
    let p = out.as_pixels();
    // Blue site (1,3): left and right greens agree, up and down differ.
    assert_eq!(p.data[(3 * 6 + 1) * 3 + 1], 1000);
    // Red site (2,2): up (2,1) = 100 and down (2,3) = 1000 differ, left and right agree.
    assert_eq!(p.data[(2 * 6 + 2) * 3 + 1], 100);
}

#[test]
fn xtrans_dimensions() {
    let m = mosaic(12, 12, |x, y| (x * 7 + y * 3) as u32);
    let q = demosaic(&m, &xtrans(), Rect::new(0, 0, 12, 12), DemosaicAlgorithm::Quality);
    assert_eq!(q.channel_count(), 3);
    assert_eq!(q.dim(), Dim2 { w: 12, h: 12 });
    let s = demosaic(&m, &xtrans(), Rect::new(0, 0, 12, 12), DemosaicAlgorithm::Speed);
    assert_eq!(s.channel_count(), 3);
    assert_eq!(s.dim(), Dim2 { w: 6, h: 6 });
}

#[test]
fn four_color_pattern_gives_four_channels() {
    let cfa = Cfa { name: "CYGM".to_string(), width: 2, height: 2, colors: vec![0, 1, 2, 3] };
    let m = mosaic(4, 4, |_, _| 500);
    let out = demosaic(&m, &cfa, Rect::new(0, 0, 4, 4), DemosaicAlgorithm::Quality);
    assert_eq!(out.channel_count(), 4);
    assert!(out.as_pixels().data.iter().all(|&v| v == 500));
    let s = demosaic(&m, &cfa, Rect::new(0, 0, 4, 4), DemosaicAlgorithm::Speed);
    assert_eq!(s.channel_count(), 4);
    assert_eq!(s.dim(), Dim2 { w: 2, h: 2 });
}

#[test]
fn unknown_pattern_passes_through() {
    let cfa = Cfa { name: "odd".to_string(), width: 2, height: 1, colors: vec![0, 7] };
    let m = mosaic(4, 2, |x, _| x as u32);
    let out = demosaic(&m, &cfa, Rect::new(0, 0, 4, 2), DemosaicAlgorithm::Quality);
    match out {
        Intermediate::Monochrome(p) => assert_eq!(p.data, m.data),
        _ => panic!("expected the mosaic back"),
    }
}

#[test]
fn demosaic_works_within_region() {
    let m = mosaic(6, 6, |_, _| 9);
    let out = demosaic(&m, &rggb(), Rect::new(1, 1, 4, 2), DemosaicAlgorithm::Quality);
    assert_eq!(out.dim(), Dim2 { w: 4, h: 2 });
}

#[test]
fn calibrate_identity_round_trip() {
    let p = Pixels { width: 2, height: 1, data: vec![100, 200, 300, 7, 8, 9] };
    let g = vec![COEFF_ONE; 4];
    let out = calibrate(Intermediate::ThreeColor(p.clone()), &g, &identity3());
    assert_eq!(out.as_pixels().data, p.data);
}

#[test]
fn calibrate_four_channels_projects_to_three() {
    let p = Pixels { width: 1, height: 1, data: vec![100, 200, 300, 400] };
    let one = COEFF_ONE as i32;
    let m = vec![one, 0, 0, 0, one, 0, 0, 0, one, one, one, one];
    let out = calibrate(Intermediate::FourColor(p), &vec![COEFF_ONE; 4], &m);
    assert_eq!(out.channel_count(), 3);
    assert_eq!(out.as_pixels().data, vec![500, 600, 700]);
}

#[test]
fn calibrate_applies_gains_then_matrix() {
    let p = Pixels { width: 1, height: 1, data: vec![1000, 1000, 1000] };
    let g = vec![20000, 10000, 15000, 10000];
    // Output red = 0.5 * r' + 0.5 * g'; green = g'; blue = b' - 0.25 * r'.
    let m = vec![5000, 0, -2500, 5000, 10000, 0, 0, 0, 10000];
    let out = calibrate(Intermediate::ThreeColor(p), &g, &m);
    assert_eq!(out.as_pixels().data, vec![1500, 1000, 1000]);
}

#[test]
fn calibrate_clamps_negative_to_zero() {
    let p = Pixels { width: 1, height: 1, data: vec![1000, 0, 0] };
    let m = vec![-10000, -10000, -10000, 0, 0, 0, 0, 0, 0];
    let out = calibrate(Intermediate::ThreeColor(p), &vec![COEFF_ONE; 4], &m);
    assert_eq!(out.as_pixels().data, vec![0, 0, 0]);
}

#[test]
fn white_balance_gains_are_neutral_where_unmeasured_or_disabled() {
    let wb = vec![Some(21000), None, Some(15000), None];
    assert_eq!(white_balance_gains(&wb, true), vec![21000, COEFF_ONE, 15000, COEFF_ONE]);
    assert_eq!(white_balance_gains(&wb, false), vec![COEFF_ONE; 4]);
}

#[test]
fn d65_matrix_lookup() {
    let ms = vec![
        ColorMatrix { illuminant: Illuminant::A, coeffs: vec![1] },
        ColorMatrix { illuminant: Illuminant::D65, coeffs: vec![2] },
        ColorMatrix { illuminant: Illuminant::D65, coeffs: vec![3] },
    ];
    assert_eq!(find_d65_matrix(&ms), Ok(1));
    assert_eq!(find_d65_matrix(&ms[..1].to_vec()), Err(DevelopError::MissingD65Matrix));
}

#[test]
fn rescale_maps_black_and_white() {
    assert_eq!(rescale_sample(100, 100, 1100), 0);
    assert_eq!(rescale_sample(50, 100, 1100), 0);
    assert_eq!(rescale_sample(1100, 100, 1100), UNIT);
    assert_eq!(rescale_sample(600, 100, 1100), UNIT / 2);
    assert_eq!(rescale_sample(2100, 100, 1100), 2 * UNIT);
    // Degenerate levels: the denominator is floored at one.
    assert_eq!(rescale_sample(5, 4, 4), UNIT);
}

#[test]
fn highlight_below_white_is_unchanged() {
    let (r, g, b) = recover_pixel(100, UNIT, 30000, HIGHLIGHT_COMPRESSION_POINT);
    assert_eq!((r, g, b), (100, UNIT, 30000));
}

#[test]
fn highlight_compression_pulls_toward_neutral() {
    let cp = HIGHLIGHT_COMPRESSION_POINT;
    let (r, g, b) = recover_pixel(2 * UNIT, UNIT, 0, cp);
    // Maximum channel is kept (then clamped to white); the others keep their order.
    assert_eq!(r, UNIT);
    assert!(g <= r && b <= g);
    // factor = (cp - 2U) / (cp - U); green pulled = U * factor; rescaled by 2U / (2U * factor).
    let num = (cp - 2 * UNIT) as u64;
    let den = (cp - UNIT) as u64;
    let pulled_g = UNIT as u64 * num / den;
    let pulled_max = 2 * UNIT as u64 * num / den;
    let expected_g = (pulled_g * 2 * UNIT as u64 / pulled_max).min(UNIT as u64) as u32;
    assert_eq!(g, expected_g);
    assert_eq!(b, 0);
}

#[test]
fn highlight_past_compression_point_turns_neutral() {
    let (r, g, b) = recover_pixel(3 * UNIT, 2 * UNIT, UNIT + 5, HIGHLIGHT_COMPRESSION_POINT);
    assert_eq!((r, g, b), (UNIT, UNIT, UNIT));
}

#[test]
fn highlight_keeps_channel_order() {
    let cp = HIGHLIGHT_COMPRESSION_POINT;
    for &(r, g, b) in &[(90000u32, 70000u32, 10000u32), (66000, 80000, 65000), (10, 100000, 99999)] {
        let (r2, g2, b2) = recover_pixel(r, g, b, cp);
        let pairs = [(r, g, r2, g2), (g, b, g2, b2), (r, b, r2, b2), (g, r, g2, r2), (b, g, b2, g2), (b, r, b2, r2)];
        for &(u, v, u2, v2) in &pairs {
            if u <= v {
                assert!(u2 <= v2);
            }
        }
    }
}

#[test]
fn highlight_clamps_monochrome() {
    let mut img = Intermediate::Monochrome(Pixels { width: 3, height: 1, data: vec![0, 70000, 100] });
    recover_highlights(&mut img, HIGHLIGHT_COMPRESSION_POINT);
    assert_eq!(img.as_pixels().data, vec![0, UNIT, 100]);
}

#[test]
fn end_to_end_uniform_bayer() {
    let raw = sensor(4, 4, 1000, Some(rggb()));
    let dev = RawDevelop { steps: vec![ProcessingStep::Demosaic, ProcessingStep::Calibrate], demosaic_algorithm: DemosaicAlgorithm::Quality };
    let out = dev.develop_intermediate(&raw).unwrap();
    assert_eq!(out.channel_count(), 3);
    assert_eq!(out.dim(), Dim2 { w: 4, h: 4 });
    assert!(out.as_pixels().data.iter().all(|&v| v == 1000));
}

#[test]
fn end_to_end_rescaled_to_white() {
    let mut raw = sensor(4, 4, 4095, Some(rggb()));
    raw.white_level = vec![4095; 4];
    raw.black_level = vec![0; 4];
    let out = develop_internal(&raw, false).unwrap();
    assert!(out.as_pixels().data.iter().all(|&v| v == UNIT));
    let fast = develop_internal(&raw, true).unwrap();
    assert_eq!(fast.dim(), Dim2 { w: 2, h: 2 });
}

#[test]
fn missing_d65_is_an_error() {
    let mut raw = sensor(4, 4, 10, Some(rggb()));
    raw.color_matrices = vec![ColorMatrix { illuminant: Illuminant::D50, coeffs: identity3() }];
    let dev = RawDevelop::default();
    assert_eq!(dev.develop_intermediate(&raw).err(), Some(DevelopError::MissingD65Matrix));
    assert_eq!(
        DevelopError::MissingD65Matrix.message(),
        "Calibration failed: Color matrix for D65 illuminant not found"
    );
}

#[test]
fn malformed_sensor_is_an_error() {
    let mut raw = sensor(4, 4, 10, Some(rggb()));
    raw.data.pop();
    let dev = RawDevelop::default();
    assert_eq!(dev.develop_intermediate(&raw).err(), Some(DevelopError::MalformedSensorData));
}

#[test]
fn active_area_and_default_crop() {
    let mut raw = sensor(8, 8, 1000, Some(rggb()));
    raw.active_area = Some(Rect::new(2, 2, 6, 6));
    raw.crop_area = Some(Rect::new(3, 3, 4, 4));
    let dev = RawDevelop { steps: vec![ProcessingStep::Demosaic, ProcessingStep::CropActiveArea, ProcessingStep::CropDefault], demosaic_algorithm: DemosaicAlgorithm::Quality };
    let out = dev.develop_intermediate(&raw).unwrap();
    assert_eq!(out.dim(), Dim2 { w: 4, h: 4 });
}

#[test]
fn default_crop_follows_half_resolution() {
    let r = compute_default_crop(Rect::new(4, 4, 8, 8), Some(Rect::new(0, 0, 16, 16)), true, Dim2 { w: 8, h: 8 }, 16);
    assert_eq!(r, Some(Rect::new(2, 2, 4, 4)));
    // A crop covering the whole image is no crop.
    let none = compute_default_crop(Rect::new(0, 0, 8, 8), None, false, Dim2 { w: 8, h: 8 }, 8);
    assert_eq!(none, None);
    // Nor is one of the image's size at an offset.
    let shifted = compute_default_crop(Rect::new(1, 0, 8, 8), None, false, Dim2 { w: 8, h: 8 }, 8);
    assert_eq!(shifted, None);
    // A smaller crop reaching past the image is cut to the image.
    let clipped = compute_default_crop(Rect::new(6, 6, 4, 4), None, false, Dim2 { w: 8, h: 8 }, 8);
    assert_eq!(clipped, Some(Rect::new(6, 6, 2, 2)));
}

#[test]
fn rect_intersection_and_adapt() {
    let a = Rect::new(2, 2, 6, 6);
    let b = Rect::new(4, 0, 10, 5);
    assert_eq!(a.intersection(&b), Rect::new(4, 2, 4, 3));
    assert_eq!(Rect::new(4, 2, 4, 3).adapt(&a), Rect::new(2, 0, 4, 3));
    assert!(Rect::new(0, 0, 10, 10).intersection(&Rect::new(20, 20, 1, 1)).is_empty());
}

#[test]
fn builder_orders_and_dedups_steps() {
    let dev = RawDevelopBuilder::new()
        .with_step(ProcessingStep::Calibrate)
        .with_step(ProcessingStep::Demosaic)
        .with_step(ProcessingStep::Calibrate)
        .with_algorithm(DemosaicAlgorithm::Speed)
        .build()
        .unwrap();
    assert_eq!(dev.steps, vec![ProcessingStep::Demosaic, ProcessingStep::Calibrate]);
    assert_eq!(dev.demosaic_algorithm, DemosaicAlgorithm::Speed);
    assert!(dev.has_step(ProcessingStep::Demosaic));
    assert!(!dev.has_step(ProcessingStep::SRgb));
}

#[test]
fn builder_refuses_dependent_step_alone() {
    let r = RawDevelopBuilder::new().with_step(ProcessingStep::Calibrate).build();
    assert_eq!(r.err(), Some(DevelopError::InconsistentSteps));
    let r = RawDevelopBuilder::new()
        .with_step(ProcessingStep::Demosaic)
        .with_step(ProcessingStep::WhiteBalance)
        .build();
    assert_eq!(r.err(), Some(DevelopError::InconsistentSteps));
    let ok = RawDevelopBuilder::new().with_step(ProcessingStep::Rescale).with_step(ProcessingStep::SRgb).build();
    assert_eq!(ok.unwrap().steps, vec![ProcessingStep::Rescale, ProcessingStep::SRgb]);
}

#[test]
fn default_development_runs_every_step() {
    let dev = RawDevelop::default();
    assert_eq!(dev.steps.len(), 7);
    assert_eq!(dev.demosaic_algorithm, DemosaicAlgorithm::Quality);
    assert_eq!(DemosaicAlgorithm::default(), DemosaicAlgorithm::Quality);
}

#[test]
fn sixteen_bit_samples() {
    let img = Intermediate::Monochrome(Pixels { width: 3, height: 1, data: vec![0, UNIT / 2, UNIT + 9] });
    assert_eq!(img.to_u16_samples(), vec![0, 32768, 65535]);
}

#[test]
fn empty_sensor_develops_to_empty_image() {
    let raw = sensor(0, 0, 0, Some(rggb()));
    let out = RawDevelop::default().develop_intermediate(&raw).unwrap();
    assert_eq!(out.channel_count(), 3);
    assert_eq!(out.dim(), Dim2 { w: 0, h: 0 });
    assert!(out.as_pixels().data.is_empty());
}

#[test]
fn three_channel_sensor_skips_demosaic() {
    let mut raw = sensor(2, 1, 0, None);
    raw.cpp = 3;
    raw.data = vec![10, 20, 30, 40, 50, 60];
    let dev = RawDevelop { steps: vec![ProcessingStep::Demosaic, ProcessingStep::Calibrate], demosaic_algorithm: DemosaicAlgorithm::Quality };
    let out = dev.develop_intermediate(&raw).unwrap();
    assert_eq!(out.as_pixels().data, vec![10, 20, 30, 40, 50, 60]);
}

#[test]
fn staged_development_matches_one_call() {
    let mut raw = sensor(6, 6, 0, Some(rggb()));
    raw.data = (0..36).map(|i| (i * 97 % 4096) as u16).collect();
    raw.white_level = vec![4095; 4];
    let dev = RawDevelop::default();
    let mut d = Development::new();
    let mut stages = 0;
    while d.phase != Phase::Done {
        dev.advance(&raw, &mut d, true).unwrap();
        stages += 1;
    }
    assert_eq!(stages, 3);
    let whole = dev.develop_intermediate(&raw).unwrap();
    assert_eq!(d.image.unwrap().as_pixels().data, whole.as_pixels().data);
}

#[test]
fn superseded_development_is_cancelled() {
    let raw = sensor(4, 4, 100, Some(rggb()));
    let dev = RawDevelop::default();
    let mut d = Development::new();
    dev.advance(&raw, &mut d, true).unwrap();
    assert_eq!(d.phase, Phase::Demosaiced);
    assert_eq!(dev.advance(&raw, &mut d, false), Err(DevelopError::Cancelled));
    assert_eq!(d.phase, Phase::Demosaiced);
}
