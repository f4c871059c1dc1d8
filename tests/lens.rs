use rapidraw::lens::{
    get_lens_distortion_params, LensDatabase, Calibration, CalibrationElement, Distortion, DistortionModel, Lens, MultiName, Tca, Vignetting, COEF_ONE,
};

fn dist(model: DistortionModel, focal: u32, k1: i64) -> CalibrationElement {
    CalibrationElement::Distortion(Distortion {
        model,
        focal,
        real_focal: None,
        k1: Some(k1),
        k2: Some(2 * k1),
        k3: None,
        a: Some(k1 + 1),
        b: None,
        c: None,
    })
}

fn tca(focal: u32, vr: i64, vb: i64) -> CalibrationElement {
    CalibrationElement::Tca(Tca {
        model: "linear".to_string(),
        focal,
        vr: Some(vr),
        vb: Some(vb),
        cr: None,
        cb: None,
        br: None,
        bb: None,
    })
}

fn vig(focal: u32, aperture: u32, distance: Option<u32>, k1: i64) -> CalibrationElement {
    CalibrationElement::Vignetting(Vignetting {
        model: "pa".to_string(),
        focal,
        aperture,
        distance,
        k1: Some(k1),
        k2: Some(0),
        k3: None,
    })
}

fn name(lang: Option<&str>, value: &str) -> MultiName {
    MultiName { lang: lang.map(|l| l.to_string()), value: value.to_string() }
}

fn lens(elements: Vec<CalibrationElement>) -> Lens {
    Lens {
        maker: vec![name(None, "Canon")],
        model: vec![name(None, "Canon EF 24-70mm f/2.8L")],
        mount: vec!["Canon EF".to_string()],
        cropfactor: Some(1000),
        calibration: Some(Calibration { elements }),
        type_: None,
        focal: None,
        aspect_ratio: None,
        center: None,
        compat: None,
        notes: None,
        aperture: None,
    }
}

#[test]
fn two_point_distortion_interpolates() {
    let l = lens(vec![dist(DistortionModel::Poly3, 24_000, 100_000), dist(DistortionModel::Poly3, 70_000, 300_000)]);
    let p = l.get_distortion_params(47_000, None, None).unwrap();
    assert_eq!(p.k1, 200_000);
    assert_eq!(p.k2, 400_000);
    assert_eq!(p.k3, 0);
    assert_eq!(p.model, 0);
}

#[test]
fn distortion_exact_and_out_of_range() {
    let l = lens(vec![
        dist(DistortionModel::Poly3, 70_000, 300_000),
        dist(DistortionModel::Poly3, 24_000, 100_000),
        dist(DistortionModel::Poly3, 35_000, -50_000),
    ]);
    assert_eq!(l.get_distortion_params(35_000, None, None).unwrap().k1, -50_000);
    assert_eq!(l.get_distortion_params(10_000, None, None).unwrap().k1, 100_000);
    assert_eq!(l.get_distortion_params(200_000, None, None).unwrap().k1, 300_000);
    // Between 24 and 35: 100000 + (30-24)/(35-24) * (-150000), rounded toward the lower entry.
    assert_eq!(l.get_distortion_params(30_000, None, None).unwrap().k1, 100_000 - 150_000 * 6 / 11);
}

#[test]
fn mixed_models_are_not_interpolated() {
    let l = lens(vec![dist(DistortionModel::Poly3, 24_000, 100_000), dist(DistortionModel::PtLens, 70_000, 300_000)]);
    let p = l.get_distortion_params(47_000, None, None).unwrap();
    assert_eq!((p.k1, p.k2, p.model), (100_000, 200_000, 0));
    let q = l.get_distortion_params(70_000, None, None).unwrap();
    assert_eq!((q.k1, q.k2, q.k3, q.model), (300_001, 0, 0, 1));
}

#[test]
fn empty_categories_are_neutral() {
    let l = lens(vec![]);
    let p = l.get_distortion_params(50_000, None, None).unwrap();
    assert_eq!((p.k1, p.k2, p.k3, p.model), (0, 0, 0, 0));
    assert_eq!((p.tca_vr, p.tca_vb), (COEF_ONE, COEF_ONE));
    assert_eq!((p.vig_k1, p.vig_k2, p.vig_k3), (0, 0, 0));
}

#[test]
fn uncalibrated_lens_has_neutral_parameters() {
    let mut l = lens(vec![]);
    l.calibration = None;
    let p = l.get_distortion_params(50_000, None, None).unwrap();
    assert_eq!((p.k1, p.k2, p.k3, p.model), (0, 0, 0, 0));
    assert_eq!((p.tca_vr, p.tca_vb), (COEF_ONE, COEF_ONE));
    assert_eq!((p.vig_k1, p.vig_k2, p.vig_k3), (0, 0, 0));
}

#[test]
fn tca_interpolates() {
    let l = lens(vec![tca(20_000, 1_000_000, 1_000_400), tca(40_000, 1_000_200, 1_000_000)]);
    let p = l.get_distortion_params(30_000, None, None).unwrap();
    assert_eq!((p.tca_vr, p.tca_vb), (1_000_100, 1_000_200));
}

#[test]
fn vignetting_picks_nearest_aperture_then_distance() {
    let l = lens(vec![
        vig(50_000, 2_800, Some(1_000_000), -10),
        vig(50_000, 4_000, Some(1_000_000), -20),
        vig(50_000, 4_000, Some(10_000_000), -30),
        vig(50_000, 8_000, None, -40),
    ]);
    // Default aperture 3.5 is nearest to 4.0; default distance 1000 picks the first 4.0 entry.
    assert_eq!(l.get_distortion_params(50_000, None, None).unwrap().vig_k1, -20);
    assert_eq!(l.get_distortion_params(50_000, Some(4_000), Some(9_000_000)).unwrap().vig_k1, -30);
    assert_eq!(l.get_distortion_params(50_000, Some(16_000), None).unwrap().vig_k1, -40);
}

#[test]
fn vignetting_interpolates_between_focal_groups() {
    let l = lens(vec![vig(20_000, 4_000, None, -100), vig(40_000, 4_000, None, -300), vig(60_000, 4_000, None, 0)]);
    assert_eq!(l.get_distortion_params(30_000, None, None).unwrap().vig_k1, -200);
    assert_eq!(l.get_distortion_params(10_000, None, None).unwrap().vig_k1, -100);
    assert_eq!(l.get_distortion_params(40_000, None, None).unwrap().vig_k1, -300);
    assert_eq!(l.get_distortion_params(90_000, None, None).unwrap().vig_k1, 0);
}

#[test]
fn names_prefer_english() {
    let mut l = lens(vec![]);
    l.maker = vec![name(Some("de"), "Kanon"), name(Some("en"), "Canon")];
    assert_eq!(l.get_maker(), "Canon");
    l.maker = vec![];
    assert_eq!(l.get_maker(), "Misc");
    l.model = vec![];
    assert_eq!(l.get_full_model_name(), "Unknown Model");
}

#[test]
fn name_drops_maker_prefix() {
    let l = lens(vec![]);
    assert_eq!(l.get_full_model_name(), "Canon EF 24-70mm f/2.8L");
    assert_eq!(l.get_name(), "EF 24-70mm f/2.8L");
    let mut m = lens(vec![]);
    m.maker = vec![name(None, "CANON")];
    m.model = vec![name(None, "canon 50mm")];
    assert_eq!(m.get_name(), "50mm");
    m.model = vec![name(None, "Canon")];
    assert_eq!(m.get_name(), "Canon");
}

#[test]
fn database_lookup_by_maker_and_name() {
    let mut other = lens(vec![dist(DistortionModel::Poly3, 50_000, 7)]);
    other.model = vec![name(None, "Canon EF 50mm f/1.8")];
    let zoom = lens(vec![dist(DistortionModel::Poly3, 24_000, 100_000), dist(DistortionModel::Poly3, 70_000, 300_000)]);
    let db = LensDatabase { cameras: vec![], lenses: vec![other, zoom] };
    assert_eq!(db.find_lens("Canon", "EF 24-70mm f/2.8L"), Some(1));
    assert_eq!(db.find_lens("Nikon", "EF 24-70mm f/2.8L"), None);
    let p = get_lens_distortion_params(&db, "Canon", "EF 24-70mm f/2.8L", 47_000, None, None).unwrap();
    assert_eq!(p.k1, 200_000);
    assert!(get_lens_distortion_params(&db, "Canon", "EF 85mm", 47_000, None, None).is_none());
}
