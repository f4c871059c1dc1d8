use rapidraw::metadata::{extract_raw_metadata, normalize_date_string, ExposureTime, GpsCoord, GpsInfo, LensDescription, RawExif};
use rapidraw::text::{to_decimal, trim_str};

fn empty() -> RawExif {
    RawExif {
        make: "Nikon".to_string(),
        model: "  ".to_string(),
        artist: None,
        copyright: None,
        owner_name: None,
        serial_number: None,
        image_number: None,
        user_comment: None,
        date_time_original: None,
        create_date: None,
        modify_date: None,
        offset_time: None,
        offset_time_original: None,
        offset_time_digitized: None,
        sub_sec_time: None,
        sub_sec_time_original: None,
        sub_sec_time_digitized: None,
        lens_model: None,
        lens_make: None,
        lens: None,
        lens_serial_number: None,
        orientation: None,
        fnumber: None,
        aperture_value: None,
        max_aperture_value: None,
        exposure_time: None,
        shutter_speed_value: None,
        iso_speed: None,
        iso_speed_ratings: None,
        recommended_exposure_index: None,
        sensitivity_type: None,
        focal_length: None,
        exposure_bias: None,
        metering_mode: None,
        light_source: None,
        flash: None,
        white_balance: None,
        exposure_program: None,
        exposure_mode: None,
        scene_capture_type: None,
        color_space: None,
        flash_energy: None,
        brightness_value: None,
        subject_distance: None,
        subject_distance_range: None,
        gps: None,
    }
}

fn get<'a>(m: &'a [(String, String)], k: &str) -> Option<&'a str> {
    m.iter().find(|(key, _)| key == k).map(|(_, v)| v.as_str())
}

#[test]
fn dates_are_normalized() {
    assert_eq!(normalize_date_string("\"2023:05:17 10:11:12\" ".to_string()), "2023-05-17 10:11:12");
    assert_eq!(normalize_date_string("  2023:05".to_string()), "2023:05");
    assert_eq!(normalize_date_string("17.05.2023".to_string()), "17.05.2023");
}

#[test]
fn blank_values_are_skipped() {
    let m = extract_raw_metadata(&empty());
    assert_eq!(m, vec![("Make".to_string(), "Nikon".to_string())]);
}

#[test]
fn fields_are_listed_in_order() {
    let mut md = empty();
    md.model = "Z 6".to_string();
    md.date_time_original = Some("2024:01:02 03:04:05".to_string());
    md.lens = Some(LensDescription { lens_make: "Nikon".to_string(), lens_model: "Z 24-70".to_string() });
    md.iso_speed_ratings = Some(400);
    md.fnumber = Some("2.8".to_string());
    md.focal_length = Some("50".to_string());
    md.orientation = Some(6);
    let m = extract_raw_metadata(&md);
    let keys: Vec<&str> = m.iter().map(|(k, _)| k.as_str()).collect();
    assert_eq!(
        keys,
        vec![
            "Make",
            "Model",
            "DateTimeOriginal",
            "LensModel",
            "LensMake",
            "Orientation",
            "FNumber",
            "PhotographicSensitivity",
            "ISOSpeedRatings",
            "FocalLength",
            "FocalLengthIn35mmFilm"
        ]
    );
    assert_eq!(get(&m, "DateTimeOriginal"), Some("2024-01-02 03:04:05"));
    assert_eq!(get(&m, "LensModel"), Some("Z 24-70"));
    assert_eq!(get(&m, "FNumber"), Some("f/2.8"));
    assert_eq!(get(&m, "ISOSpeedRatings"), Some("400"));
    assert_eq!(get(&m, "Orientation"), Some("6"));
}

#[test]
fn exposure_time_texts() {
    let mut md = empty();
    md.exposure_time = Some(ExposureTime { n: 1, d: 250, text: "0.004".to_string() });
    assert_eq!(get(&extract_raw_metadata(&md), "ExposureTime"), Some("1/250 s"));
    md.exposure_time = Some(ExposureTime { n: 10, d: 1250, text: "0.008".to_string() });
    assert_eq!(get(&extract_raw_metadata(&md), "ExposureTime"), Some("1/125 s"));
    md.exposure_time = Some(ExposureTime { n: 5, d: 2, text: "2.5".to_string() });
    assert_eq!(get(&extract_raw_metadata(&md), "ExposureTime"), Some("2.5 s"));
}

#[test]
fn gps_coordinates() {
    let mut md = empty();
    md.gps = Some(GpsInfo {
        latitude: Some(GpsCoord { degrees: "48".to_string(), minutes: "8".to_string(), seconds: "30.5".to_string() }),
        latitude_ref: Some("N".to_string()),
        longitude: None,
        longitude_ref: None,
        altitude: None,
        altitude_ref: Some(0),
        img_direction: None,
        img_direction_ref: None,
        speed: None,
        speed_ref: None,
        status: None,
        measure_mode: None,
        dop: None,
        map_datum: None,
    });
    let m = extract_raw_metadata(&md);
    assert_eq!(get(&m, "GPSLatitude"), Some("48 deg 8 min 30.5 sec"));
    assert_eq!(get(&m, "GPSLatitudeRef"), Some("N"));
    assert_eq!(get(&m, "GPSAltitudeRef"), Some("0"));
}

#[test]
fn decimal_rendering() {
    assert_eq!(to_decimal(0), "0");
    assert_eq!(to_decimal(7), "7");
    assert_eq!(to_decimal(1234567890123), "1234567890123");
    assert_eq!(to_decimal(u64::MAX), u64::MAX.to_string());
}

#[test]
fn trimming_removes_unicode_whitespace() {
    assert_eq!(trim_str("\u{3000}\t a b \u{2009}\n"), "a b");
    assert_eq!(trim_str("   "), "");
    assert_eq!(trim_str("x"), "x");
}
