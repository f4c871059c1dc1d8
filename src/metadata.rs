//! The key/value listing of a RAW file's metadata.
use vstd::prelude::*;
use vstd::string::{StrSliceExecFns, StringExecFns};
use crate::text::{decimal, remove_quotes, to_decimal, trim_str, trimmed, without_quotes};

verus! {

/// A date `YYYY:MM:DD...` with its separators turned into dashes; other text unchanged.
pub open spec fn dashed_date(clean: Seq<char>) -> Seq<char> {
    if clean.len() >= 10 && clean[4] == ':' && clean[7] == ':' {
        clean.update(4, '-').update(7, '-')
    } else {
        clean
    }
}

/// Turns the separators of an already trimmed `YYYY:MM:DD` date into dashes.
pub fn normalize_trimmed_date(clean: &str) -> (r: String)
    ensures
        r@ == dashed_date(clean@),
{
    let len = clean.unicode_len();
    if len >= 10 && clean.get_char(4) == ':' && clean.get_char(7) == ':' {
        let mut out = String::from_str(clean.substring_char(0, 4));
        out.append("-");
        out.append(clean.substring_char(5, 7));
        out.append("-");
        out.append(clean.substring_char(8, len));
        proof {
            reveal_strlit("-");
        }
        assert(out@ =~= dashed_date(clean@));
        out
    } else {
        String::from_str(clean)
    }
}

/// A date string without quotes and surrounding whitespace, with a
/// `YYYY:MM:DD` date separated by dashes.
pub fn normalize_date_string(value: String) -> (r: String)
    ensures
        r@ == dashed_date(trimmed(without_quotes(value@))),
{
    let unquoted = remove_quotes(value.as_str());
    let clean = trim_str(unquoted.as_str());
    normalize_trimmed_date(clean)
}

/// A camera-reported rational as read from the file, with its decimal text.
#[derive(Clone, Debug)]
pub struct ExposureTime {
    pub n: u32,
    pub d: u32,
    /// The value `n / d` as decimal text (`0` when `d` is 0).
    pub text: String,
}

/// The three parts of a GPS coordinate as decimal text.
#[derive(Clone, Debug)]
pub struct GpsCoord {
    pub degrees: String,
    pub minutes: String,
    pub seconds: String,
}

/// Lens identity reported apart from the EXIF fields.
#[derive(Clone, Debug)]
pub struct LensDescription {
    pub lens_make: String,
    pub lens_model: String,
}

/// The metadata a RAW decoder reports. Non-integer numbers are given as
/// their decimal text.
#[derive(Clone, Debug)]
pub struct RawExif {
    pub make: String,
    pub model: String,
    pub artist: Option<String>,
    pub copyright: Option<String>,
    pub owner_name: Option<String>,
    pub serial_number: Option<String>,
    pub image_number: Option<u32>,
    pub user_comment: Option<String>,
    pub date_time_original: Option<String>,
    pub create_date: Option<String>,
    pub modify_date: Option<String>,
    pub offset_time: Option<String>,
    pub offset_time_original: Option<String>,
    pub offset_time_digitized: Option<String>,
    pub sub_sec_time: Option<String>,
    pub sub_sec_time_original: Option<String>,
    pub sub_sec_time_digitized: Option<String>,
    pub lens_model: Option<String>,
    pub lens_make: Option<String>,
    pub lens: Option<LensDescription>,
    pub lens_serial_number: Option<String>,
    pub orientation: Option<u16>,
    pub fnumber: Option<String>,
    pub aperture_value: Option<String>,
    pub max_aperture_value: Option<String>,
    pub exposure_time: Option<ExposureTime>,
    pub shutter_speed_value: Option<String>,
    pub iso_speed: Option<u32>,
    pub iso_speed_ratings: Option<u32>,
    pub recommended_exposure_index: Option<u32>,
    pub sensitivity_type: Option<u16>,
    pub focal_length: Option<String>,
    pub exposure_bias: Option<String>,
    pub metering_mode: Option<u16>,
    pub light_source: Option<u16>,
    pub flash: Option<u16>,
    pub white_balance: Option<u16>,
    pub exposure_program: Option<u16>,
    pub exposure_mode: Option<u16>,
    pub scene_capture_type: Option<u16>,
    pub color_space: Option<u16>,
    pub flash_energy: Option<String>,
    pub brightness_value: Option<String>,
    pub subject_distance: Option<String>,
    pub subject_distance_range: Option<u16>,
    pub gps: Option<GpsInfo>,
}

/// GPS fields of the metadata.
#[derive(Clone, Debug)]
pub struct GpsInfo {
    pub latitude: Option<GpsCoord>,
    pub latitude_ref: Option<String>,
    pub longitude: Option<GpsCoord>,
    pub longitude_ref: Option<String>,
    pub altitude: Option<String>,
    pub altitude_ref: Option<u8>,
    pub img_direction: Option<String>,
    pub img_direction_ref: Option<String>,
    pub speed: Option<String>,
    pub speed_ref: Option<String>,
    pub status: Option<String>,
    pub measure_mode: Option<String>,
    pub dop: Option<String>,
    pub map_datum: Option<String>,
}

/// The listing as key and value texts.
pub open spec fn entries_view(v: Seq<(String, String)>) -> Seq<(Seq<char>, Seq<char>)> {
    v.map_values(|p: (String, String)| (p.0@, p.1@))
}

/// The entry for `key`, present when the value is not blank.
pub open spec fn entry(key: Seq<char>, val: Seq<char>) -> Seq<(Seq<char>, Seq<char>)> {
    if trimmed(val).len() > 0 {
        seq![(key, val)]
    } else {
        Seq::empty()
    }
}

pub open spec fn opt_entry(key: Seq<char>, val: Option<String>) -> Seq<(Seq<char>, Seq<char>)> {
    match val {
        Some(v) => entry(key, v@),
        None => Seq::empty(),
    }
}

pub open spec fn num_entry(key: Seq<char>, val: Option<u32>) -> Seq<(Seq<char>, Seq<char>)> {
    match val {
        Some(v) => entry(key, decimal(v as nat)),
        None => Seq::empty(),
    }
}

pub open spec fn short_entry(key: Seq<char>, val: Option<u16>) -> Seq<(Seq<char>, Seq<char>)> {
    match val {
        Some(v) => entry(key, decimal(v as nat)),
        None => Seq::empty(),
    }
}

pub open spec fn date_entry(key: Seq<char>, val: Option<String>) -> Seq<(Seq<char>, Seq<char>)> {
    match val {
        Some(v) => entry(key, dashed_date(trimmed(without_quotes(v@)))),
        None => Seq::empty(),
    }
}

/// Adds `(key, val)` when `val` is not blank.
pub fn insert_if_present(map: &mut Vec<(String, String)>, key: &str, val: String)
    ensures
        entries_view(final(map)@) == entries_view(old(map)@) + entry(key@, val@),
{
    let t = trim_str(val.as_str());
    if t.unicode_len() > 0 {
        map.push((String::from_str(key), val));
        assert(entries_view(map@) =~= entries_view(old(map)@) + entry(key@, val@));
    } else {
        assert(entries_view(map@) =~= entries_view(old(map)@) + entry(key@, val@));
    }
}

fn insert_opt(map: &mut Vec<(String, String)>, key: &str, val: &Option<String>)
    ensures
        entries_view(final(map)@) == entries_view(old(map)@) + opt_entry(key@, *val),
{
    match val {
        Some(v) => insert_if_present(map, key, v.clone()),
        None => {
            assert(entries_view(map@) =~= entries_view(old(map)@) + opt_entry(key@, *val));
        },
    }
}

fn insert_num(map: &mut Vec<(String, String)>, key: &str, val: Option<u32>)
    ensures
        entries_view(final(map)@) == entries_view(old(map)@) + num_entry(key@, val),
{
    match val {
        Some(v) => insert_if_present(map, key, to_decimal(v as u64)),
        None => {
            assert(entries_view(map@) =~= entries_view(old(map)@) + num_entry(key@, val));
        },
    }
}

fn insert_short(map: &mut Vec<(String, String)>, key: &str, val: Option<u16>)
    ensures
        entries_view(final(map)@) == entries_view(old(map)@) + short_entry(key@, val),
{
    match val {
        Some(v) => insert_if_present(map, key, to_decimal(v as u64)),
        None => {
            assert(entries_view(map@) =~= entries_view(old(map)@) + short_entry(key@, val));
        },
    }
}

fn insert_date(map: &mut Vec<(String, String)>, key: &str, val: &Option<String>)
    ensures
        entries_view(final(map)@) == entries_view(old(map)@) + date_entry(key@, *val),
{
    match val {
        Some(v) => insert_if_present(map, key, normalize_date_string(v.clone())),
        None => {
            assert(entries_view(map@) =~= entries_view(old(map)@) + date_entry(key@, *val));
        },
    }
}

/// The text of an exposure time: `1/d s` for a fraction `1/d`, `1/k s` with
/// `k` the rounded reciprocal for other values below one second, else the
/// decimal value followed by ` s`.
pub open spec fn exposure_text(e: ExposureTime) -> Seq<char> {
    if e.n == 1 && e.d > 1 {
        "1/"@ + decimal(e.d as nat) + " s"@
    } else if 0 < e.n && e.n < e.d {
        "1/"@ + decimal(((2 * e.d + e.n) / (2 * e.n)) as nat) + " s"@
    } else {
        e.text@ + " s"@
    }
}

fn exposure_string(e: &ExposureTime) -> (r: String)
    ensures
        r@ == exposure_text(*e),
{
    if e.n == 1 && e.d > 1 {
        let mut s = String::from_str("1/");
        let d = to_decimal(e.d as u64);
        s.append(d.as_str());
        s.append(" s");
        s
    } else if 0 < e.n && e.n < e.d {
        let k: u64 = (2 * e.d as u64 + e.n as u64) / (2 * e.n as u64);
        let mut s = String::from_str("1/");
        let d = to_decimal(k);
        s.append(d.as_str());
        s.append(" s");
        s
    } else {
        let mut s = e.text.clone();
        s.append(" s");
        s
    }
}

pub open spec fn prefixed_entry(key: Seq<char>, prefix: Seq<char>, val: Option<String>) -> Seq<(Seq<char>, Seq<char>)> {
    match val {
        Some(v) => entry(key, prefix + v@),
        None => Seq::empty(),
    }
}

fn insert_prefixed(map: &mut Vec<(String, String)>, key: &str, prefix: &str, val: &Option<String>)
    ensures
        entries_view(final(map)@) == entries_view(old(map)@) + prefixed_entry(key@, prefix@, *val),
{
    match val {
        Some(v) => {
            let mut s = String::from_str(prefix);
            s.append(v.as_str());
            insert_if_present(map, key, s);
        },
        None => {
            assert(entries_view(map@) =~= entries_view(old(map)@) + prefixed_entry(key@, prefix@, *val));
        },
    }
}

/// Identity, authorship and time fields.
pub open spec fn identity_entries(md: RawExif) -> Seq<(Seq<char>, Seq<char>)> {
    entry("Make"@, md.make@) + entry("Model"@, md.model@) + opt_entry("Artist"@, md.artist) + opt_entry(
        "Copyright"@,
        md.copyright,
    ) + opt_entry("OwnerName"@, md.owner_name) + opt_entry("SerialNumber"@, md.serial_number)
        + num_entry("ImageNumber"@, md.image_number) + opt_entry("UserComment"@, md.user_comment)
        + date_entry("DateTimeOriginal"@, md.date_time_original) + date_entry(
        "CreateDate"@,
        md.create_date,
    ) + date_entry("ModifyDate"@, md.modify_date) + opt_entry("OffsetTime"@, md.offset_time)
        + opt_entry("OffsetTimeOriginal"@, md.offset_time_original) + opt_entry(
        "OffsetTimeDigitized"@,
        md.offset_time_digitized,
    ) + opt_entry("SubSecTime"@, md.sub_sec_time) + opt_entry(
        "SubSecTimeOriginal"@,
        md.sub_sec_time_original,
    ) + opt_entry("SubSecTimeDigitized"@, md.sub_sec_time_digitized)
}

#[verifier::rlimit(40)]
fn insert_identity(map: &mut Vec<(String, String)>, md: &RawExif)
    ensures
        entries_view(final(map)@) == entries_view(old(map)@) + identity_entries(*md),
{
    let ghost m0 = entries_view(map@);
    insert_if_present(map, "Make", md.make.clone());
    insert_if_present(map, "Model", md.model.clone());
    insert_opt(map, "Artist", &md.artist);
    insert_opt(map, "Copyright", &md.copyright);
    insert_opt(map, "OwnerName", &md.owner_name);
    insert_opt(map, "SerialNumber", &md.serial_number);
    insert_num(map, "ImageNumber", md.image_number);
    insert_opt(map, "UserComment", &md.user_comment);
    insert_date(map, "DateTimeOriginal", &md.date_time_original);
    insert_date(map, "CreateDate", &md.create_date);
    insert_date(map, "ModifyDate", &md.modify_date);
    insert_opt(map, "OffsetTime", &md.offset_time);
    insert_opt(map, "OffsetTimeOriginal", &md.offset_time_original);
    insert_opt(map, "OffsetTimeDigitized", &md.offset_time_digitized);
    insert_opt(map, "SubSecTime", &md.sub_sec_time);
    insert_opt(map, "SubSecTimeOriginal", &md.sub_sec_time_original);
    insert_opt(map, "SubSecTimeDigitized", &md.sub_sec_time_digitized);
    assert(entries_view(map@) =~= m0 + identity_entries(*md));
}

/// Lens fields: the EXIF lens model and make, each falling back to the
/// separate lens description.
pub open spec fn lens_entries(md: RawExif) -> Seq<(Seq<char>, Seq<char>)> {
    (match md.lens_model {
        Some(v) => entry("LensModel"@, v@),
        None => match md.lens {
            Some(l) => entry("LensModel"@, l.lens_model@),
            None => Seq::empty(),
        },
    }) + (match md.lens_make {
        Some(v) => entry("LensMake"@, v@),
        None => match md.lens {
            Some(l) => entry("LensMake"@, l.lens_make@),
            None => Seq::empty(),
        },
    }) + opt_entry("LensSerialNumber"@, md.lens_serial_number) + short_entry(
        "Orientation"@,
        md.orientation,
    )
}

#[verifier::rlimit(40)]
fn insert_lens(map: &mut Vec<(String, String)>, md: &RawExif)
    ensures
        entries_view(final(map)@) == entries_view(old(map)@) + lens_entries(*md),
{
    let ghost m0 = entries_view(map@);
    match &md.lens_model {
        Some(v) => insert_if_present(map, "LensModel", v.clone()),
        None => match &md.lens {
            Some(l) => insert_if_present(map, "LensModel", l.lens_model.clone()),
            None => {},
        },
    }
    let ghost m1 = entries_view(map@);
    match &md.lens_make {
        Some(v) => insert_if_present(map, "LensMake", v.clone()),
        None => match &md.lens {
            Some(l) => insert_if_present(map, "LensMake", l.lens_make.clone()),
            None => {},
        },
    }
    let ghost m2 = entries_view(map@);
    insert_opt(map, "LensSerialNumber", &md.lens_serial_number);
    insert_short(map, "Orientation", md.orientation);
    assert(m1 =~= m0 + (match md.lens_model {
        Some(v) => entry("LensModel"@, v@),
        None => match md.lens {
            Some(l) => entry("LensModel"@, l.lens_model@),
            None => Seq::empty(),
        },
    }));
    assert(entries_view(map@) =~= m0 + lens_entries(*md));
}

/// Aperture and shutter fields.
pub open spec fn shutter_entries(md: RawExif) -> Seq<(Seq<char>, Seq<char>)> {
    prefixed_entry("FNumber"@, "f/"@, md.fnumber) + prefixed_entry("ApertureValue"@, "f/"@, md.aperture_value)
        + opt_entry("MaxApertureValue"@, md.max_aperture_value) + (match md.exposure_time {
        Some(e) => entry("ExposureTime"@, exposure_text(e)),
        None => Seq::empty(),
    }) + opt_entry("ShutterSpeedValue"@, md.shutter_speed_value)
}

/// The ISO entries: the ISO speed when given, else the ISO speed rating.
pub open spec fn iso_entries(md: RawExif) -> Seq<(Seq<char>, Seq<char>)> {
    match md.iso_speed {
        Some(v) => entry("PhotographicSensitivity"@, decimal(v as nat)) + entry("ISOSpeed"@, decimal(v as nat)),
        None => match md.iso_speed_ratings {
            Some(v) => entry("PhotographicSensitivity"@, decimal(v as nat)) + entry(
                "ISOSpeedRatings"@,
                decimal(v as nat),
            ),
            None => Seq::empty(),
        },
    }
}

/// Sensitivity, focal length and exposure bias fields.
pub open spec fn sensitivity_entries(md: RawExif) -> Seq<(Seq<char>, Seq<char>)> {
    iso_entries(md) + num_entry("RecommendedExposureIndex"@, md.recommended_exposure_index) + short_entry(
        "SensitivityType"@,
        md.sensitivity_type,
    ) + opt_entry("FocalLength"@, md.focal_length) + opt_entry("FocalLengthIn35mmFilm"@, md.focal_length)
        + opt_entry("ExposureBiasValue"@, md.exposure_bias)
}

#[verifier::rlimit(40)]
fn insert_shutter(map: &mut Vec<(String, String)>, md: &RawExif)
    ensures
        entries_view(final(map)@) == entries_view(old(map)@) + shutter_entries(*md),
{
    let ghost m0 = entries_view(map@);
    insert_prefixed(map, "FNumber", "f/", &md.fnumber);
    insert_prefixed(map, "ApertureValue", "f/", &md.aperture_value);
    insert_opt(map, "MaxApertureValue", &md.max_aperture_value);
    let ghost m1 = entries_view(map@);
    match &md.exposure_time {
        Some(e) => insert_if_present(map, "ExposureTime", exposure_string(e)),
        None => {},
    }
    let ghost m2 = entries_view(map@);
    insert_opt(map, "ShutterSpeedValue", &md.shutter_speed_value);
    assert(m2 =~= m1 + (match md.exposure_time {
        Some(e) => entry("ExposureTime"@, exposure_text(e)),
        None => Seq::empty(),
    }));
    assert(entries_view(map@) =~= m0 + shutter_entries(*md));
}

fn insert_iso(map: &mut Vec<(String, String)>, md: &RawExif)
    ensures
        entries_view(final(map)@) == entries_view(old(map)@) + iso_entries(*md),
{
    let ghost m0 = entries_view(map@);
    match md.iso_speed {
        Some(v) => {
            insert_if_present(map, "PhotographicSensitivity", to_decimal(v as u64));
            insert_if_present(map, "ISOSpeed", to_decimal(v as u64));
        },
        None => match md.iso_speed_ratings {
            Some(v) => {
                insert_if_present(map, "PhotographicSensitivity", to_decimal(v as u64));
                insert_if_present(map, "ISOSpeedRatings", to_decimal(v as u64));
            },
            None => {},
        },
    }
    assert(entries_view(map@) =~= m0 + iso_entries(*md));
}

#[verifier::rlimit(40)]
fn insert_sensitivity(map: &mut Vec<(String, String)>, md: &RawExif)
    ensures
        entries_view(final(map)@) == entries_view(old(map)@) + sensitivity_entries(*md),
{
    let ghost m0 = entries_view(map@);
    insert_iso(map, md);
    insert_num(map, "RecommendedExposureIndex", md.recommended_exposure_index);
    insert_short(map, "SensitivityType", md.sensitivity_type);
    insert_opt(map, "FocalLength", &md.focal_length);
    insert_opt(map, "FocalLengthIn35mmFilm", &md.focal_length);
    insert_opt(map, "ExposureBiasValue", &md.exposure_bias);
    assert(entries_view(map@) =~= m0 + sensitivity_entries(*md));
}

/// Scene and flash fields.
pub open spec fn scene_entries(md: RawExif) -> Seq<(Seq<char>, Seq<char>)> {
    short_entry("MeteringMode"@, md.metering_mode) + short_entry("LightSource"@, md.light_source) + short_entry(
        "Flash"@,
        md.flash,
    ) + short_entry("WhiteBalance"@, md.white_balance) + short_entry("ExposureProgram"@, md.exposure_program)
        + short_entry("ExposureMode"@, md.exposure_mode) + short_entry(
        "SceneCaptureType"@,
        md.scene_capture_type,
    ) + short_entry("ColorSpace"@, md.color_space) + opt_entry("FlashEnergy"@, md.flash_energy) + opt_entry(
        "BrightnessValue"@,
        md.brightness_value,
    ) + opt_entry("SubjectDistance"@, md.subject_distance) + short_entry(
        "SubjectDistanceRange"@,
        md.subject_distance_range,
    )
}

#[verifier::rlimit(40)]
fn insert_scene(map: &mut Vec<(String, String)>, md: &RawExif)
    ensures
        entries_view(final(map)@) == entries_view(old(map)@) + scene_entries(*md),
{
    let ghost m0 = entries_view(map@);
    insert_short(map, "MeteringMode", md.metering_mode);
    insert_short(map, "LightSource", md.light_source);
    insert_short(map, "Flash", md.flash);
    insert_short(map, "WhiteBalance", md.white_balance);
    insert_short(map, "ExposureProgram", md.exposure_program);
    insert_short(map, "ExposureMode", md.exposure_mode);
    insert_short(map, "SceneCaptureType", md.scene_capture_type);
    insert_short(map, "ColorSpace", md.color_space);
    insert_opt(map, "FlashEnergy", &md.flash_energy);
    insert_opt(map, "BrightnessValue", &md.brightness_value);
    insert_opt(map, "SubjectDistance", &md.subject_distance);
    insert_short(map, "SubjectDistanceRange", md.subject_distance_range);
    assert(entries_view(map@) =~= m0 + scene_entries(*md));
}

/// A GPS coordinate as `D deg M min S sec`.
pub open spec fn coord_text(c: GpsCoord) -> Seq<char> {
    c.degrees@ + " deg "@ + c.minutes@ + " min "@ + c.seconds@ + " sec"@
}

fn coord_string(c: &GpsCoord) -> (r: String)
    ensures
        r@ == coord_text(*c),
{
    let mut s = c.degrees.clone();
    s.append(" deg ");
    s.append(c.minutes.as_str());
    s.append(" min ");
    s.append(c.seconds.as_str());
    s.append(" sec");
    s
}

pub open spec fn coord_entry(key: Seq<char>, c: Option<GpsCoord>) -> Seq<(Seq<char>, Seq<char>)> {
    match c {
        Some(v) => entry(key, coord_text(v)),
        None => Seq::empty(),
    }
}

fn insert_coord(map: &mut Vec<(String, String)>, key: &str, c: &Option<GpsCoord>)
    ensures
        entries_view(final(map)@) == entries_view(old(map)@) + coord_entry(key@, *c),
{
    match c {
        Some(v) => insert_if_present(map, key, coord_string(v)),
        None => {
            assert(entries_view(map@) =~= entries_view(old(map)@) + coord_entry(key@, *c));
        },
    }
}

/// GPS fields.
pub open spec fn gps_entries(g: GpsInfo) -> Seq<(Seq<char>, Seq<char>)> {
    coord_entry("GPSLatitude"@, g.latitude) + opt_entry("GPSLatitudeRef"@, g.latitude_ref) + coord_entry(
        "GPSLongitude"@,
        g.longitude,
    ) + opt_entry("GPSLongitudeRef"@, g.longitude_ref) + opt_entry("GPSAltitude"@, g.altitude) + (match g.altitude_ref {
        Some(v) => entry("GPSAltitudeRef"@, decimal(v as nat)),
        None => Seq::empty(),
    }) + opt_entry("GPSImgDirection"@, g.img_direction) + opt_entry("GPSImgDirectionRef"@, g.img_direction_ref)
        + opt_entry("GPSSpeed"@, g.speed) + opt_entry("GPSSpeedRef"@, g.speed_ref) + opt_entry(
        "GPSStatus"@,
        g.status,
    ) + opt_entry("GPSMeasureMode"@, g.measure_mode) + opt_entry("GPSDOP"@, g.dop) + opt_entry(
        "GPSMapDatum"@,
        g.map_datum,
    )
}

#[verifier::rlimit(40)]
fn insert_gps(map: &mut Vec<(String, String)>, g: &GpsInfo)
    ensures
        entries_view(final(map)@) == entries_view(old(map)@) + gps_entries(*g),
{
    let ghost m0 = entries_view(map@);
    insert_coord(map, "GPSLatitude", &g.latitude);
    insert_opt(map, "GPSLatitudeRef", &g.latitude_ref);
    insert_coord(map, "GPSLongitude", &g.longitude);
    insert_opt(map, "GPSLongitudeRef", &g.longitude_ref);
    insert_opt(map, "GPSAltitude", &g.altitude);
    let ghost m1 = entries_view(map@);
    match g.altitude_ref {
        Some(v) => insert_if_present(map, "GPSAltitudeRef", to_decimal(v as u64)),
        None => {},
    }
    let ghost m2 = entries_view(map@);
    insert_opt(map, "GPSImgDirection", &g.img_direction);
    insert_opt(map, "GPSImgDirectionRef", &g.img_direction_ref);
    insert_opt(map, "GPSSpeed", &g.speed);
    insert_opt(map, "GPSSpeedRef", &g.speed_ref);
    insert_opt(map, "GPSStatus", &g.status);
    insert_opt(map, "GPSMeasureMode", &g.measure_mode);
    insert_opt(map, "GPSDOP", &g.dop);
    insert_opt(map, "GPSMapDatum", &g.map_datum);
    assert(m2 =~= m1 + (match g.altitude_ref {
        Some(v) => entry("GPSAltitudeRef"@, decimal(v as nat)),
        None => Seq::empty(),
    }));
    assert(entries_view(map@) =~= m0 + gps_entries(*g));
}

/// The whole listing, in the order the fields are read.
pub open spec fn metadata_entries(md: RawExif) -> Seq<(Seq<char>, Seq<char>)> {
    identity_entries(md) + lens_entries(md) + shutter_entries(md) + sensitivity_entries(md) + scene_entries(md) + match md.gps {
        Some(g) => gps_entries(g),
        None => Seq::empty(),
    }
}

/// Lists the metadata as key/value texts: each field that is present and not
/// blank, under its EXIF name, with dates normalized to `YYYY-MM-DD`.
#[verifier::rlimit(40)]
pub fn extract_raw_metadata(md: &RawExif) -> (r: Vec<(String, String)>)
    ensures
        entries_view(r@) == metadata_entries(*md),
{
    let mut map: Vec<(String, String)> = Vec::new();
    assert(entries_view(map@) =~= Seq::empty());
    insert_identity(&mut map, md);
    insert_lens(&mut map, md);
    insert_shutter(&mut map, md);
    insert_sensitivity(&mut map, md);
    insert_scene(&mut map, md);
    let ghost m0 = entries_view(map@);
    match &md.gps {
        Some(g) => insert_gps(&mut map, g),
        None => {},
    }
    assert(entries_view(map@) =~= metadata_entries(*md));
    map
}

} // verus!
