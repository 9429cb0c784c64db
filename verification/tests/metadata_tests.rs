use photo_site::metadata::{
    ExposureTime, Fraction, GPSCoords, GpsAngle, MetadataError, MissingGps, PhotoExifInfo,
};
use photo_site::tags::{ExifTags, Rational, TagName, TagValue};

fn ascii(text: &str) -> Option<TagValue> {
    Some(TagValue::Ascii(vec![text.as_bytes().to_vec()]))
}

fn rational(num: u32, denom: u32) -> Option<TagValue> {
    Some(TagValue::Rational(vec![Rational { num, denom }]))
}

fn dms(d: u32, m: u32, s: (u32, u32)) -> Option<TagValue> {
    Some(TagValue::Rational(vec![
        Rational { num: d, denom: 1 },
        Rational { num: m, denom: 1 },
        Rational { num: s.0, denom: s.1 },
    ]))
}

fn comment(code: &[u8; 8], body: &[u8]) -> Option<TagValue> {
    let mut bytes = code.to_vec();
    bytes.extend_from_slice(body);
    Some(TagValue::Undefined(bytes))
}

fn required_tags() -> ExifTags {
    let mut tags = ExifTags::empty();
    tags.image_description = ascii("Sunset over the bay");
    tags.date_time_original = ascii("2021:12:18 16:45:10");
    tags.offset_time_original = ascii("-08:00");
    tags.make = ascii("FUJIFILM");
    tags.model = ascii("FUJIFILM  X-T3");
    tags.photographic_sensitivity = Some(TagValue::Short(vec![160]));
    tags.f_number = rational(28, 10);
    tags.focal_length = rational(230, 10);
    tags.exposure_time = rational(1, 250);
    tags
}

#[test]
fn from_tags_reads_every_required_field() {
    let info = PhotoExifInfo::from_tags(&required_tags()).unwrap();
    assert_eq!(info.title, "Sunset over the bay");
    assert_eq!(info.description, None);
    assert_eq!(info.alt_text, None);
    assert_eq!(info.coords, None);
    assert_eq!(info.camera.id, ("FUJIFILM".to_string(), "X-T3".to_string()));
    assert_eq!(info.camera.lens_id, None);
    assert_eq!(info.camera.iso, 160);
    assert_eq!(info.camera.f_stop, Rational { num: 28, denom: 10 });
    assert_eq!(info.camera.focal_length, Rational { num: 230, denom: 10 });
    assert_eq!(info.camera.exposure_time, ExposureTime::Reciprocal { denom: 250 });
    assert_eq!(info.actual_datetime.year(), 2021);
    assert_eq!(info.actual_datetime.month(), 12);
    assert_eq!(info.actual_datetime.day(), 18);
    assert_eq!(info.actual_datetime.hour(), 16);
    assert_eq!(info.actual_datetime.minute(), 45);
    assert_eq!(info.actual_datetime.second(), 10);
    assert_eq!(info.actual_datetime.offset_minutes(), -480);
    assert_eq!(info.actual_datetime.unix_seconds(), 1_639_874_710);
    assert_eq!(info.local_time, "16:45:10");
    assert_eq!(info.tz_offset, "-08:00");
    assert_eq!(info.date, "Dec 18, 2021");
}

#[test]
fn title_rules() {
    let mut tags = required_tags();
    tags.image_description = None;
    assert_eq!(
        PhotoExifInfo::get_title(&tags),
        Err(MetadataError::Missing(TagName::ImageDescription))
    );
    tags.image_description =
        Some(TagValue::Ascii(vec![b"one".to_vec(), b"two".to_vec()]));
    assert_eq!(
        PhotoExifInfo::get_title(&tags),
        Err(MetadataError::WrongCount(TagName::ImageDescription))
    );
    tags.image_description = Some(TagValue::Short(vec![1]));
    assert_eq!(
        PhotoExifInfo::get_title(&tags),
        Err(MetadataError::WrongType(TagName::ImageDescription))
    );
    tags.image_description = ascii("");
    assert_eq!(
        PhotoExifInfo::get_title(&tags),
        Err(MetadataError::Empty(TagName::ImageDescription))
    );
    tags.image_description = Some(TagValue::Ascii(vec![vec![0x48, 0xc3, 0xa9]]));
    assert_eq!(
        PhotoExifInfo::get_title(&tags),
        Err(MetadataError::NonAscii(TagName::ImageDescription))
    );
    tags.image_description = ascii("Harbour");
    assert_eq!(PhotoExifInfo::get_title(&tags), Ok("Harbour".to_string()));
}

#[test]
fn description_in_ascii_is_read_as_utf8() {
    let mut tags = required_tags();
    tags.user_comment = comment(b"ASCII\0\0\0", "caf\u{e9} at *dusk*".as_bytes());
    assert_eq!(
        PhotoExifInfo::get_description(&tags),
        Ok(Some("caf\u{e9} at *dusk*".to_string()))
    );
    let info = PhotoExifInfo::from_tags(&tags).unwrap();
    assert_eq!(
        info.description,
        Some("<p>caf\u{e9} at <em>dusk</em></p>\n".to_string())
    );
    assert_eq!(info.alt_text, None);
}

#[test]
fn description_in_unicode_is_read_as_little_endian_utf16() {
    let mut tags = required_tags();
    let mut body = Vec::new();
    for unit in "na\u{ef}ve \u{1f600}".encode_utf16() {
        body.push((unit & 0xff) as u8);
        body.push((unit >> 8) as u8);
    }
    tags.user_comment = comment(b"UNICODE\0", &body);
    assert_eq!(
        PhotoExifInfo::get_description(&tags),
        Ok(Some("na\u{ef}ve \u{1f600}".to_string()))
    );
}

#[test]
fn description_errors() {
    let mut tags = required_tags();
    tags.user_comment = Some(TagValue::Ascii(vec![b"text".to_vec()]));
    assert_eq!(
        PhotoExifInfo::get_description(&tags),
        Err(MetadataError::WrongType(TagName::UserComment))
    );
    tags.user_comment = comment(b"JIS\0\0\0\0\0", b"x");
    assert_eq!(PhotoExifInfo::get_description(&tags), Err(MetadataError::JisComment));
    tags.user_comment = comment(b"\0\0\0\0\0\0\0\0", b"x");
    assert_eq!(
        PhotoExifInfo::get_description(&tags),
        Err(MetadataError::UndefinedComment)
    );
    tags.user_comment = comment(b"LATIN1\0\0", b"x");
    assert_eq!(
        PhotoExifInfo::get_description(&tags),
        Err(MetadataError::UnknownCommentCode)
    );
    tags.user_comment = Some(TagValue::Undefined(b"ASC".to_vec()));
    assert_eq!(
        PhotoExifInfo::get_description(&tags),
        Err(MetadataError::UnknownCommentCode)
    );
    tags.user_comment = comment(b"ASCII\0\0\0", &[0xff, 0xfe]);
    assert_eq!(
        PhotoExifInfo::get_description(&tags),
        Err(MetadataError::CommentNotUtf8)
    );
    tags.user_comment = comment(b"UNICODE\0", &[0x41, 0x00, 0x42]);
    assert_eq!(
        PhotoExifInfo::get_description(&tags),
        Err(MetadataError::CommentOddLength)
    );
    tags.user_comment = comment(b"UNICODE\0", &[0x00, 0xd8]);
    assert_eq!(
        PhotoExifInfo::get_description(&tags),
        Err(MetadataError::CommentNotUtf16)
    );
}

#[test]
fn a_comment_without_its_code_is_refused_even_where_it_is_empty() {
    let mut tags = required_tags();
    tags.user_comment = Some(TagValue::Undefined(Vec::new()));
    assert_eq!(
        PhotoExifInfo::get_description(&tags),
        Err(MetadataError::UnknownCommentCode)
    );
    assert_eq!(
        PhotoExifInfo::from_tags(&tags).err(),
        Some(MetadataError::UnknownCommentCode)
    );
    tags.user_comment = Some(TagValue::Undefined(b"ASCII\0\0".to_vec()));
    assert_eq!(
        PhotoExifInfo::get_description(&tags),
        Err(MetadataError::UnknownCommentCode)
    );
    tags.user_comment = None;
    assert_eq!(PhotoExifInfo::get_description(&tags), Ok(None));
}

#[test]
fn empty_text_after_the_code_is_no_description() {
    let mut tags = required_tags();
    tags.user_comment = comment(b"ASCII\0\0\0", b"");
    assert_eq!(PhotoExifInfo::get_description(&tags), Ok(None));
    tags.user_comment = comment(b"UNICODE\0", b"");
    assert_eq!(PhotoExifInfo::get_description(&tags), Ok(None));
}

#[test]
fn alt_text_is_the_first_line_after_its_marker() {
    let mut tags = required_tags();
    tags.user_comment =
        comment(b"ASCII\0\0\0", b"alt: a lighthouse at night\nTaken from the *pier*.");
    let info = PhotoExifInfo::from_tags(&tags).unwrap();
    assert_eq!(info.alt_text, Some(" a lighthouse at night".to_string()));
    assert_eq!(
        info.description,
        Some("<p>Taken from the <em>pier</em>.</p>\n".to_string())
    );
}

#[test]
fn alt_text_alone_leaves_no_description() {
    let mut tags = required_tags();
    tags.user_comment = comment(b"ASCII\0\0\0", b"alt:a lighthouse");
    let info = PhotoExifInfo::from_tags(&tags).unwrap();
    assert_eq!(info.alt_text, Some("a lighthouse".to_string()));
    assert_eq!(info.description, None);
}

#[test]
fn gps_all_four_tags() {
    let mut tags = required_tags();
    tags.gps_latitude = dms(37, 50, (2040, 100));
    tags.gps_latitude_ref = ascii("N");
    tags.gps_longitude = dms(122, 23, (4560, 100));
    tags.gps_longitude_ref = ascii("W");
    let expected = GPSCoords {
        lat: GpsAngle {
            degrees: Rational { num: 37, denom: 1 },
            minutes: Rational { num: 50, denom: 1 },
            seconds: Rational { num: 2040, denom: 100 },
            positive: true,
        },
        lon: GpsAngle {
            degrees: Rational { num: 122, denom: 1 },
            minutes: Rational { num: 23, denom: 1 },
            seconds: Rational { num: 4560, denom: 100 },
            positive: false,
        },
    };
    assert_eq!(PhotoExifInfo::get_gps_coords(&tags), Ok(Some(expected)));
    tags.gps_latitude_ref = ascii("S");
    tags.gps_longitude_ref = ascii("E");
    let coords = PhotoExifInfo::get_gps_coords(&tags).unwrap().unwrap();
    assert!(!coords.lat.positive);
    assert!(coords.lon.positive);
}

#[test]
fn the_size_of_an_angle_is_degrees_plus_minutes_and_seconds() {
    let angle = GpsAngle {
        degrees: Rational { num: 37, denom: 1 },
        minutes: Rational { num: 50, denom: 1 },
        seconds: Rational { num: 2040, denom: 100 },
        positive: true,
    };
    assert_eq!(angle.magnitude(), Fraction { num: 13_622_040, denom: 360_000 });
    let halves = GpsAngle {
        degrees: Rational { num: 3, denom: 2 },
        minutes: Rational { num: 30, denom: 1 },
        seconds: Rational { num: 0, denom: 1 },
        positive: false,
    };
    assert_eq!(halves.magnitude(), Fraction { num: 3 * 3600 + 30 * 2 * 60, denom: 7200 });
    let largest = GpsAngle {
        degrees: Rational { num: u32::MAX, denom: u32::MAX },
        minutes: Rational { num: u32::MAX, denom: u32::MAX },
        seconds: Rational { num: u32::MAX, denom: u32::MAX },
        positive: true,
    };
    let cube = (u32::MAX as u128).pow(3);
    assert_eq!(largest.magnitude(), Fraction { num: cube * 3661, denom: cube * 3600 });
    let broken = GpsAngle {
        degrees: Rational { num: 1, denom: 0 },
        minutes: Rational { num: 0, denom: 1 },
        seconds: Rational { num: 0, denom: 1 },
        positive: true,
    };
    assert_eq!(broken.magnitude().denom, 0);
}

#[test]
fn gps_none_of_the_tags() {
    assert_eq!(PhotoExifInfo::get_gps_coords(&required_tags()), Ok(None));
}

#[test]
fn gps_partial_tags_name_what_is_missing() {
    let mut tags = required_tags();
    tags.gps_latitude = dms(37, 50, (0, 1));
    tags.gps_longitude_ref = ascii("W");
    assert_eq!(
        PhotoExifInfo::get_gps_coords(&tags),
        Err(MetadataError::PartialGps {
            missing: MissingGps {
                latitude: false,
                latitude_ref: true,
                longitude: true,
                longitude_ref: false,
            }
        })
    );
}

#[test]
fn gps_malformed_tags() {
    let mut tags = required_tags();
    tags.gps_latitude = rational(37, 1);
    assert_eq!(
        PhotoExifInfo::get_gps_coords(&tags),
        Err(MetadataError::WrongCount(TagName::GPSLatitude))
    );
    tags.gps_latitude = ascii("37");
    assert_eq!(
        PhotoExifInfo::get_gps_coords(&tags),
        Err(MetadataError::WrongType(TagName::GPSLatitude))
    );
    tags.gps_latitude = dms(37, 50, (0, 1));
    tags.gps_longitude = dms(122, 23, (0, 1));
    tags.gps_latitude_ref = ascii("X");
    tags.gps_longitude_ref = ascii("W");
    assert_eq!(
        PhotoExifInfo::get_gps_coords(&tags),
        Err(MetadataError::BadReference(TagName::GPSLatitudeRef))
    );
    tags.gps_latitude_ref = ascii("N");
    tags.gps_longitude_ref = ascii("WE");
    assert_eq!(
        PhotoExifInfo::get_gps_coords(&tags),
        Err(MetadataError::BadReference(TagName::GPSLongitudeRef))
    );
    tags.gps_longitude_ref = Some(TagValue::Ascii(vec![b"W".to_vec(), b"E".to_vec()]));
    assert_eq!(
        PhotoExifInfo::get_gps_coords(&tags),
        Err(MetadataError::WrongCount(TagName::GPSLongitudeRef))
    );
    tags.gps_longitude_ref = Some(TagValue::Short(vec![1]));
    assert_eq!(
        PhotoExifInfo::get_gps_coords(&tags),
        Err(MetadataError::WrongType(TagName::GPSLongitudeRef))
    );
}

#[test]
fn gps_ref_and_dms_alone() {
    assert_eq!(PhotoExifInfo::gps_ref(&None, TagName::GPSLatitudeRef, b'N', b'S'), Ok(None));
    assert_eq!(
        PhotoExifInfo::gps_ref(&ascii("S"), TagName::GPSLatitudeRef, b'N', b'S'),
        Ok(Some(false))
    );
    assert_eq!(PhotoExifInfo::gps_dms(&None, TagName::GPSLatitude), Ok(None));
    let found = PhotoExifInfo::gps_dms(&dms(1, 2, (3, 4)), TagName::GPSLatitude)
        .unwrap()
        .unwrap();
    assert_eq!(found.degrees, Rational { num: 1, denom: 1 });
    assert_eq!(found.minutes, Rational { num: 2, denom: 1 });
    assert_eq!(found.seconds, Rational { num: 3, denom: 4 });
}

#[test]
fn camera_model_keeps_what_follows_the_make() {
    let mut tags = required_tags();
    tags.make = ascii("Canon");
    tags.model = ascii("Canon \t EOS 5D");
    assert_eq!(
        PhotoExifInfo::get_camera_id(&tags),
        Ok(("Canon".to_string(), "EOS 5D".to_string()))
    );
    tags.model = ascii("EOS 5D");
    assert_eq!(
        PhotoExifInfo::get_camera_id(&tags),
        Ok(("Canon".to_string(), "EOS 5D".to_string()))
    );
    tags.model = ascii("Canon");
    assert_eq!(
        PhotoExifInfo::get_camera_id(&tags),
        Ok(("Canon".to_string(), String::new()))
    );
    tags.model = ascii("Can");
    assert_eq!(
        PhotoExifInfo::get_camera_id(&tags),
        Ok(("Canon".to_string(), "Can".to_string()))
    );
}

#[test]
fn camera_id_errors() {
    let mut tags = required_tags();
    tags.make = None;
    assert_eq!(
        PhotoExifInfo::get_camera_id(&tags),
        Err(MetadataError::Missing(TagName::Make))
    );
    tags.make = ascii("Canon");
    tags.model = None;
    assert_eq!(
        PhotoExifInfo::get_camera_id(&tags),
        Err(MetadataError::Missing(TagName::Model))
    );
    tags.model = ascii("");
    assert_eq!(
        PhotoExifInfo::get_camera_id(&tags),
        Err(MetadataError::Empty(TagName::Model))
    );
}

#[test]
fn lens_both_tags_or_neither() {
    let mut tags = required_tags();
    assert_eq!(PhotoExifInfo::get_lens_id(&tags), Ok(None));
    tags.lens_make = ascii("FUJIFILM");
    assert_eq!(
        PhotoExifInfo::get_lens_id(&tags),
        Err(MetadataError::LensModelMissing)
    );
    tags.lens_model = ascii("XF23mmF2 R WR");
    assert_eq!(
        PhotoExifInfo::get_lens_id(&tags),
        Ok(Some(("FUJIFILM".to_string(), "XF23mmF2 R WR".to_string())))
    );
    tags.lens_make = None;
    assert_eq!(
        PhotoExifInfo::get_lens_id(&tags),
        Err(MetadataError::LensMakeMissing)
    );
    tags.lens_model = Some(TagValue::Short(vec![1]));
    assert_eq!(
        PhotoExifInfo::get_lens_id(&tags),
        Err(MetadataError::WrongType(TagName::LensModel))
    );
}

#[test]
fn numeric_tags() {
    let mut tags = required_tags();
    assert_eq!(PhotoExifInfo::get_iso(&tags), Ok(160));
    assert_eq!(PhotoExifInfo::get_f_stop(&tags), Ok(Rational { num: 28, denom: 10 }));
    assert_eq!(
        PhotoExifInfo::get_focal_length(&tags),
        Ok(Rational { num: 230, denom: 10 })
    );
    tags.photographic_sensitivity = Some(TagValue::Short(vec![100, 200]));
    assert_eq!(
        PhotoExifInfo::get_iso(&tags),
        Err(MetadataError::WrongCount(TagName::PhotographicSensitivity))
    );
    tags.photographic_sensitivity = rational(100, 1);
    assert_eq!(
        PhotoExifInfo::get_iso(&tags),
        Err(MetadataError::WrongType(TagName::PhotographicSensitivity))
    );
    tags.photographic_sensitivity = None;
    assert_eq!(
        PhotoExifInfo::get_iso(&tags),
        Err(MetadataError::Missing(TagName::PhotographicSensitivity))
    );
    tags.f_number = None;
    assert_eq!(
        PhotoExifInfo::get_f_stop(&tags),
        Err(MetadataError::Missing(TagName::FNumber))
    );
    tags.focal_length = Some(TagValue::Short(vec![23]));
    assert_eq!(
        PhotoExifInfo::get_focal_length(&tags),
        Err(MetadataError::WrongType(TagName::FocalLength))
    );
}

#[test]
fn exposure_time_as_a_fraction() {
    let mut tags = required_tags();
    let exposure = PhotoExifInfo::get_exposure_time(&tags).unwrap();
    assert_eq!(exposure, ExposureTime::Reciprocal { denom: 250 });
    assert_eq!(exposure.fraction(), Some("1/250".to_string()));
    tags.exposure_time = rational(1, 4_000_000_000);
    assert_eq!(
        PhotoExifInfo::get_exposure_time(&tags).unwrap().fraction(),
        Some("1/4000000000".to_string())
    );
    tags.exposure_time = rational(1, 0);
    assert_eq!(
        PhotoExifInfo::get_exposure_time(&tags).unwrap().fraction(),
        Some("1/0".to_string())
    );
    tags.exposure_time = rational(5, 2);
    let slow = PhotoExifInfo::get_exposure_time(&tags).unwrap();
    assert_eq!(slow, ExposureTime::Ratio(Rational { num: 5, denom: 2 }));
    assert_eq!(slow.fraction(), None);
    tags.exposure_time = Some(TagValue::Rational(vec![]));
    assert_eq!(
        PhotoExifInfo::get_exposure_time(&tags),
        Err(MetadataError::WrongCount(TagName::ExposureTime))
    );
}

#[test]
fn capture_time_errors() {
    let mut tags = required_tags();
    tags.date_time_original = None;
    assert_eq!(
        PhotoExifInfo::get_local_datetime(&tags).err(),
        Some(MetadataError::Missing(TagName::DateTimeOriginal))
    );
    tags.date_time_original = Some(TagValue::Short(vec![2021]));
    assert_eq!(
        PhotoExifInfo::get_local_datetime(&tags).err(),
        Some(MetadataError::WrongType(TagName::DateTimeOriginal))
    );
    tags.date_time_original = Some(TagValue::Ascii(vec![]));
    assert_eq!(
        PhotoExifInfo::get_local_datetime(&tags).err(),
        Some(MetadataError::WrongCount(TagName::DateTimeOriginal))
    );
    tags.date_time_original = ascii("2021-12-18 16:45:10");
    assert_eq!(
        PhotoExifInfo::get_local_datetime(&tags).err(),
        Some(MetadataError::Unparsable(TagName::DateTimeOriginal))
    );
    tags.date_time_original = ascii("2021:12:18 16:45");
    assert_eq!(
        PhotoExifInfo::get_local_datetime(&tags).err(),
        Some(MetadataError::Unparsable(TagName::DateTimeOriginal))
    );
    tags.date_time_original = ascii("    :  :     :  :  ");
    assert_eq!(
        PhotoExifInfo::get_local_datetime(&tags).err(),
        Some(MetadataError::Unparsable(TagName::DateTimeOriginal))
    );
    tags.date_time_original = ascii("2021:02:30 16:45:10");
    assert_eq!(
        PhotoExifInfo::get_local_datetime(&tags).err(),
        Some(MetadataError::InvalidValue(TagName::DateTimeOriginal))
    );
    tags.date_time_original = ascii("2021:12:18 24:00:00");
    assert_eq!(
        PhotoExifInfo::get_local_datetime(&tags).err(),
        Some(MetadataError::InvalidValue(TagName::DateTimeOriginal))
    );
    tags.date_time_original = ascii("2021:12:18 16:45:10");
    tags.offset_time_original = None;
    assert_eq!(
        PhotoExifInfo::get_local_datetime(&tags).err(),
        Some(MetadataError::Missing(TagName::OffsetTimeOriginal))
    );
    tags.offset_time_original = ascii("08:00");
    assert_eq!(
        PhotoExifInfo::get_local_datetime(&tags).err(),
        Some(MetadataError::Unparsable(TagName::OffsetTimeOriginal))
    );
    tags.offset_time_original = ascii("*08:00");
    assert_eq!(
        PhotoExifInfo::get_local_datetime(&tags).err(),
        Some(MetadataError::Unparsable(TagName::OffsetTimeOriginal))
    );
    tags.offset_time_original = ascii("+24:00");
    assert_eq!(
        PhotoExifInfo::get_local_datetime(&tags).err(),
        Some(MetadataError::InvalidValue(TagName::OffsetTimeOriginal))
    );
    tags.offset_time_original = ascii("-23:60");
    assert_eq!(
        PhotoExifInfo::get_local_datetime(&tags).err(),
        Some(MetadataError::InvalidValue(TagName::OffsetTimeOriginal))
    );
}

#[test]
fn capture_time_takes_the_offset_into_account() {
    let mut tags = required_tags();
    tags.date_time_original = ascii("2020:02:29 23:59:59 and more");
    tags.offset_time_original = ascii("+05:30");
    let time = PhotoExifInfo::get_local_datetime(&tags).unwrap();
    assert_eq!(time.offset_minutes(), 330);
    assert_eq!(time.unix_seconds(), 1_583_000_999);
    tags.offset_time_original = ascii("-23:59");
    let late = PhotoExifInfo::get_local_datetime(&tags).unwrap();
    assert_eq!(late.offset_minutes(), -1439);
    assert_eq!(late.unix_seconds(), 1_583_020_799 + 86_340);
}

#[test]
fn the_first_broken_rule_is_reported() {
    let mut tags = ExifTags::empty();
    assert_eq!(
        PhotoExifInfo::from_tags(&tags).err(),
        Some(MetadataError::Missing(TagName::DateTimeOriginal))
    );
    tags.date_time_original = ascii("2021:12:18 16:45:10");
    tags.offset_time_original = ascii("+00:00");
    tags.user_comment = comment(b"JIS\0\0\0\0\0", b"");
    assert_eq!(PhotoExifInfo::from_tags(&tags).err(), Some(MetadataError::JisComment));
    tags.user_comment = None;
    assert_eq!(
        PhotoExifInfo::from_tags(&tags).err(),
        Some(MetadataError::Missing(TagName::ImageDescription))
    );
    tags.image_description = ascii("Title");
    tags.gps_latitude_ref = ascii("N");
    assert!(matches!(
        PhotoExifInfo::from_tags(&tags).err(),
        Some(MetadataError::PartialGps { .. })
    ));
    tags.gps_latitude_ref = None;
    assert_eq!(
        PhotoExifInfo::from_tags(&tags).err(),
        Some(MetadataError::Missing(TagName::Make))
    );
}

fn exif_image(fields: &[exif::Field]) -> Vec<u8> {
    let mut writer = exif::experimental::Writer::new();
    for field in fields {
        writer.push_field(field);
    }
    let mut out = std::io::Cursor::new(Vec::new());
    writer.write(&mut out, false).unwrap();
    out.into_inner()
}

fn field(tag: exif::Tag, value: exif::Value) -> exif::Field {
    exif::Field { tag, ifd_num: exif::In::PRIMARY, value }
}

fn sample_fields() -> Vec<exif::Field> {
    vec![
        field(exif::Tag::ImageDescription, exif::Value::Ascii(vec![b"Pier".to_vec()])),
        field(exif::Tag::Make, exif::Value::Ascii(vec![b"Nikon".to_vec()])),
        field(exif::Tag::Model, exif::Value::Ascii(vec![b"Nikon Z6".to_vec()])),
        field(
            exif::Tag::DateTimeOriginal,
            exif::Value::Ascii(vec![b"2022:03:04 05:06:07".to_vec()]),
        ),
        field(exif::Tag::OffsetTimeOriginal, exif::Value::Ascii(vec![b"+01:00".to_vec()])),
        field(exif::Tag::PhotographicSensitivity, exif::Value::Short(vec![400])),
        field(exif::Tag::FNumber, exif::Value::Rational(vec![(4, 1).into()])),
        field(exif::Tag::FocalLength, exif::Value::Rational(vec![(35, 1).into()])),
        field(exif::Tag::ExposureTime, exif::Value::Rational(vec![(2, 1).into()])),
        field(
            exif::Tag::UserComment,
            exif::Value::Undefined(b"ASCII\0\0\0By the sea".to_vec(), 0),
        ),
        field(
            exif::Tag::GPSLatitude,
            exif::Value::Rational(vec![(51, 1).into(), (30, 1).into(), (0, 1).into()]),
        ),
        field(exif::Tag::GPSLatitudeRef, exif::Value::Ascii(vec![b"N".to_vec()])),
        field(
            exif::Tag::GPSLongitude,
            exif::Value::Rational(vec![(0, 1).into(), (7, 1).into(), (30, 1).into()]),
        ),
        field(exif::Tag::GPSLongitudeRef, exif::Value::Ascii(vec![b"W".to_vec()])),
    ]
}

#[test]
fn from_img_data_reads_the_fields_of_an_image() {
    let image = exif_image(&sample_fields());
    let tags = ExifTags::from_image(&image).unwrap();
    assert!(matches!(tags.image_description, Some(TagValue::Ascii(ref v)) if v == &vec![b"Pier".to_vec()]));
    assert!(matches!(tags.photographic_sensitivity, Some(TagValue::Short(ref v)) if v == &vec![400]));
    assert!(matches!(
        tags.f_number,
        Some(TagValue::Rational(ref v)) if v == &vec![Rational { num: 4, denom: 1 }]
    ));
    assert!(matches!(tags.user_comment, Some(TagValue::Undefined(ref v)) if v.len() == 18));
    assert!(tags.lens_make.is_none());

    let info = PhotoExifInfo::from_img_data(&image).unwrap();
    assert_eq!(info.title, "Pier");
    assert_eq!(info.camera.id, ("Nikon".to_string(), "Z6".to_string()));
    assert_eq!(info.camera.iso, 400);
    assert_eq!(
        info.camera.exposure_time,
        ExposureTime::Ratio(Rational { num: 2, denom: 1 })
    );
    assert_eq!(info.description, Some("<p>By the sea</p>\n".to_string()));
    assert_eq!(info.actual_datetime.unix_seconds(), 1_646_366_767);
    let coords = info.coords.unwrap();
    assert_eq!(coords.lat.degrees, Rational { num: 51, denom: 1 });
    assert!(coords.lat.positive);
    assert_eq!(coords.lon.minutes, Rational { num: 7, denom: 1 });
    assert!(!coords.lon.positive);
}

#[test]
fn from_img_data_refuses_what_is_no_image() {
    assert_eq!(
        PhotoExifInfo::from_img_data(b"not an image at all").err(),
        Some(MetadataError::Unreadable)
    );
    assert_eq!(PhotoExifInfo::from_img_data(b"").err(), Some(MetadataError::Unreadable));
    assert!(ExifTags::from_image(b"\xff\xd8\xff\xd9").is_none());
}

#[test]
fn other_encodings_are_kept_as_other() {
    let mut fields = sample_fields();
    fields[5] = field(exif::Tag::PhotographicSensitivity, exif::Value::Long(vec![400]));
    let image = exif_image(&fields);
    let tags = ExifTags::from_image(&image).unwrap();
    assert!(matches!(tags.photographic_sensitivity, Some(TagValue::Other)));
    assert_eq!(
        PhotoExifInfo::from_img_data(&image).err(),
        Some(MetadataError::WrongType(TagName::PhotographicSensitivity))
    );
}

#[test]
fn extract_nonempty_ascii() {
    assert_eq!(
        PhotoExifInfo::extract_nonempty_ascii_from_exif(
            &TagValue::Ascii(vec![b"X100V".to_vec()]),
            TagName::Model
        ),
        Ok("X100V".to_string())
    );
    assert_eq!(
        PhotoExifInfo::extract_nonempty_ascii_from_exif(&TagValue::Other, TagName::Model),
        Err(MetadataError::WrongType(TagName::Model))
    );
}
