//! The metadata of one photograph, read from its Exif fields under the rules
//! that every photograph of the collection has to meet.

use vstd::prelude::*;

use vstd::slice::{slice_subrange, slice_to_vec};
use vstd::utf8::{decode_utf8, valid_utf8};

use crate::tags::{
    container_fields, field_model, tags_of, ExifTags, FieldModel, Rational, TagName, TagValue,
    TagsModel,
};
use crate::text::{
    all_ascii, ascii_string, byte_chars, decimal_digits, is_ascii_bytes, push_decimal, str_chars,
    string_from_chars, string_from_utf16, string_from_utf8, utf16_text,
};
use crate::time::{unix_seconds, valid_civil, valid_offset_minutes, CaptureTime, TimeView};
use crate::util::{format_datetime, markdown_html, markdown_to_html, FormatLevel};

verus! {

/// Why a photograph's metadata was refused.
#[derive(Clone, Copy, Debug, PartialEq, Eq, Structural)]
pub enum MetadataError {
    /// The image holds no Exif data that can be read.
    Unreadable,
    /// A required tag is absent.
    Missing(TagName),
    /// The tag's value has another encoding than the one expected.
    WrongType(TagName),
    /// The tag's value has the expected encoding but not the expected number
    /// of components.
    WrongCount(TagName),
    /// The tag's text is empty.
    Empty(TagName),
    /// The tag's text holds bytes outside ASCII.
    NonAscii(TagName),
    /// The tag's text cannot be parsed.
    Unparsable(TagName),
    /// The comment is marked as JIS text, which is not supported.
    JisComment,
    /// The comment is marked as being of undefined encoding.
    UndefinedComment,
    /// The comment starts with no known character code.
    UnknownCommentCode,
    /// The comment is marked as ASCII but is not valid UTF-8.
    CommentNotUtf8,
    /// The comment is marked as Unicode but has an odd number of bytes.
    CommentOddLength,
    /// The comment is marked as Unicode but is not valid UTF-16.
    CommentNotUtf16,
    /// A GPS reference tag holds none of its two letters.
    BadReference(TagName),
    /// Some of the four GPS tags are present and others are missing.
    PartialGps { missing: MissingGps },
    /// `LensMake` is present without `LensModel`.
    LensModelMissing,
    /// `LensModel` is present without `LensMake`.
    LensMakeMissing,
    /// The tag's text can be parsed but names nothing that exists: an offset
    /// of a day or more, or a date or time of day that the calendar or the
    /// clock does not have.
    InvalidValue(TagName),
}

/// Which of the four GPS tags are missing.
#[derive(Clone, Copy, Debug, PartialEq, Eq, Structural)]
pub struct MissingGps {
    pub latitude: bool,
    pub latitude_ref: bool,
    pub longitude: bool,
    pub longitude_ref: bool,
}

/// The six numbers of an Exif date and time.
#[derive(Clone, Copy, Debug, PartialEq, Eq, Structural)]
pub struct DateTimeFields {
    pub year: u16,
    pub month: u8,
    pub day: u8,
    pub hour: u8,
    pub minute: u8,
    pub second: u8,
}

/// Whether the byte is an ASCII digit.
pub open spec fn is_digit(b: u8) -> bool {
    0x30 <= b <= 0x39
}

/// Whether the bytes from `from` up to `to` are all ASCII digits.
pub open spec fn digits_at(s: Seq<u8>, from: int, to: int) -> bool {
    forall|i: int| from <= i < to ==> is_digit(#[trigger] s[i])
}

/// The number that the digits from `from` up to `to` write in decimal.
pub open spec fn number_at(s: Seq<u8>, from: int, to: int) -> int
    decreases to - from,
{
    if to <= from {
        0
    } else {
        number_at(s, from, to - 1) * 10 + (s[to - 1] - 0x30)
    }
}

/// The date and time that `YYYY:MM:DD HH:MM:SS` writes: at least 19 bytes,
/// the five separators in their places, and digits everywhere else. The
/// ranges of the numbers are not looked at.
pub open spec fn datetime_text(s: Seq<u8>) -> Option<DateTimeFields> {
    if s.len() >= 19 && s[4] == 0x3a && s[7] == 0x3a && s[10] == 0x20 && s[13] == 0x3a && s[16]
        == 0x3a && digits_at(s, 0, 4) && digits_at(s, 5, 7) && digits_at(s, 8, 10) && digits_at(
        s,
        11,
        13,
    ) && digits_at(s, 14, 16) && digits_at(s, 17, 19) {
        Some(
            DateTimeFields {
                year: number_at(s, 0, 4) as u16,
                month: number_at(s, 5, 7) as u8,
                day: number_at(s, 8, 10) as u8,
                hour: number_at(s, 11, 13) as u8,
                minute: number_at(s, 14, 16) as u8,
                second: number_at(s, 17, 19) as u8,
            },
        )
    } else {
        None
    }
}

/// The offset in minutes that `+HH:MM` or `-HH:MM` writes: at least 6
/// bytes, a sign, a colon in the middle, and digits elsewhere.
pub open spec fn offset_text(s: Seq<u8>) -> Option<i16> {
    if s.len() >= 6 && s[3] == 0x3a && digits_at(s, 1, 3) && digits_at(s, 4, 6) && (s[0] == 0x2b
        || s[0] == 0x2d) {
        let minutes = number_at(s, 1, 3) * 60 + number_at(s, 4, 6);
        if s[0] == 0x2b {
            Some(minutes as i16)
        } else {
            Some((-minutes) as i16)
        }
    } else {
        None
    }
}

/// kamadak-exif's `DateTime::from_ascii`: the six numbers of a date and
/// time written as `YYYY:MM:DD HH:MM:SS`, without any check of their ranges,
/// and an error for every other text.
#[verifier::external_body]
fn parse_datetime(text: &[u8]) -> (r: Result<DateTimeFields, exif::Error>)
    ensures
        r.is_ok() == datetime_text(text@).is_some(),
        r matches Ok(fields) ==> datetime_text(text@) == Some(fields),
{
    let parsed = exif::DateTime::from_ascii(text)?;
    Ok(
        DateTimeFields {
            year: parsed.year,
            month: parsed.month,
            day: parsed.day,
            hour: parsed.hour,
            minute: parsed.minute,
            second: parsed.second,
        },
    )
}

/// kamadak-exif's `DateTime::parse_offset`: the minutes east of UTC that
/// `+HH:MM` or `-HH:MM` writes, and an error for every other text. The
/// method stores the offset in its receiver, which is made here for the call.
#[verifier::external_body]
fn parse_offset(text: &[u8]) -> (r: Result<i16, exif::Error>)
    ensures
        r.is_ok() == offset_text(text@).is_some(),
        r matches Ok(minutes) ==> offset_text(text@) == Some(minutes),
{
    let mut receiver = exif::DateTime {
        year: 0,
        month: 0,
        day: 0,
        hour: 0,
        minute: 0,
        second: 0,
        nanosecond: None,
        offset: None,
    };
    receiver.parse_offset(text)?;
    Ok(receiver.offset.unwrap_or_default())
}

/// The single byte string of an ASCII field that has to be there.
pub open spec fn single_ascii(field: Option<FieldModel>, tag: TagName) -> Result<
    Seq<u8>,
    MetadataError,
> {
    match field {
        None => Err(MetadataError::Missing(tag)),
        Some(FieldModel::Ascii(vs)) => if vs.len() == 1 {
            Ok(vs[0])
        } else {
            Err(MetadataError::WrongCount(tag))
        },
        Some(_) => Err(MetadataError::WrongType(tag)),
    }
}

/// The capture time that the two tags give: both present, each one ASCII
/// string, the first a date and time, the second an offset of less than a
/// day, and the two together a moment that exists.
pub open spec fn spec_local_datetime(tags: TagsModel) -> Result<TimeView, MetadataError> {
    match single_ascii(tags.date_time_original, TagName::DateTimeOriginal) {
        Err(e) => Err(e),
        Ok(text) => match datetime_text(text) {
            None => Err(MetadataError::Unparsable(TagName::DateTimeOriginal)),
            Some(f) => match single_ascii(
                tags.offset_time_original,
                TagName::OffsetTimeOriginal,
            ) {
                Err(e) => Err(e),
                Ok(offset) => match offset_text(offset) {
                    None => Err(MetadataError::Unparsable(TagName::OffsetTimeOriginal)),
                    Some(minutes) => if !valid_offset_minutes(minutes as int) {
                        Err(MetadataError::InvalidValue(TagName::OffsetTimeOriginal))
                    } else if !valid_civil(
                        f.year as int,
                        f.month as int,
                        f.day as int,
                        f.hour as int,
                        f.minute as int,
                        f.second as int,
                    ) {
                        Err(MetadataError::InvalidValue(TagName::DateTimeOriginal))
                    } else {
                        Ok(
                            TimeView {
                                year: f.year as int,
                                month: f.month as int,
                                day: f.day as int,
                                hour: f.hour as int,
                                minute: f.minute as int,
                                second: f.second as int,
                                offset_minutes: minutes as int,
                                unix_seconds: (unix_seconds(
                                    f.year as int,
                                    f.month as int,
                                    f.day as int,
                                    f.hour as int,
                                    f.minute as int,
                                    f.second as int,
                                    minutes * 60,
                                )) as i64,
                            },
                        )
                    },
                },
            },
        },
    }
}

/// Reads the single byte string of an ASCII field that has to be there.
fn single_ascii_value<'a>(field: &'a Option<TagValue>, tag: TagName) -> (r: Result<
    &'a Vec<u8>,
    MetadataError,
>)
    ensures
        match single_ascii(field_model(*field), tag) {
            Ok(text) => r matches Ok(v) && v@ == text,
            Err(e) => r matches Err(x) && x == e,
        },
{
    match field {
        None => Err(MetadataError::Missing(tag)),
        Some(TagValue::Ascii(vs)) => if vs.len() == 1 {
            Ok(&vs[0])
        } else {
            Err(MetadataError::WrongCount(tag))
        },
        Some(_) => Err(MetadataError::WrongType(tag)),
    }
}

/// The byte string of an ASCII value that holds exactly one string, which is
/// not empty and all ASCII.
pub open spec fn nonempty_ascii(field: FieldModel, tag: TagName) -> Result<Seq<u8>, MetadataError> {
    match field {
        FieldModel::Ascii(vs) => if vs.len() != 1 {
            Err(MetadataError::WrongCount(tag))
        } else if vs[0].len() == 0 {
            Err(MetadataError::Empty(tag))
        } else if !all_ascii(vs[0]) {
            Err(MetadataError::NonAscii(tag))
        } else {
            Ok(vs[0])
        },
        _ => Err(MetadataError::WrongType(tag)),
    }
}

/// `nonempty_ascii` of a field that has to be there.
pub open spec fn required_ascii(field: Option<FieldModel>, tag: TagName) -> Result<
    Seq<u8>,
    MetadataError,
> {
    match field {
        None => Err(MetadataError::Missing(tag)),
        Some(f) => nonempty_ascii(f, tag),
    }
}

/// `nonempty_ascii` of a field that may be absent.
pub open spec fn optional_ascii(field: Option<FieldModel>, tag: TagName) -> Result<
    Option<Seq<u8>>,
    MetadataError,
> {
    match field {
        None => Ok(None),
        Some(f) => match nonempty_ascii(f, tag) {
            Ok(text) => Ok(Some(text)),
            Err(e) => Err(e),
        },
    }
}

/// The title: the text of `ImageDescription`.
pub open spec fn spec_title(tags: TagsModel) -> Result<Seq<char>, MetadataError> {
    match required_ascii(tags.image_description, TagName::ImageDescription) {
        Ok(text) => Ok(byte_chars(text)),
        Err(e) => Err(e),
    }
}

/// Whether `v` starts with the eight given bytes.
pub open spec fn has_code(
    v: Seq<u8>,
    b0: u8,
    b1: u8,
    b2: u8,
    b3: u8,
    b4: u8,
    b5: u8,
    b6: u8,
    b7: u8,
) -> bool {
    &&& v.len() >= 8
    &&& v[0] == b0
    &&& v[1] == b1
    &&& v[2] == b2
    &&& v[3] == b3
    &&& v[4] == b4
    &&& v[5] == b5
    &&& v[6] == b6
    &&& v[7] == b7
}

/// The character code `ASCII\0\0\0`.
pub open spec fn is_ascii_comment(v: Seq<u8>) -> bool {
    has_code(v, 0x41, 0x53, 0x43, 0x49, 0x49, 0, 0, 0)
}

/// The character code `JIS\0\0\0\0\0`.
pub open spec fn is_jis_comment(v: Seq<u8>) -> bool {
    has_code(v, 0x4a, 0x49, 0x53, 0, 0, 0, 0, 0)
}

/// The character code `UNICODE\0`.
pub open spec fn is_unicode_comment(v: Seq<u8>) -> bool {
    has_code(v, 0x55, 0x4e, 0x49, 0x43, 0x4f, 0x44, 0x45, 0)
}

/// The character code of eight zero bytes.
pub open spec fn is_undefined_comment(v: Seq<u8>) -> bool {
    has_code(v, 0, 0, 0, 0, 0, 0, 0, 0)
}

/// The 16-bit units that the bytes write, low byte first.
pub open spec fn le_units(bytes: Seq<u8>) -> Seq<u16> {
    Seq::new((bytes.len() / 2) as nat, |i: int| (bytes[2 * i] + 256 * bytes[2 * i + 1]) as u16)
}

/// A text, or nothing where it is empty.
pub open spec fn nonempty_text(t: Seq<char>) -> Option<Seq<char>> {
    if t.len() == 0 {
        None
    } else {
        Some(t)
    }
}

/// The text of a comment value: eight bytes of character code, then the
/// text in the encoding that the code names. A value that does not start
/// with one of the four codes, the empty value among them, is refused.
pub open spec fn comment_text(v: Seq<u8>) -> Result<Option<Seq<char>>, MetadataError> {
    let body = v.skip(8);
    if is_ascii_comment(v) {
        if valid_utf8(body) {
            Ok(nonempty_text(decode_utf8(body)))
        } else {
            Err(MetadataError::CommentNotUtf8)
        }
    } else if is_jis_comment(v) {
        Err(MetadataError::JisComment)
    } else if is_unicode_comment(v) {
        if body.len() % 2 != 0 {
            Err(MetadataError::CommentOddLength)
        } else {
            match utf16_text(le_units(body)) {
                Some(t) => Ok(nonempty_text(t)),
                None => Err(MetadataError::CommentNotUtf16),
            }
        }
    } else if is_undefined_comment(v) {
        Err(MetadataError::UndefinedComment)
    } else {
        Err(MetadataError::UnknownCommentCode)
    }
}

/// The text of `UserComment`: nothing where the tag is absent or the text
/// after its character code is empty.
pub open spec fn spec_description(tags: TagsModel) -> Result<Option<Seq<char>>, MetadataError> {
    match tags.user_comment {
        None => Ok(None),
        Some(FieldModel::Undefined(v)) => comment_text(v),
        Some(_) => Err(MetadataError::WrongType(TagName::UserComment)),
    }
}

/// Whether the text starts with the marker `alt:`.
pub open spec fn has_alt_marker(t: Seq<char>) -> bool {
    t.len() >= 4 && t[0] == 'a' && t[1] == 'l' && t[2] == 't' && t[3] == ':'
}

/// The index of the first line feed at or after `from`, or the length of the
/// text where there is none.
pub open spec fn line_end(t: Seq<char>, from: int) -> int
    decreases t.len() - from,
{
    if from >= t.len() {
        t.len() as int
    } else if t[from] == '\n' {
        from
    } else {
        line_end(t, from + 1)
    }
}

/// The alternative text of a comment: its first line after the marker, where
/// the comment starts with the marker.
pub open spec fn alt_text_of(t: Seq<char>) -> Option<Seq<char>> {
    if has_alt_marker(t) {
        Some(t.subrange(4, line_end(t, 4)))
    } else {
        None
    }
}

/// The description in a comment, as markdown: all of it where it does not
/// start with the marker, else what follows the first line, if there is a
/// second line.
pub open spec fn description_of(t: Seq<char>) -> Option<Seq<char>> {
    if !has_alt_marker(t) {
        Some(t)
    } else if line_end(t, 4) >= t.len() {
        None
    } else {
        Some(t.skip(line_end(t, 4) + 1))
    }
}

/// A GPS angle: degrees, minutes and seconds, and the side of the equator or
/// of the prime meridian it lies on. Its value in degrees is
/// `degrees + minutes / 60 + seconds / 3600`, negated where `positive` is
/// false.
#[derive(Clone, Copy, Debug, PartialEq, Eq, Structural)]
pub struct GpsAngle {
    pub degrees: Rational,
    pub minutes: Rational,
    pub seconds: Rational,
    /// North or east.
    pub positive: bool,
}

/// A fraction of two natural numbers.
#[derive(Clone, Copy, Debug, PartialEq, Eq, Structural)]
pub struct Fraction {
    pub num: u128,
    pub denom: u128,
}

/// The numerator of `degrees + minutes / 60 + seconds / 3600` over the
/// common denominator `angle_denominator`.
pub open spec fn angle_numerator(a: GpsAngle) -> int {
    a.degrees.num * a.minutes.denom * a.seconds.denom * 3600 + a.minutes.num * a.degrees.denom
        * a.seconds.denom * 60 + a.seconds.num * a.degrees.denom * a.minutes.denom
}

/// The common denominator of the three parts of an angle, in 3600ths.
pub open spec fn angle_denominator(a: GpsAngle) -> int {
    a.degrees.denom * a.minutes.denom * a.seconds.denom * 3600
}

/// The product of three 32-bit numbers.
fn product(a: u32, b: u32, c: u32) -> (r: u128)
    ensures
        r == a * b * c,
        r <= 0xffff_ffff * 0xffff_ffff * 0xffff_ffff,
{
    assert(a * b <= 0xffff_ffff * 0xffff_ffff) by (nonlinear_arith)
        requires
            a <= 0xffff_ffff,
            b <= 0xffff_ffff,
    ;
    assert(a * b * c <= 0xffff_ffff * 0xffff_ffff * 0xffff_ffff) by (nonlinear_arith)
        requires
            0 <= a * b <= 0xffff_ffff * 0xffff_ffff,
            c <= 0xffff_ffff,
    ;
    assert(0 <= a * b * c) by (nonlinear_arith)
        requires
            0 <= a,
            0 <= b,
            0 <= c,
    ;
    (a as u128) * (b as u128) * (c as u128)
}

impl GpsAngle {
    /// The size of the angle in degrees, `degrees + minutes / 60 + seconds /
    /// 3600`, as one exact fraction. Its denominator is zero where one of
    /// the three parts has the denominator zero.
    pub fn magnitude(&self) -> (f: Fraction)
        ensures
            f.num == angle_numerator(*self),
            f.denom == angle_denominator(*self),
    {
        let d = product(self.degrees.num, self.minutes.denom, self.seconds.denom);
        let m = product(self.minutes.num, self.degrees.denom, self.seconds.denom);
        let s = product(self.seconds.num, self.degrees.denom, self.minutes.denom);
        let all = product(self.degrees.denom, self.minutes.denom, self.seconds.denom);
        Fraction { num: d * 3600 + m * 60 + s, denom: all * 3600 }
    }
}

/// Where a photograph was taken.
#[derive(Clone, Copy, Debug, PartialEq, Eq, Structural)]
pub struct GPSCoords {
    pub lat: GpsAngle,
    pub lon: GpsAngle,
}

/// The three rationals of a GPS coordinate.
#[derive(Clone, Copy, Debug, PartialEq, Eq, Structural)]
pub struct Dms {
    pub degrees: Rational,
    pub minutes: Rational,
    pub seconds: Rational,
}

/// The magnitude under a GPS coordinate tag: three rationals, where the tag
/// is there.
pub open spec fn spec_gps_dms(field: Option<FieldModel>, tag: TagName) -> Result<
    Option<Dms>,
    MetadataError,
> {
    match field {
        None => Ok(None),
        Some(FieldModel::Rational(vs)) => if vs.len() == 3 {
            Ok(Some(Dms { degrees: vs[0], minutes: vs[1], seconds: vs[2] }))
        } else {
            Err(MetadataError::WrongCount(tag))
        },
        Some(_) => Err(MetadataError::WrongType(tag)),
    }
}

/// The direction under a GPS reference tag, where the tag is there: `true`
/// for the one-letter string `pos`, `false` for `neg`.
pub open spec fn spec_gps_ref(field: Option<FieldModel>, tag: TagName, pos: u8, neg: u8) -> Result<
    Option<bool>,
    MetadataError,
> {
    match field {
        None => Ok(None),
        Some(FieldModel::Ascii(vs)) => if vs.len() != 1 {
            Err(MetadataError::WrongCount(tag))
        } else if vs[0].len() == 1 && vs[0][0] == pos {
            Ok(Some(true))
        } else if vs[0].len() == 1 && vs[0][0] == neg {
            Ok(Some(false))
        } else {
            Err(MetadataError::BadReference(tag))
        },
        Some(_) => Err(MetadataError::WrongType(tag)),
    }
}

/// The coordinates from the four parts, each present or absent: all four or
/// none.
pub open spec fn combine_gps(
    lat: Option<Dms>,
    lon: Option<Dms>,
    lat_sign: Option<bool>,
    lon_sign: Option<bool>,
) -> Result<Option<GPSCoords>, MetadataError> {
    if lat is Some && lon is Some && lat_sign is Some && lon_sign is Some {
        Ok(
            Some(
                GPSCoords {
                    lat: GpsAngle {
                        degrees: lat->0.degrees,
                        minutes: lat->0.minutes,
                        seconds: lat->0.seconds,
                        positive: lat_sign->0,
                    },
                    lon: GpsAngle {
                        degrees: lon->0.degrees,
                        minutes: lon->0.minutes,
                        seconds: lon->0.seconds,
                        positive: lon_sign->0,
                    },
                },
            ),
        )
    } else if lat is None && lon is None && lat_sign is None && lon_sign is None {
        Ok(None)
    } else {
        Err(
            MetadataError::PartialGps {
                missing: MissingGps {
                    latitude: lat is None,
                    latitude_ref: lat_sign is None,
                    longitude: lon is None,
                    longitude_ref: lon_sign is None,
                },
            },
        )
    }
}

/// The coordinates that the four GPS tags give.
pub open spec fn spec_gps_coords(tags: TagsModel) -> Result<Option<GPSCoords>, MetadataError> {
    match spec_gps_dms(tags.gps_latitude, TagName::GPSLatitude) {
        Err(e) => Err(e),
        Ok(lat) => match spec_gps_dms(tags.gps_longitude, TagName::GPSLongitude) {
            Err(e) => Err(e),
            Ok(lon) => match spec_gps_ref(
                tags.gps_latitude_ref,
                TagName::GPSLatitudeRef,
                0x4e,
                0x53,
            ) {
                Err(e) => Err(e),
                Ok(lat_sign) => match spec_gps_ref(
                    tags.gps_longitude_ref,
                    TagName::GPSLongitudeRef,
                    0x45,
                    0x57,
                ) {
                    Err(e) => Err(e),
                    Ok(lon_sign) => combine_gps(lat, lon, lat_sign, lon_sign),
                },
            },
        },
    }
}

/// Whether the byte is ASCII white space.
pub open spec fn is_ascii_space(b: u8) -> bool {
    b == 0x20 || (0x09 <= b <= 0x0d)
}

/// The bytes without the white space they start with.
pub open spec fn trim_start(s: Seq<u8>) -> Seq<u8>
    decreases s.len(),
{
    if s.len() > 0 && is_ascii_space(s[0]) {
        trim_start(s.drop_first())
    } else {
        s
    }
}

/// The model as it is displayed: without the make in front of it, and the
/// white space after that, where it starts with the make.
pub open spec fn displayed_model(make: Seq<u8>, model: Seq<u8>) -> Seq<u8> {
    if make.is_prefix_of(model) {
        trim_start(model.skip(make.len() as int))
    } else {
        model
    }
}

/// The make and the displayed model of the camera.
pub open spec fn spec_camera_id(tags: TagsModel) -> Result<(Seq<char>, Seq<char>), MetadataError> {
    match required_ascii(tags.make, TagName::Make) {
        Err(e) => Err(e),
        Ok(make) => match required_ascii(tags.model, TagName::Model) {
            Err(e) => Err(e),
            Ok(model) => Ok((byte_chars(make), byte_chars(displayed_model(make, model)))),
        },
    }
}

/// The make and model of the lens: both tags or neither.
pub open spec fn spec_lens_id(tags: TagsModel) -> Result<
    Option<(Seq<char>, Seq<char>)>,
    MetadataError,
> {
    match optional_ascii(tags.lens_make, TagName::LensMake) {
        Err(e) => Err(e),
        Ok(make) => match optional_ascii(tags.lens_model, TagName::LensModel) {
            Err(e) => Err(e),
            Ok(model) => match (make, model) {
                (None, None) => Ok(None),
                (Some(make), Some(model)) => Ok(Some((byte_chars(make), byte_chars(model)))),
                (Some(_), None) => Err(MetadataError::LensModelMissing),
                (None, Some(_)) => Err(MetadataError::LensMakeMissing),
            },
        },
    }
}

/// The one 16-bit integer of a tag that has to be there.
pub open spec fn single_short(field: Option<FieldModel>, tag: TagName) -> Result<
    u16,
    MetadataError,
> {
    match field {
        None => Err(MetadataError::Missing(tag)),
        Some(FieldModel::Short(vs)) => if vs.len() == 1 {
            Ok(vs[0])
        } else {
            Err(MetadataError::WrongCount(tag))
        },
        Some(_) => Err(MetadataError::WrongType(tag)),
    }
}

/// The one rational of a tag that has to be there.
pub open spec fn single_rational(field: Option<FieldModel>, tag: TagName) -> Result<
    Rational,
    MetadataError,
> {
    match field {
        None => Err(MetadataError::Missing(tag)),
        Some(FieldModel::Rational(vs)) => if vs.len() == 1 {
            Ok(vs[0])
        } else {
            Err(MetadataError::WrongCount(tag))
        },
        Some(_) => Err(MetadataError::WrongType(tag)),
    }
}

/// An exposure time in seconds.
#[derive(Clone, Copy, Debug, PartialEq, Eq, Structural)]
pub enum ExposureTime {
    /// One over `denom`, written `1/<denom>`.
    Reciprocal { denom: u32 },
    /// Any other ratio, written as a decimal number.
    Ratio(Rational),
}

/// The exposure time that a rational stands for.
pub open spec fn exposure_of(r: Rational) -> ExposureTime {
    if r.num == 1 {
        ExposureTime::Reciprocal { denom: r.denom }
    } else {
        ExposureTime::Ratio(r)
    }
}

/// The exposure time under `ExposureTime`.
pub open spec fn spec_exposure_time(tags: TagsModel) -> Result<ExposureTime, MetadataError> {
    match single_rational(tags.exposure_time, TagName::ExposureTime) {
        Ok(r) => Ok(exposure_of(r)),
        Err(e) => Err(e),
    }
}

/// The text `1/<denom>`.
pub open spec fn reciprocal_text(denom: u32) -> Seq<char> {
    seq!['1', '/'] + decimal_digits(denom as nat)
}

/// What a `CameraInfo` stands for.
pub struct CameraModel {
    pub make: Seq<char>,
    pub model: Seq<char>,
    pub lens_id: Option<(Seq<char>, Seq<char>)>,
    pub iso: u16,
    pub f_stop: Rational,
    pub focal_length: Rational,
    pub exposure_time: ExposureTime,
}

/// What a `PhotoExifInfo` stands for.
pub struct ExifModel {
    pub title: Seq<char>,
    pub description: Option<Seq<char>>,
    pub alt_text: Option<Seq<char>>,
    pub coords: Option<GPSCoords>,
    pub camera: CameraModel,
    pub actual_datetime: TimeView,
    pub local_time: Seq<char>,
    pub tz_offset: Seq<char>,
    pub date: Seq<char>,
}

/// The view of a text that may be absent.
pub open spec fn text_model(s: Option<String>) -> Option<Seq<char>> {
    match s {
        Some(t) => Some(t@),
        None => None,
    }
}

/// The view of a pair of texts that may be absent.
pub open spec fn pair_model(p: Option<(String, String)>) -> Option<(Seq<char>, Seq<char>)> {
    match p {
        Some((a, b)) => Some((a@, b@)),
        None => None,
    }
}

/// The camera and its settings for one photograph.
#[derive(Debug)]
pub struct CameraInfo {
    /// The make of the camera and its model, the model without the make in
    /// front of it.
    pub id: (String, String),
    /// The make and model of the lens, where the photograph names them.
    pub lens_id: Option<(String, String)>,
    /// From `PhotographicSensitivity`.
    pub iso: u16,
    /// From `FNumber`.
    pub f_stop: Rational,
    /// From `FocalLength`, not translated to 35mm film.
    pub focal_length: Rational,
    /// From `ExposureTime`.
    pub exposure_time: ExposureTime,
}

impl View for CameraInfo {
    type V = CameraModel;

    open spec fn view(&self) -> CameraModel {
        CameraModel {
            make: self.id.0@,
            model: self.id.1@,
            lens_id: pair_model(self.lens_id),
            iso: self.iso,
            f_stop: self.f_stop,
            focal_length: self.focal_length,
            exposure_time: self.exposure_time,
        }
    }
}

/// The metadata of one photograph.
#[derive(Debug)]
pub struct PhotoExifInfo {
    /// The title shown for the photograph.
    pub title: String,
    /// The description as HTML, where the photograph has one.
    pub description: Option<String>,
    /// The alternative text, where the photograph gives one.
    pub alt_text: Option<String>,
    pub coords: Option<GPSCoords>,
    pub camera: CameraInfo,
    /// The moment of capture; photographs are ordered by it.
    pub actual_datetime: CaptureTime,
    /// The local time of capture, without the offset.
    pub local_time: String,
    /// The offset from UTC at which the photograph was taken.
    pub tz_offset: String,
    /// The local date of capture.
    pub date: String,
}

impl View for PhotoExifInfo {
    type V = ExifModel;

    open spec fn view(&self) -> ExifModel {
        ExifModel {
            title: self.title@,
            description: text_model(self.description),
            alt_text: text_model(self.alt_text),
            coords: self.coords,
            camera: self.camera@,
            actual_datetime: self.actual_datetime@,
            local_time: self.local_time@,
            tz_offset: self.tz_offset@,
            date: self.date@,
        }
    }
}

/// The metadata that a set of tags gives, or the first rule that it breaks:
/// the capture time is looked at first, then the comment, the title, the
/// coordinates, and the camera's make and model, lens, sensitivity, aperture,
/// focal length and exposure.
pub open spec fn exif_outcome(tags: TagsModel) -> Result<ExifModel, MetadataError> {
    match spec_local_datetime(tags) {
        Err(e) => Err(e),
        Ok(time) => match spec_description(tags) {
            Err(e) => Err(e),
            Ok(comment) => match spec_title(tags) {
                Err(e) => Err(e),
                Ok(title) => match spec_gps_coords(tags) {
                    Err(e) => Err(e),
                    Ok(coords) => match spec_camera(tags) {
                        Err(e) => Err(e),
                        Ok(camera) => Ok(
                            ExifModel {
                                title,
                                description: match comment {
                                    Some(t) => match description_of(t) {
                                        Some(md) => Some(markdown_html(md)),
                                        None => None,
                                    },
                                    None => None,
                                },
                                alt_text: match comment {
                                    Some(t) => alt_text_of(t),
                                    None => None,
                                },
                                coords,
                                camera,
                                actual_datetime: time,
                                local_time: time.formatted(FormatLevel::LocalTime.pattern()),
                                tz_offset: time.formatted(FormatLevel::Offset.pattern()),
                                date: time.formatted(FormatLevel::Date.pattern()),
                            },
                        ),
                    },
                },
            },
        },
    }
}

/// The camera and its settings that a set of tags gives.
pub open spec fn spec_camera(tags: TagsModel) -> Result<CameraModel, MetadataError> {
    match spec_camera_id(tags) {
        Err(e) => Err(e),
        Ok(id) => match spec_lens_id(tags) {
            Err(e) => Err(e),
            Ok(lens_id) => match single_short(
                tags.photographic_sensitivity,
                TagName::PhotographicSensitivity,
            ) {
                Err(e) => Err(e),
                Ok(iso) => match single_rational(tags.f_number, TagName::FNumber) {
                    Err(e) => Err(e),
                    Ok(f_stop) => match single_rational(tags.focal_length, TagName::FocalLength) {
                        Err(e) => Err(e),
                        Ok(focal_length) => match spec_exposure_time(tags) {
                            Err(e) => Err(e),
                            Ok(exposure_time) => Ok(
                                CameraModel {
                                    make: id.0,
                                    model: id.1,
                                    lens_id,
                                    iso,
                                    f_stop,
                                    focal_length,
                                    exposure_time,
                                },
                            ),
                        },
                    },
                },
            },
        },
    }
}

/// Reads the byte string of an ASCII value that holds exactly one string,
/// which is not empty and all ASCII.
fn nonempty_ascii_bytes<'a>(value: &'a TagValue, tag: TagName) -> (r: Result<
    &'a Vec<u8>,
    MetadataError,
>)
    ensures
        match nonempty_ascii(value@, tag) {
            Ok(text) => r matches Ok(v) && v@ == text,
            Err(e) => r matches Err(x) && x == e,
        },
{
    match value {
        TagValue::Ascii(vs) => {
            if vs.len() != 1 {
                return Err(MetadataError::WrongCount(tag));
            }
            let v = &vs[0];
            if v.len() == 0 {
                Err(MetadataError::Empty(tag))
            } else if !is_ascii_bytes(v.as_slice()) {
                Err(MetadataError::NonAscii(tag))
            } else {
                Ok(v)
            }
        },
        _ => Err(MetadataError::WrongType(tag)),
    }
}

/// `nonempty_ascii_bytes` of a field that has to be there.
fn required_ascii_bytes<'a>(field: &'a Option<TagValue>, tag: TagName) -> (r: Result<
    &'a Vec<u8>,
    MetadataError,
>)
    ensures
        match required_ascii(field_model(*field), tag) {
            Ok(text) => r matches Ok(v) && v@ == text,
            Err(e) => r matches Err(x) && x == e,
        },
{
    match field {
        None => Err(MetadataError::Missing(tag)),
        Some(value) => nonempty_ascii_bytes(value, tag),
    }
}

/// `nonempty_ascii_bytes` of a field that may be absent.
fn optional_ascii_bytes<'a>(field: &'a Option<TagValue>, tag: TagName) -> (r: Result<
    Option<&'a Vec<u8>>,
    MetadataError,
>)
    ensures
        match optional_ascii(field_model(*field), tag) {
            Ok(Some(text)) => r matches Ok(Some(v)) && v@ == text,
            Ok(None) => r matches Ok(None),
            Err(e) => r matches Err(x) && x == e,
        },
{
    match field {
        None => Ok(None),
        Some(value) => match nonempty_ascii_bytes(value, tag) {
            Ok(v) => Ok(Some(v)),
            Err(e) => Err(e),
        },
    }
}

/// Whether `v` starts with the eight given bytes.
fn starts_with_code(
    v: &Vec<u8>,
    b0: u8,
    b1: u8,
    b2: u8,
    b3: u8,
    b4: u8,
    b5: u8,
    b6: u8,
    b7: u8,
) -> (r: bool)
    ensures
        r == has_code(v@, b0, b1, b2, b3, b4, b5, b6, b7),
{
    v.len() >= 8 && v[0] == b0 && v[1] == b1 && v[2] == b2 && v[3] == b3 && v[4] == b4 && v[5]
        == b5 && v[6] == b6 && v[7] == b7
}

/// The 16-bit units that the bytes write, low byte first.
fn little_endian_units(bytes: &[u8]) -> (units: Vec<u16>)
    requires
        bytes@.len() % 2 == 0,
    ensures
        units@ == le_units(bytes@),
{
    let count: usize = bytes.len() / 2;
    let mut units: Vec<u16> = Vec::new();
    let mut i: usize = 0;
    while i < count
        invariant
            count == bytes@.len() / 2,
            bytes@.len() % 2 == 0,
            bytes@.len() <= usize::MAX,
            i <= count,
            units@.len() == i,
            forall|j: int| 0 <= j < i ==> units@[j] == le_units(bytes@)[j],
        decreases count - i,
    {
        let low: u16 = bytes[2 * i] as u16;
        let high: u16 = bytes[2 * i + 1] as u16;
        units.push(low + high * 256);
        i += 1;
    }
    assert(units@ =~= le_units(bytes@));
    units
}

/// A text, or nothing where it is empty.
fn nonempty(text: String) -> (r: Option<String>)
    ensures
        text_model(r) == nonempty_text(text@),
{
    if text.as_str().is_empty() {
        None
    } else {
        Some(text)
    }
}

/// Decodes a comment value: eight bytes of character code, then the text.
fn decode_comment(v: &Vec<u8>) -> (r: Result<Option<String>, MetadataError>)
    ensures
        match comment_text(v@) {
            Ok(t) => r matches Ok(s) && text_model(s) == t,
            Err(e) => r matches Err(x) && x == e,
        },
{
    if starts_with_code(v, 0x41, 0x53, 0x43, 0x49, 0x49, 0, 0, 0) {
        let body = slice_subrange(v.as_slice(), 8, v.len());
        assert(body@ == v@.skip(8));
        match string_from_utf8(slice_to_vec(body)) {
            Some(text) => Ok(nonempty(text)),
            None => Err(MetadataError::CommentNotUtf8),
        }
    } else if starts_with_code(v, 0x4a, 0x49, 0x53, 0, 0, 0, 0, 0) {
        Err(MetadataError::JisComment)
    } else if starts_with_code(v, 0x55, 0x4e, 0x49, 0x43, 0x4f, 0x44, 0x45, 0) {
        let body = slice_subrange(v.as_slice(), 8, v.len());
        assert(body@ == v@.skip(8));
        if body.len() % 2 != 0 {
            return Err(MetadataError::CommentOddLength);
        }
        let units = little_endian_units(body);
        match string_from_utf16(&units) {
            Some(text) => Ok(nonempty(text)),
            None => Err(MetadataError::CommentNotUtf16),
        }
    } else if starts_with_code(v, 0, 0, 0, 0, 0, 0, 0, 0) {
        Err(MetadataError::UndefinedComment)
    } else {
        Err(MetadataError::UnknownCommentCode)
    }
}

/// Splits a comment into its description, as markdown, and its alternative
/// text.
fn split_comment(text: &str) -> (r: (Option<String>, Option<String>))
    ensures
        text_model(r.0) == description_of(text@),
        text_model(r.1) == alt_text_of(text@),
{
    let chars = str_chars(text);
    let n: usize = chars.len();
    if !(n >= 4 && chars[0] == 'a' && chars[1] == 'l' && chars[2] == 't' && chars[3] == ':') {
        return (Some(string_from_chars(&chars)), None);
    }
    let mut end: usize = 4;
    while end < n && chars[end] != '\n'
        invariant
            n == chars@.len(),
            4 <= end <= n,
            line_end(chars@, 4) == line_end(chars@, end as int),
        decreases n - end,
    {
        end += 1;
    }
    let mut alt: Vec<char> = Vec::new();
    let mut i: usize = 4;
    while i < end
        invariant
            4 <= i <= end <= n,
            n == chars@.len(),
            alt@ == chars@.subrange(4, i as int),
        decreases end - i,
    {
        alt.push(chars[i]);
        assert(chars@.subrange(4, i + 1) =~= chars@.subrange(4, i as int).push(chars@[i as int]));
        i += 1;
    }
    if end >= n {
        return (None, Some(string_from_chars(&alt)));
    }
    let mut rest: Vec<char> = Vec::new();
    let mut j: usize = end + 1;
    while j < n
        invariant
            end + 1 <= j <= n,
            n == chars@.len(),
            rest@ == chars@.subrange(end + 1, j as int),
        decreases n - j,
    {
        rest.push(chars[j]);
        assert(chars@.subrange(end + 1, j + 1) =~= chars@.subrange(end + 1, j as int).push(
            chars@[j as int],
        ));
        j += 1;
    }
    assert(chars@.subrange(end + 1, n as int) =~= chars@.skip(end + 1));
    (Some(string_from_chars(&rest)), Some(string_from_chars(&alt)))
}

/// The model as it is displayed, given the make.
fn strip_make(make: &Vec<u8>, model: &Vec<u8>) -> (r: String)
    ensures
        r@ == byte_chars(displayed_model(make@, model@)),
{
    let m: usize = make.len();
    let n: usize = model.len();
    if m > n {
        return ascii_string(model.as_slice());
    }
    let mut i: usize = 0;
    while i < m
        invariant
            m == make@.len(),
            n == model@.len(),
            m <= n,
            i <= m,
            forall|j: int| 0 <= j < i ==> make@[j] == model@[j],
        decreases m - i,
    {
        if make[i] != model[i] {
            return ascii_string(model.as_slice());
        }
        i += 1;
    }
    assert(make@ =~= model@.subrange(0, m as int));
    let mut k: usize = m;
    while k < n && (model[k] == 0x20 || (0x09 <= model[k] && model[k] <= 0x0d))
        invariant
            n == model@.len(),
            m <= k <= n,
            trim_start(model@.skip(m as int)) == trim_start(model@.skip(k as int)),
        decreases n - k,
    {
        assert(model@.skip(k as int).drop_first() =~= model@.skip(k + 1));
        k += 1;
    }
    let rest = slice_subrange(model.as_slice(), k, n);
    assert(rest@ =~= model@.skip(k as int));
    ascii_string(rest)
}

/// Reads the one rational of a tag that has to be there.
fn single_rational_value(field: &Option<TagValue>, tag: TagName) -> (r: Result<
    Rational,
    MetadataError,
>)
    ensures
        r == single_rational(field_model(*field), tag),
{
    match field {
        None => Err(MetadataError::Missing(tag)),
        Some(TagValue::Rational(vs)) => if vs.len() == 1 {
            Ok(vs[0])
        } else {
            Err(MetadataError::WrongCount(tag))
        },
        Some(_) => Err(MetadataError::WrongType(tag)),
    }
}

impl ExposureTime {
    /// The exposure written as a fraction, where it is one over a whole
    /// number.
    pub fn fraction(&self) -> (r: Option<String>)
        ensures
            match *self {
                ExposureTime::Reciprocal { denom } => r matches Some(s) && s@ == reciprocal_text(
                    denom,
                ),
                ExposureTime::Ratio(_) => r is None,
            },
    {
        match self {
            ExposureTime::Reciprocal { denom } => {
                let mut chars: Vec<char> = Vec::new();
                chars.push('1');
                chars.push('/');
                assert(chars@ =~= seq!['1', '/']);
                push_decimal(&mut chars, *denom);
                Some(string_from_chars(&chars))
            },
            ExposureTime::Ratio(_) => None,
        }
    }
}

impl PhotoExifInfo {
    /// Reads the metadata of a photograph from the bytes of its image file.
    pub fn from_img_data(contents: &[u8]) -> (r: Result<PhotoExifInfo, MetadataError>)
        ensures
            match container_fields(contents@) {
                None => r matches Err(e) && e == MetadataError::Unreadable,
                Some(fields) => match exif_outcome(tags_of(fields)) {
                    Ok(m) => r matches Ok(info) && info@ == m,
                    Err(e) => r matches Err(x) && x == e,
                },
            },
    {
        match ExifTags::from_image(contents) {
            None => Err(MetadataError::Unreadable),
            Some(tags) => Self::from_tags(&tags),
        }
    }

    /// Puts the metadata of a photograph together from its Exif fields.
    pub fn from_tags(tags: &ExifTags) -> (r: Result<PhotoExifInfo, MetadataError>)
        ensures
            match exif_outcome(tags@) {
                Ok(m) => r matches Ok(info) && info@ == m,
                Err(e) => r matches Err(x) && x == e,
            },
    {
        let datetime = match Self::get_local_datetime(tags) {
            Ok(t) => t,
            Err(e) => { return Err(e); },
        };
        let comment = match Self::get_description(tags) {
            Ok(c) => c,
            Err(e) => { return Err(e); },
        };
        let (description, alt_text) = match comment {
            None => (None, None),
            Some(text) => {
                let (markdown, alt) = split_comment(text.as_str());
                match markdown {
                    Some(md) => (Some(markdown_to_html(md.as_str())), alt),
                    None => (None, alt),
                }
            },
        };
        let title = match Self::get_title(tags) {
            Ok(t) => t,
            Err(e) => { return Err(e); },
        };
        let coords = match Self::get_gps_coords(tags) {
            Ok(c) => c,
            Err(e) => { return Err(e); },
        };
        let id = match Self::get_camera_id(tags) {
            Ok(v) => v,
            Err(e) => { return Err(e); },
        };
        let lens_id = match Self::get_lens_id(tags) {
            Ok(v) => v,
            Err(e) => { return Err(e); },
        };
        let iso = match Self::get_iso(tags) {
            Ok(v) => v,
            Err(e) => { return Err(e); },
        };
        let f_stop = match Self::get_f_stop(tags) {
            Ok(v) => v,
            Err(e) => { return Err(e); },
        };
        let focal_length = match Self::get_focal_length(tags) {
            Ok(v) => v,
            Err(e) => { return Err(e); },
        };
        let exposure_time = match Self::get_exposure_time(tags) {
            Ok(v) => v,
            Err(e) => { return Err(e); },
        };
        let local_time = format_datetime(&datetime, FormatLevel::LocalTime);
        let tz_offset = format_datetime(&datetime, FormatLevel::Offset);
        let date = format_datetime(&datetime, FormatLevel::Date);
        Ok(
            PhotoExifInfo {
                title,
                description,
                alt_text,
                coords,
                camera: CameraInfo { id, lens_id, iso, f_stop, focal_length, exposure_time },
                actual_datetime: datetime,
                local_time,
                tz_offset,
                date,
            },
        )
    }

    /// The title, from `ImageDescription`: one ASCII string that is not
    /// empty.
    pub fn get_title(tags: &ExifTags) -> (r: Result<String, MetadataError>)
        ensures
            match spec_title(tags@) {
                Ok(t) => r matches Ok(s) && s@ == t,
                Err(e) => r matches Err(x) && x == e,
            },
    {
        match required_ascii_bytes(&tags.image_description, TagName::ImageDescription) {
            Ok(v) => Ok(ascii_string(v.as_slice())),
            Err(e) => Err(e),
        }
    }

    /// The text of `UserComment`, decoded as its character code says;
    /// nothing where the tag is absent or the decoded text is empty.
    pub fn get_description(tags: &ExifTags) -> (r: Result<Option<String>, MetadataError>)
        ensures
            match spec_description(tags@) {
                Ok(t) => r matches Ok(s) && text_model(s) == t,
                Err(e) => r matches Err(x) && x == e,
            },
    {
        match &tags.user_comment {
            None => Ok(None),
            Some(TagValue::Undefined(v)) => decode_comment(v),
            Some(_) => Err(MetadataError::WrongType(TagName::UserComment)),
        }
    }

    /// The coordinates from the four GPS tags: all four, or none of them.
    pub fn get_gps_coords(tags: &ExifTags) -> (r: Result<Option<GPSCoords>, MetadataError>)
        ensures
            r == spec_gps_coords(tags@),
    {
        let lat = match Self::gps_dms(&tags.gps_latitude, TagName::GPSLatitude) {
            Ok(v) => v,
            Err(e) => { return Err(e); },
        };
        let lon = match Self::gps_dms(&tags.gps_longitude, TagName::GPSLongitude) {
            Ok(v) => v,
            Err(e) => { return Err(e); },
        };
        let lat_sign = match Self::gps_ref(
            &tags.gps_latitude_ref,
            TagName::GPSLatitudeRef,
            0x4e,
            0x53,
        ) {
            Ok(v) => v,
            Err(e) => { return Err(e); },
        };
        let lon_sign = match Self::gps_ref(
            &tags.gps_longitude_ref,
            TagName::GPSLongitudeRef,
            0x45,
            0x57,
        ) {
            Ok(v) => v,
            Err(e) => { return Err(e); },
        };
        match (lat, lon, lat_sign, lon_sign) {
            (Some(lat), Some(lon), Some(lat_sign), Some(lon_sign)) => Ok(
                Some(
                    GPSCoords {
                        lat: GpsAngle {
                            degrees: lat.degrees,
                            minutes: lat.minutes,
                            seconds: lat.seconds,
                            positive: lat_sign,
                        },
                        lon: GpsAngle {
                            degrees: lon.degrees,
                            minutes: lon.minutes,
                            seconds: lon.seconds,
                            positive: lon_sign,
                        },
                    },
                ),
            ),
            (None, None, None, None) => Ok(None),
            _ => Err(
                MetadataError::PartialGps {
                    missing: MissingGps {
                        latitude: lat.is_none(),
                        latitude_ref: lat_sign.is_none(),
                        longitude: lon.is_none(),
                        longitude_ref: lon_sign.is_none(),
                    },
                },
            ),
        }
    }

    /// The direction under a GPS reference tag: `true` for the one-letter
    /// string `pos`, `false` for `neg`, nothing where the tag is absent.
    pub fn gps_ref(field: &Option<TagValue>, tag: TagName, pos: u8, neg: u8) -> (r: Result<
        Option<bool>,
        MetadataError,
    >)
        ensures
            r == spec_gps_ref(field_model(*field), tag, pos, neg),
    {
        match field {
            None => Ok(None),
            Some(TagValue::Ascii(vs)) => {
                if vs.len() != 1 {
                    return Err(MetadataError::WrongCount(tag));
                }
                let v = &vs[0];
                if v.len() == 1 && v[0] == pos {
                    Ok(Some(true))
                } else if v.len() == 1 && v[0] == neg {
                    Ok(Some(false))
                } else {
                    Err(MetadataError::BadReference(tag))
                }
            },
            Some(_) => Err(MetadataError::WrongType(tag)),
        }
    }

    /// The degrees, minutes and seconds under a GPS coordinate tag; nothing
    /// where the tag is absent.
    pub fn gps_dms(field: &Option<TagValue>, tag: TagName) -> (r: Result<
        Option<Dms>,
        MetadataError,
    >)
        ensures
            r == spec_gps_dms(field_model(*field), tag),
    {
        match field {
            None => Ok(None),
            Some(TagValue::Rational(vs)) => if vs.len() == 3 {
                Ok(Some(Dms { degrees: vs[0], minutes: vs[1], seconds: vs[2] }))
            } else {
                Err(MetadataError::WrongCount(tag))
            },
            Some(_) => Err(MetadataError::WrongType(tag)),
        }
    }

    /// The moment of capture, from `DateTimeOriginal` and
    /// `OffsetTimeOriginal`.
    pub fn get_local_datetime(tags: &ExifTags) -> (r: Result<CaptureTime, MetadataError>)
        ensures
            match spec_local_datetime(tags@) {
                Ok(t) => r matches Ok(c) && c@ == t,
                Err(e) => r matches Err(x) && x == e,
            },
    {
        let text = match single_ascii_value(&tags.date_time_original, TagName::DateTimeOriginal) {
            Ok(v) => v,
            Err(e) => { return Err(e); },
        };
        let fields = match parse_datetime(text.as_slice()) {
            Ok(f) => f,
            Err(_) => { return Err(MetadataError::Unparsable(TagName::DateTimeOriginal)); },
        };
        let offset_bytes = match single_ascii_value(
            &tags.offset_time_original,
            TagName::OffsetTimeOriginal,
        ) {
            Ok(v) => v,
            Err(e) => { return Err(e); },
        };
        let minutes = match parse_offset(offset_bytes.as_slice()) {
            Ok(m) => m,
            Err(_) => { return Err(MetadataError::Unparsable(TagName::OffsetTimeOriginal)); },
        };
        if minutes <= -1440 || minutes >= 1440 {
            return Err(MetadataError::InvalidValue(TagName::OffsetTimeOriginal));
        }
        match CaptureTime::new(
            fields.year,
            fields.month,
            fields.day,
            fields.hour,
            fields.minute,
            fields.second,
            minutes,
        ) {
            Some(t) => Ok(t),
            None => Err(MetadataError::InvalidValue(TagName::DateTimeOriginal)),
        }
    }

    /// The text of an ASCII value that holds exactly one string, which is
    /// not empty and all ASCII.
    pub fn extract_nonempty_ascii_from_exif(value: &TagValue, tag: TagName) -> (r: Result<
        String,
        MetadataError,
    >)
        ensures
            match nonempty_ascii(value@, tag) {
                Ok(t) => r matches Ok(s) && s@ == byte_chars(t),
                Err(e) => r matches Err(x) && x == e,
            },
    {
        match nonempty_ascii_bytes(value, tag) {
            Ok(v) => Ok(ascii_string(v.as_slice())),
            Err(e) => Err(e),
        }
    }

    /// The make of the camera and its model, the model without the make in
    /// front of it.
    pub fn get_camera_id(tags: &ExifTags) -> (r: Result<(String, String), MetadataError>)
        ensures
            match spec_camera_id(tags@) {
                Ok(id) => r matches Ok(p) && p.0@ == id.0 && p.1@ == id.1,
                Err(e) => r matches Err(x) && x == e,
            },
    {
        let make = match required_ascii_bytes(&tags.make, TagName::Make) {
            Ok(v) => v,
            Err(e) => { return Err(e); },
        };
        let model = match required_ascii_bytes(&tags.model, TagName::Model) {
            Ok(v) => v,
            Err(e) => { return Err(e); },
        };
        Ok((ascii_string(make.as_slice()), strip_make(make, model)))
    }

    /// The make and model of the lens: both tags, or neither.
    pub fn get_lens_id(tags: &ExifTags) -> (r: Result<Option<(String, String)>, MetadataError>)
        ensures
            match spec_lens_id(tags@) {
                Ok(id) => r matches Ok(p) && pair_model(p) == id,
                Err(e) => r matches Err(x) && x == e,
            },
    {
        let make = match optional_ascii_bytes(&tags.lens_make, TagName::LensMake) {
            Ok(v) => v,
            Err(e) => { return Err(e); },
        };
        let model = match optional_ascii_bytes(&tags.lens_model, TagName::LensModel) {
            Ok(v) => v,
            Err(e) => { return Err(e); },
        };
        match (make, model) {
            (None, None) => Ok(None),
            (Some(make), Some(model)) => Ok(
                Some((ascii_string(make.as_slice()), ascii_string(model.as_slice()))),
            ),
            (Some(_), None) => Err(MetadataError::LensModelMissing),
            (None, Some(_)) => Err(MetadataError::LensMakeMissing),
        }
    }

    /// The sensitivity, from `PhotographicSensitivity`: one 16-bit integer.
    pub fn get_iso(tags: &ExifTags) -> (r: Result<u16, MetadataError>)
        ensures
            r == single_short(tags@.photographic_sensitivity, TagName::PhotographicSensitivity),
    {
        match &tags.photographic_sensitivity {
            None => Err(MetadataError::Missing(TagName::PhotographicSensitivity)),
            Some(TagValue::Short(vs)) => if vs.len() == 1 {
                Ok(vs[0])
            } else {
                Err(MetadataError::WrongCount(TagName::PhotographicSensitivity))
            },
            Some(_) => Err(MetadataError::WrongType(TagName::PhotographicSensitivity)),
        }
    }

    /// The aperture, from `FNumber`: one rational.
    pub fn get_f_stop(tags: &ExifTags) -> (r: Result<Rational, MetadataError>)
        ensures
            r == single_rational(tags@.f_number, TagName::FNumber),
    {
        single_rational_value(&tags.f_number, TagName::FNumber)
    }

    /// The focal length, from `FocalLength`: one rational.
    pub fn get_focal_length(tags: &ExifTags) -> (r: Result<Rational, MetadataError>)
        ensures
            r == single_rational(tags@.focal_length, TagName::FocalLength),
    {
        single_rational_value(&tags.focal_length, TagName::FocalLength)
    }

    /// The exposure time, from `ExposureTime`: one rational, kept as a
    /// fraction where its numerator is 1.
    pub fn get_exposure_time(tags: &ExifTags) -> (r: Result<ExposureTime, MetadataError>)
        ensures
            r == spec_exposure_time(tags@),
    {
        match single_rational_value(&tags.exposure_time, TagName::ExposureTime) {
            Ok(rational) => if rational.num == 1 {
                Ok(ExposureTime::Reciprocal { denom: rational.denom })
            } else {
                Ok(ExposureTime::Ratio(rational))
            },
            Err(e) => Err(e),
        }
    }
}

} // verus!
