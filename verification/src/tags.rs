//! The Exif fields that the photo metadata is read from, as plain values,
//! and the calls that fetch them from an image.

use vstd::prelude::*;

verus! {

/// The part of the Exif structure that a tag number belongs to.
#[derive(Clone, Copy, Debug, PartialEq, Eq, Structural)]
pub enum TagContext {
    Tiff,
    Exif,
    Gps,
    Interop,
}

/// The tags that the photo metadata is read from.
#[derive(Clone, Copy, Debug, PartialEq, Eq, Structural)]
pub enum TagName {
    ImageDescription,
    UserComment,
    GPSLatitude,
    GPSLatitudeRef,
    GPSLongitude,
    GPSLongitudeRef,
    DateTimeOriginal,
    OffsetTimeOriginal,
    Make,
    Model,
    LensMake,
    LensModel,
    PhotographicSensitivity,
    FNumber,
    FocalLength,
    ExposureTime,
}

/// A tag as the Exif standard numbers it.
pub struct TagKey {
    pub context: TagContext,
    pub number: u16,
}

impl TagName {
    /// The context and number that the Exif standard gives this tag.
    pub open spec fn key(self) -> TagKey {
        match self {
            TagName::ImageDescription => TagKey { context: TagContext::Tiff, number: 0x010e },
            TagName::Make => TagKey { context: TagContext::Tiff, number: 0x010f },
            TagName::Model => TagKey { context: TagContext::Tiff, number: 0x0110 },
            TagName::ExposureTime => TagKey { context: TagContext::Exif, number: 0x829a },
            TagName::FNumber => TagKey { context: TagContext::Exif, number: 0x829d },
            TagName::PhotographicSensitivity => TagKey {
                context: TagContext::Exif,
                number: 0x8827,
            },
            TagName::DateTimeOriginal => TagKey { context: TagContext::Exif, number: 0x9003 },
            TagName::OffsetTimeOriginal => TagKey { context: TagContext::Exif, number: 0x9011 },
            TagName::FocalLength => TagKey { context: TagContext::Exif, number: 0x920a },
            TagName::UserComment => TagKey { context: TagContext::Exif, number: 0x9286 },
            TagName::LensMake => TagKey { context: TagContext::Exif, number: 0xa433 },
            TagName::LensModel => TagKey { context: TagContext::Exif, number: 0xa434 },
            TagName::GPSLatitudeRef => TagKey { context: TagContext::Gps, number: 0x0001 },
            TagName::GPSLatitude => TagKey { context: TagContext::Gps, number: 0x0002 },
            TagName::GPSLongitudeRef => TagKey { context: TagContext::Gps, number: 0x0003 },
            TagName::GPSLongitude => TagKey { context: TagContext::Gps, number: 0x0004 },
        }
    }

    /// Computes `key`.
    pub fn exif_key(self) -> (k: TagKey)
        ensures
            k == self.key(),
    {
        match self {
            TagName::ImageDescription => TagKey { context: TagContext::Tiff, number: 0x010e },
            TagName::Make => TagKey { context: TagContext::Tiff, number: 0x010f },
            TagName::Model => TagKey { context: TagContext::Tiff, number: 0x0110 },
            TagName::ExposureTime => TagKey { context: TagContext::Exif, number: 0x829a },
            TagName::FNumber => TagKey { context: TagContext::Exif, number: 0x829d },
            TagName::PhotographicSensitivity => TagKey {
                context: TagContext::Exif,
                number: 0x8827,
            },
            TagName::DateTimeOriginal => TagKey { context: TagContext::Exif, number: 0x9003 },
            TagName::OffsetTimeOriginal => TagKey { context: TagContext::Exif, number: 0x9011 },
            TagName::FocalLength => TagKey { context: TagContext::Exif, number: 0x920a },
            TagName::UserComment => TagKey { context: TagContext::Exif, number: 0x9286 },
            TagName::LensMake => TagKey { context: TagContext::Exif, number: 0xa433 },
            TagName::LensModel => TagKey { context: TagContext::Exif, number: 0xa434 },
            TagName::GPSLatitudeRef => TagKey { context: TagContext::Gps, number: 0x0001 },
            TagName::GPSLatitude => TagKey { context: TagContext::Gps, number: 0x0002 },
            TagName::GPSLongitudeRef => TagKey { context: TagContext::Gps, number: 0x0003 },
            TagName::GPSLongitude => TagKey { context: TagContext::Gps, number: 0x0004 },
        }
    }
}

/// An unsigned rational number as Exif stores it.
#[derive(Clone, Copy, Debug, PartialEq, Eq, Structural)]
pub struct Rational {
    pub num: u32,
    pub denom: u32,
}

/// What a field's value stands for.
pub enum FieldModel {
    Ascii(Seq<Seq<u8>>),
    Short(Seq<u16>),
    Rational(Seq<Rational>),
    Undefined(Seq<u8>),
    Other,
}

/// The value of one Exif field, in the encodings that the metadata rules
/// read; every other encoding is `Other`.
#[derive(Debug)]
pub enum TagValue {
    /// Byte strings of an ASCII field, without their trailing NUL.
    Ascii(Vec<Vec<u8>>),
    /// 16-bit unsigned integers.
    Short(Vec<u16>),
    /// Unsigned rationals.
    Rational(Vec<Rational>),
    /// Bytes of no declared type.
    Undefined(Vec<u8>),
    Other,
}

/// The views of the byte strings of an ASCII value.
pub open spec fn byte_strings(v: Seq<Vec<u8>>) -> Seq<Seq<u8>> {
    Seq::new(v.len(), |i: int| v[i]@)
}

impl View for TagValue {
    type V = FieldModel;

    open spec fn view(&self) -> FieldModel {
        match self {
            TagValue::Ascii(v) => FieldModel::Ascii(byte_strings(v@)),
            TagValue::Short(v) => FieldModel::Short(v@),
            TagValue::Rational(v) => FieldModel::Rational(v@),
            TagValue::Undefined(v) => FieldModel::Undefined(v@),
            TagValue::Other => FieldModel::Other,
        }
    }
}

/// The view of a field that may be absent.
pub open spec fn field_model(v: Option<TagValue>) -> Option<FieldModel> {
    match v {
        Some(t) => Some(t@),
        None => None,
    }
}

/// What an `ExifTags` stands for.
pub struct TagsModel {
    pub image_description: Option<FieldModel>,
    pub user_comment: Option<FieldModel>,
    pub gps_latitude: Option<FieldModel>,
    pub gps_latitude_ref: Option<FieldModel>,
    pub gps_longitude: Option<FieldModel>,
    pub gps_longitude_ref: Option<FieldModel>,
    pub date_time_original: Option<FieldModel>,
    pub offset_time_original: Option<FieldModel>,
    pub make: Option<FieldModel>,
    pub model: Option<FieldModel>,
    pub lens_make: Option<FieldModel>,
    pub lens_model: Option<FieldModel>,
    pub photographic_sensitivity: Option<FieldModel>,
    pub f_number: Option<FieldModel>,
    pub focal_length: Option<FieldModel>,
    pub exposure_time: Option<FieldModel>,
}

/// The fields of the primary image that the metadata rules read, each
/// present or absent.
#[derive(Debug)]
pub struct ExifTags {
    pub image_description: Option<TagValue>,
    pub user_comment: Option<TagValue>,
    pub gps_latitude: Option<TagValue>,
    pub gps_latitude_ref: Option<TagValue>,
    pub gps_longitude: Option<TagValue>,
    pub gps_longitude_ref: Option<TagValue>,
    pub date_time_original: Option<TagValue>,
    pub offset_time_original: Option<TagValue>,
    pub make: Option<TagValue>,
    pub model: Option<TagValue>,
    pub lens_make: Option<TagValue>,
    pub lens_model: Option<TagValue>,
    pub photographic_sensitivity: Option<TagValue>,
    pub f_number: Option<TagValue>,
    pub focal_length: Option<TagValue>,
    pub exposure_time: Option<TagValue>,
}

impl View for ExifTags {
    type V = TagsModel;

    open spec fn view(&self) -> TagsModel {
        TagsModel {
            image_description: field_model(self.image_description),
            user_comment: field_model(self.user_comment),
            gps_latitude: field_model(self.gps_latitude),
            gps_latitude_ref: field_model(self.gps_latitude_ref),
            gps_longitude: field_model(self.gps_longitude),
            gps_longitude_ref: field_model(self.gps_longitude_ref),
            date_time_original: field_model(self.date_time_original),
            offset_time_original: field_model(self.offset_time_original),
            make: field_model(self.make),
            model: field_model(self.model),
            lens_make: field_model(self.lens_make),
            lens_model: field_model(self.lens_model),
            photographic_sensitivity: field_model(self.photographic_sensitivity),
            f_number: field_model(self.f_number),
            focal_length: field_model(self.focal_length),
            exposure_time: field_model(self.exposure_time),
        }
    }
}

#[verifier::external_type_specification]
#[verifier::external_body]
pub struct ExExif(exif::Exif);

#[verifier::external_type_specification]
#[verifier::external_body]
pub struct ExExifError(exif::Error);

/// The fields of the primary image held by parsed Exif data, by tag.
pub uninterp spec fn exif_fields(parsed: exif::Exif) -> Map<TagKey, FieldModel>;

/// The fields of the primary image of the Exif data in an image file, or
/// `None` where the file holds no Exif data that can be read.
pub uninterp spec fn container_fields(image: Seq<u8>) -> Option<Map<TagKey, FieldModel>>;

/// The field of `fields` under `tag`, if there is one.
pub open spec fn field_at(fields: Map<TagKey, FieldModel>, tag: TagName) -> Option<FieldModel> {
    if fields.dom().contains(tag.key()) {
        Some(fields[tag.key()])
    } else {
        None
    }
}

/// The tags that the metadata rules read, picked from all fields.
pub open spec fn tags_of(fields: Map<TagKey, FieldModel>) -> TagsModel {
    TagsModel {
        image_description: field_at(fields, TagName::ImageDescription),
        user_comment: field_at(fields, TagName::UserComment),
        gps_latitude: field_at(fields, TagName::GPSLatitude),
        gps_latitude_ref: field_at(fields, TagName::GPSLatitudeRef),
        gps_longitude: field_at(fields, TagName::GPSLongitude),
        gps_longitude_ref: field_at(fields, TagName::GPSLongitudeRef),
        date_time_original: field_at(fields, TagName::DateTimeOriginal),
        offset_time_original: field_at(fields, TagName::OffsetTimeOriginal),
        make: field_at(fields, TagName::Make),
        model: field_at(fields, TagName::Model),
        lens_make: field_at(fields, TagName::LensMake),
        lens_model: field_at(fields, TagName::LensModel),
        photographic_sensitivity: field_at(fields, TagName::PhotographicSensitivity),
        f_number: field_at(fields, TagName::FNumber),
        focal_length: field_at(fields, TagName::FocalLength),
        exposure_time: field_at(fields, TagName::ExposureTime),
    }
}

/// kamadak-exif's `Reader::read_from_container`: parses the Exif data of an
/// image held in memory. Which fields come out is taken on trust as
/// `container_fields`; they are those of the value returned.
#[verifier::external_body]
pub(crate) fn read_container(image: &[u8]) -> (r: Result<exif::Exif, exif::Error>)
    ensures
        r.is_ok() == container_fields(image@).is_some(),
        r matches Ok(parsed) ==> container_fields(image@) == Some(exif_fields(parsed)),
{
    exif::Reader::new().read_from_container(&mut std::io::Cursor::new(image))
}

/// kamadak-exif's `Exif::get_field` on the primary image: the value of the
/// field under the tag, if the data holds one, copied into plain values.
#[verifier::external_body]
pub(crate) fn field_value(parsed: &exif::Exif, context: TagContext, number: u16) -> (r: Option<
    TagValue,
>)
    ensures
        field_model(r) == (if exif_fields(*parsed).dom().contains(TagKey { context, number }) {
            Some(exif_fields(*parsed)[TagKey { context, number }])
        } else {
            None
        }),
{
    let ctx = match context {
        TagContext::Tiff => exif::Context::Tiff,
        TagContext::Exif => exif::Context::Exif,
        TagContext::Gps => exif::Context::Gps,
        TagContext::Interop => exif::Context::Interop,
    };
    Some(match &parsed.get_field(exif::Tag(ctx, number), exif::In::PRIMARY)?.value {
        exif::Value::Ascii(v) => TagValue::Ascii(v.clone()),
        exif::Value::Short(v) => TagValue::Short(v.clone()),
        exif::Value::Rational(v) => TagValue::Rational(
            v.iter().map(|r| Rational { num: r.num, denom: r.denom }).collect()),
        exif::Value::Undefined(v, _) => TagValue::Undefined(v.clone()),
        _ => TagValue::Other,
    })
}

impl ExifTags {
    /// The set with every field absent.
    pub fn empty() -> (t: ExifTags)
        ensures
            t@ == tags_of(Map::empty()),
    {
        ExifTags {
            image_description: None,
            user_comment: None,
            gps_latitude: None,
            gps_latitude_ref: None,
            gps_longitude: None,
            gps_longitude_ref: None,
            date_time_original: None,
            offset_time_original: None,
            make: None,
            model: None,
            lens_make: None,
            lens_model: None,
            photographic_sensitivity: None,
            f_number: None,
            focal_length: None,
            exposure_time: None,
        }
    }

    /// Fetches one tag of the primary image.
    fn fetch(parsed: &exif::Exif, tag: TagName) -> (r: Option<TagValue>)
        ensures
            field_model(r) == field_at(exif_fields(*parsed), tag),
    {
        let key = tag.exif_key();
        field_value(parsed, key.context, key.number)
    }

    /// Copies out of parsed Exif data the fields that the metadata rules
    /// read.
    pub(crate) fn read(parsed: &exif::Exif) -> (t: ExifTags)
        ensures
            t@ == tags_of(exif_fields(*parsed)),
    {
        ExifTags {
            image_description: Self::fetch(parsed, TagName::ImageDescription),
            user_comment: Self::fetch(parsed, TagName::UserComment),
            gps_latitude: Self::fetch(parsed, TagName::GPSLatitude),
            gps_latitude_ref: Self::fetch(parsed, TagName::GPSLatitudeRef),
            gps_longitude: Self::fetch(parsed, TagName::GPSLongitude),
            gps_longitude_ref: Self::fetch(parsed, TagName::GPSLongitudeRef),
            date_time_original: Self::fetch(parsed, TagName::DateTimeOriginal),
            offset_time_original: Self::fetch(parsed, TagName::OffsetTimeOriginal),
            make: Self::fetch(parsed, TagName::Make),
            model: Self::fetch(parsed, TagName::Model),
            lens_make: Self::fetch(parsed, TagName::LensMake),
            lens_model: Self::fetch(parsed, TagName::LensModel),
            photographic_sensitivity: Self::fetch(parsed, TagName::PhotographicSensitivity),
            f_number: Self::fetch(parsed, TagName::FNumber),
            focal_length: Self::fetch(parsed, TagName::FocalLength),
            exposure_time: Self::fetch(parsed, TagName::ExposureTime),
        }
    }

    /// Reads from an image file the fields that the metadata rules read;
    /// `None` where the file holds no Exif data that can be read.
    pub fn from_image(image: &[u8]) -> (r: Option<ExifTags>)
        ensures
            match container_fields(image@) {
                Some(fields) => r matches Some(t) && t@ == tags_of(fields),
                None => r is None,
            },
    {
        match read_container(image) {
            Ok(parsed) => Some(Self::read(&parsed)),
            Err(_) => None,
        }
    }
}

} // verus!
