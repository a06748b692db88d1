//! Reading the capture date out of a file's embedded Exif metadata.

use vstd::prelude::*;
use crate::router::CaptureDate;

verus! {

#[verifier::external_type_specification]
#[verifier::external_body]
pub struct ExExifError(exif::Error);

/// Whether the bytes of a file hold a metadata container (TIFF, JPEG, PNG,
/// HEIF or WebP) whose Exif block the exif crate can decode.
pub uninterp spec fn container_decodes(bytes: Seq<u8>) -> bool;

/// In a file whose container decodes: the first ASCII string of the
/// DateTimeOriginal field of the primary image, where that field is present
/// and holds ASCII text.
pub uninterp spec fn date_text_of(bytes: Seq<u8>) -> Option<Seq<u8>>;

/// Relies on exif::Reader::read_from_container, reading the container from
/// an in-memory cursor, and on exif::Exif::get_field for the DateTimeOriginal
/// field of the primary image. Both depend on the bytes alone.
#[verifier::external_body]
fn read_date_text(bytes: &[u8]) -> (r: Result<Option<Vec<u8>>, exif::Error>)
    ensures
        r is Ok <==> container_decodes(bytes@),
        r matches Ok(t) ==> text_view(t) == date_text_of(bytes@),
{
    let e = exif::Reader::new().read_from_container(&mut std::io::Cursor::new(bytes))?;
    match e.get_field(exif::Tag::DateTimeOriginal, exif::In::PRIMARY) {
        Some(f) => match &f.value {
            exif::Value::Ascii(v) => Ok(v.first().cloned()),
            _ => Ok(None),
        },
        None => Ok(None),
    }
}

/// An ASCII digit.
pub open spec fn is_digit(b: u8) -> bool {
    48 <= b <= 57
}

/// The number that a run of ASCII digits writes in decimal.
pub open spec fn digits_value(s: Seq<u8>) -> nat
    decreases s.len(),
{
    if s.len() == 0 {
        0
    } else {
        digits_value(s.drop_last()) * 10 + (s.last() - 48) as nat
    }
}

/// Positions 0 to 18 of an Exif date and time `YYYY:MM:DD HH:MM:SS` that hold
/// a delimiter rather than a digit.
pub open spec fn is_delimiter_position(i: int) -> bool {
    i == 4 || i == 7 || i == 10 || i == 13 || i == 16
}

/// The grammar of an Exif date and time: at least 19 bytes, the delimiters
/// ':' ':' ' ' ':' ':' at positions 4, 7, 10, 13 and 16, digits elsewhere
/// among the first 19.
pub open spec fn is_exif_date_time(t: Seq<u8>) -> bool {
    &&& t.len() >= 19
    &&& t[4] == 58u8 && t[7] == 58u8 && t[10] == 32u8 && t[13] == 58u8 && t[16] == 58u8
    &&& forall|i: int| 0 <= i < 19 && !is_delimiter_position(i) ==> is_digit(#[trigger] t[i])
}

/// The year and month that an Exif date and time writes, if it follows the
/// grammar.
pub open spec fn exif_year_month(t: Seq<u8>) -> Option<(u16, u8)> {
    if is_exif_date_time(t) {
        Some((digits_value(t.subrange(0, 4)) as u16, digits_value(t.subrange(5, 7)) as u8))
    } else {
        None
    }
}

/// Relies on exif::DateTime::from_ascii: it succeeds exactly on text of the
/// grammar above, and reads the year from the first four digits and the
/// month from the two after the first ':'.
#[verifier::external_body]
fn parse_date_time(text: &[u8]) -> (r: Option<(u16, u8)>)
    ensures
        r == exif_year_month(text@),
{
    match exif::DateTime::from_ascii(text) {
        Ok(d) => Some((d.year, d.month)),
        Err(_) => None,
    }
}

/// The capture date that the text of a DateTimeOriginal field gives: its
/// year and month, where it follows the grammar and the month is from 1 to
/// 12.
pub open spec fn capture_date_of(text: Option<Seq<u8>>) -> Option<CaptureDate> {
    match text {
        Some(t) => match exif_year_month(t) {
            Some((y, m)) => if 1 <= m <= 12 {
                Some(CaptureDate { year: y, month: m })
            } else {
                None
            },
            None => None,
        },
        None => None,
    }
}

/// The view of an optional byte string.
pub open spec fn text_view(text: Option<Vec<u8>>) -> Option<Seq<u8>> {
    match text {
        Some(t) => Some(t@),
        None => None,
    }
}

/// The capture date that the text of a DateTimeOriginal field gives, if any.
pub fn date_from_field(text: Option<Vec<u8>>) -> (r: Option<CaptureDate>)
    ensures
        r == capture_date_of(text_view(text)),
        r matches Some(d) ==> d.wf(),
{
    match text {
        Some(t) => match parse_date_time(t.as_slice()) {
            Some((y, m)) => CaptureDate::new(y, m),
            None => None,
        },
        None => None,
    }
}

/// The metadata container of a file could not be decoded at all.
#[derive(Clone, Copy, Debug, PartialEq, Eq, Structural)]
pub enum MetadataError {
    Undecodable,
}

/// The capture date of a file whose contents are `bytes`: an error where the
/// container cannot be decoded, else the date that its DateTimeOriginal
/// field gives, or none where the field is missing or malformed.
pub fn read_capture_date(bytes: &[u8]) -> (r: Result<Option<CaptureDate>, MetadataError>)
    ensures
        r is Err <==> !container_decodes(bytes@),
        r matches Ok(date) ==> date == capture_date_of(date_text_of(bytes@)),
        r matches Ok(Some(d)) ==> d.wf(),
{
    match read_date_text(bytes) {
        Ok(text) => Ok(date_from_field(text)),
        Err(_) => Err(MetadataError::Undecodable),
    }
}

} // verus!
