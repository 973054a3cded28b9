//! The EXIF metadata embedded in an image: capture date, orientation, GPS
//! position, camera make and model, caption. Every field is optional and a
//! missing or malformed block yields an empty record rather than an error.
use vstd::prelude::*;
use vstd::utf8::{valid_utf8, decode_utf8};
use exif::{Context as Cx, Reader, Value as V};
use std::io::Cursor;
use self::TagContext::{Exif, Gps, OtherGroup, Tiff};
use self::TagValue::{Ascii, Long, Rational, Short, Unread};
use crate::datetime::{Date, DateTime, exif_date_of, exif_datetime_of, at_time, is_sentinel};
use crate::image::decoded_rgba_of;
use crate::identity::image_extension_of;
use crate::models::IngestError;

verus! {

/// The group of tags that a tag number belongs to.
#[derive(Clone, Copy, Debug, PartialEq, Eq, Structural)]
pub enum TagContext {
    Tiff,
    Exif,
    Gps,
    /// Any other group, such as interoperability tags.
    OtherGroup,
}

/// The value of an EXIF field, in the types this library reads.
#[derive(Clone, Debug)]
pub enum TagValue {
    Ascii(Vec<Vec<u8>>),
    Short(Vec<u16>),
    Long(Vec<u32>),
    /// Unsigned rationals as (numerator, denominator).
    Rational(Vec<(u32, u32)>),
    /// A type this library does not read.
    Unread,
}

/// One field of an EXIF block: its tag, the image directory it belongs to
/// (0 for the primary image) and its value.
#[derive(Clone, Debug)]
pub struct RawField {
    pub context: TagContext,
    pub number: u16,
    pub ifd: u16,
    pub value: TagValue,
}

/// The fields of the EXIF block found in an image container, in the order
/// the block lists them, or `None` when no block could be read.
pub uninterp spec fn exif_fields_of(b: Seq<u8>) -> Option<Seq<RawField>>;

/// Relies on exif::Reader::read_from_container: locates and parses the EXIF
/// block of a TIFF, JPEG, HEIF, PNG or WebP container; each field is copied
/// into this library's types.
#[verifier::external_body]
fn read_exif_fields(bytes: &[u8]) -> (r: Option<Vec<RawField>>)
    ensures
        match r {
            Some(v) => exif_fields_of(bytes@) == Some(v@),
            None => exif_fields_of(bytes@) is None,
        },
{
    Reader {}.read_from_container(&mut Cursor::new(bytes)).ok().map(|ex| ex.fields().map(|f| RawField {
        context: match f.tag.0 { Cx::Tiff => Tiff, Cx::Exif => Exif, Cx::Gps => Gps, _ => OtherGroup },
        number: f.tag.1,
        ifd: f.ifd_num.0,
        value: match &f.value {
            V::Ascii(v) => Ascii(v.clone()),
            V::Short(v) => Short(v.clone()),
            V::Long(v) => Long(v.clone()),
            V::Rational(v) => Rational(v.iter().map(|q| (q.num, q.denom)).collect()),
            _ => Unread,
        },
    }).collect())
}

/// Relies on std::str::from_utf8, which accepts exactly the valid UTF-8 sequences.
#[verifier::external_body]
fn utf8_text(b: &[u8]) -> (r: Option<String>)
    ensures
        r is Some <==> valid_utf8(b@),
        r matches Some(s) ==> s@ == decode_utf8(b@),
{
    std::str::from_utf8(b).ok().map(|s| s.to_string())
}

/// The last field of the primary image with the given tag; a later field
/// replaces an earlier one with the same tag.
pub open spec fn lookup(fs: Seq<RawField>, ctx: TagContext, number: u16) -> Option<RawField>
    decreases fs.len(),
{
    if fs.len() == 0 {
        None
    } else if fs.last().ifd == 0 && fs.last().context == ctx && fs.last().number == number {
        Some(fs.last())
    } else {
        lookup(fs.drop_last(), ctx, number)
    }
}

/// Finds the field of the primary image with the given tag.
pub fn find_field(fields: &Vec<RawField>, ctx: TagContext, number: u16) -> (r: Option<&RawField>)
    ensures
        match r {
            Some(f) => lookup(fields@, ctx, number) == Some(*f),
            None => lookup(fields@, ctx, number) is None,
        },
{
    let mut i: usize = fields.len();
    assert(fields@.subrange(0, i as int) =~= fields@);
    while i > 0
        invariant
            i <= fields@.len(),
            lookup(fields@, ctx, number) == lookup(fields@.subrange(0, i as int), ctx, number),
        decreases i,
    {
        let f = &fields[i - 1];
        let ghost pre = fields@.subrange(0, i as int);
        assert(pre.last() == *f);
        assert(pre.drop_last() =~= fields@.subrange(0, i - 1));
        if f.ifd == 0 && f.context == ctx && f.number == number {
            return Some(f);
        }
        i = i - 1;
    }
    None
}

/// The bytes of a value holding a single ASCII string; empty strings after
/// the first are tolerated.
pub open spec fn single_ascii_of(v: TagValue) -> Option<Seq<u8>> {
    match v {
        TagValue::Ascii(a) => if a@.len() >= 1 && (forall|i: int| 1 <= i < a@.len() ==> #[trigger] a@[i]@.len() == 0) {
            Some(a@[0]@)
        } else {
            None
        },
        _ => None,
    }
}

/// The text of a value holding a single UTF-8 string.
pub open spec fn text_value(v: TagValue) -> Option<Seq<char>> {
    match single_ascii_of(v) {
        Some(b) => if valid_utf8(b) {
            Some(decode_utf8(b))
        } else {
            None
        },
        None => None,
    }
}

/// The single unsigned integer a value holds.
pub open spec fn uint_value(v: TagValue) -> Option<u32> {
    match v {
        TagValue::Long(x) => if x@.len() == 1 {
            Some(x@[0])
        } else {
            None
        },
        TagValue::Short(x) => if x@.len() == 1 {
            Some(x@[0] as u32)
        } else {
            None
        },
        _ => None,
    }
}

/// A rational rounded to the nearest whole number (halves away from zero)
/// and held in a byte: larger values saturate at 255, and 0/0 counts as 0.
pub open spec fn rounded_byte(q: (u32, u32)) -> u8 {
    if q.1 == 0 {
        if q.0 == 0 { 0 } else { 255 }
    } else {
        let r = (2 * q.0 + q.1) / (2 * q.1 as int);
        if r > 255 { 255 } else { r as u8 }
    }
}

/// A time of day written as three rationals; hours and minutes must be whole
/// and are kept modulo 256, fractional seconds are rounded.
pub open spec fn time_value(v: TagValue) -> Option<(u8, u8, u8)> {
    match v {
        TagValue::Rational(x) => if x@.len() == 3 && x@[0].1 == 1 && x@[1].1 == 1 {
            Some(((x@[0].0 % 256) as u8, (x@[1].0 % 256) as u8, rounded_byte(x@[2])))
        } else {
            None
        },
        _ => None,
    }
}

/// Degrees, minutes and seconds combined as `deg + (min + sec / 60) / 60`,
/// in millionths of a degree, rounded down. A zero denominator makes the
/// value malformed.
pub open spec fn dms_micro(x: Seq<(u32, u32)>) -> Option<int> {
    if x.len() == 3 && x[0].1 != 0 && x[1].1 != 0 && x[2].1 != 0 {
        let (dn, dd, mn, md, sn, sd) = (x[0].0 as int, x[0].1 as int, x[1].0 as int, x[1].1 as int, x[2].0 as int, x[2].1 as int);
        let num = 1_000_000 * (3600 * dn * md * sd + 60 * mn * dd * sd + sn * dd * md);
        Some(num / (3600 * dd * md * sd))
    } else {
        None
    }
}

/// A latitude or longitude magnitude written as three rationals.
pub open spec fn coordinate_value(v: TagValue) -> Option<int> {
    match v {
        TagValue::Rational(x) => dms_micro(x@),
        _ => None,
    }
}

/// The value of the primary image's field with the given tag.
pub open spec fn field_value(fs: Seq<RawField>, ctx: TagContext, number: u16) -> Option<TagValue> {
    match lookup(fs, ctx, number) {
        Some(f) => Some(f.value),
        None => None,
    }
}

/// A timestamp held as text in the EXIF layout.
pub open spec fn datetime_value(v: TagValue) -> Option<DateTime> {
    match text_value(v) {
        Some(t) => exif_datetime_of(t),
        None => None,
    }
}

/// A date held as text in the EXIF layout.
pub open spec fn date_value(v: TagValue) -> Option<Date> {
    match text_value(v) {
        Some(t) => exif_date_of(t),
        None => None,
    }
}

/// The bytes of a value that holds a single ASCII string.
pub fn single_ascii(v: &TagValue) -> (r: Option<&Vec<u8>>)
    ensures
        match r {
            Some(b) => single_ascii_of(*v) == Some(b@),
            None => single_ascii_of(*v) is None,
        },
{
    match v {
        TagValue::Ascii(a) => {
            if a.len() == 0 {
                return None;
            }
            let mut i: usize = 1;
            while i < a.len()
                invariant
                    *v == TagValue::Ascii(*a),
                    1 <= i <= a@.len(),
                    forall|j: int| 1 <= j < i ==> #[trigger] a@[j]@.len() == 0,
                decreases a@.len() - i,
            {
                if a[i].len() != 0 {
                    assert(a@[i as int]@.len() != 0);
                    assert(!(forall|j: int| 1 <= j < a@.len() ==> #[trigger] a@[j]@.len() == 0));

                    return None;
                }
                i = i + 1;
            }
            Some(&a[0])
        },
        _ => None,
    }
}

/// Reads a value that holds a single UTF-8 string.
pub fn read_text(v: &TagValue) -> (r: Option<String>)
    ensures
        match r {
            Some(t) => text_value(*v) == Some(t@),
            None => text_value(*v) is None,
        },
{
    match single_ascii(v) {
        Some(b) => utf8_text(b.as_slice()),
        None => None,
    }
}

/// Reads a value that holds a single unsigned integer.
pub fn read_uint(v: &TagValue) -> (r: Option<u32>)
    ensures
        r == uint_value(*v),
{
    match v {
        TagValue::Long(x) => if x.len() == 1 {
            Some(x[0])
        } else {
            None
        },
        TagValue::Short(x) => if x.len() == 1 {
            Some(x[0] as u32)
        } else {
            None
        },
        _ => None,
    }
}

fn round_to_byte(q: (u32, u32)) -> (r: u8)
    ensures
        r == rounded_byte(q),
{
    if q.1 == 0 {
        if q.0 == 0 { 0 } else { 255 }
    } else {
        let r: u64 = (2 * (q.0 as u64) + q.1 as u64) / (2 * (q.1 as u64));
        if r > 255 { 255 } else { r as u8 }
    }
}

/// Reads a time of day written as three rationals.
pub fn read_time(v: &TagValue) -> (r: Option<(u8, u8, u8)>)
    ensures
        r == time_value(*v),
{
    match v {
        TagValue::Rational(x) => if x.len() == 3 && x[0].1 == 1 && x[1].1 == 1 {
            Some(((x[0].0 % 256) as u8, (x[1].0 % 256) as u8, round_to_byte(x[2])))
        } else {
            None
        },
        _ => None,
    }
}

proof fn lemma_triple_product(a: u32, b: u32, c: u32)
    ensures
        (a as int) * (b as int) * (c as int) <= 0xffff_ffff * 0xffff_ffff * 0xffff_ffffint,
{
    let (x, y, z) = (a as int, b as int, c as int);
    assert(0 <= x <= 0xffff_ffff && 0 <= y <= 0xffff_ffff && 0 <= z <= 0xffff_ffff);
    assert(x * y <= 0xffff_ffff * 0xffff_ffffint) by (nonlinear_arith)
        requires 0 <= x <= 0xffff_ffff, 0 <= y <= 0xffff_ffff;
    assert(x * y * z <= 0xffff_ffff * 0xffff_ffffint * 0xffff_ffff) by (nonlinear_arith)
        requires 0 <= x * y <= 0xffff_ffff * 0xffff_ffffint, 0 <= z <= 0xffff_ffff;
}

proof fn lemma_dms_bound(dn: int, dd: int, mn: int, md: int, sn: int, sd: int)
    requires
        0 <= dn, 0 <= mn, 0 <= sn, 1 <= dd, 1 <= md, 1 <= sd,
    ensures
        (1_000_000 * (3600 * dn * md * sd + 60 * mn * dd * sd + sn * dd * md)) / (3600 * dd * md * sd)
            <= 1_000_000 * (dn + mn + sn),
{
    let den = 3600 * dd * md * sd;
    assert(3600 * dn * md * sd <= dn * den) by (nonlinear_arith)
        requires 0 <= dn, 1 <= dd, 1 <= md, 1 <= sd, den == 3600 * dd * md * sd;
    assert(60 * mn * dd * sd <= mn * den) by (nonlinear_arith)
        requires 0 <= mn, 1 <= dd, 1 <= md, 1 <= sd, den == 3600 * dd * md * sd;
    assert(sn * dd * md <= sn * den) by (nonlinear_arith)
        requires 0 <= sn, 1 <= dd, 1 <= md, 1 <= sd, den == 3600 * dd * md * sd;
    let num = 1_000_000 * (3600 * dn * md * sd + 60 * mn * dd * sd + sn * dd * md);
    let k = 1_000_000 * (dn + mn + sn);
    assert(num <= k * den) by (nonlinear_arith)
        requires
            3600 * dn * md * sd <= dn * den,
            60 * mn * dd * sd <= mn * den,
            sn * dd * md <= sn * den,
            num == 1_000_000 * (3600 * dn * md * sd + 60 * mn * dd * sd + sn * dd * md),
            k == 1_000_000 * (dn + mn + sn);
    assert(den >= 1) by (nonlinear_arith)
        requires 1 <= dd, 1 <= md, 1 <= sd, den == 3600 * dd * md * sd;
    assert(num / den <= k) by (nonlinear_arith)
        requires num <= k * den, den >= 1, 0 <= num;
}

fn mul3(x: u32, y: u32, z: u32) -> (r: u128)
    ensures
        r == (x as int) * (y as int) * (z as int),
        r <= 0xffff_ffff * 0xffff_ffff * 0xffff_ffffint,
{
    proof {
        lemma_triple_product(x, y, z);
        assert((x as int) * (y as int) <= 0xffff_ffff * 0xffff_ffffint) by (nonlinear_arith)
            requires x <= 0xffff_ffff, y <= 0xffff_ffff;
    }
    let xy = (x as u128) * (y as u128);
    xy * (z as u128)
}

/// Reads a latitude or longitude magnitude in millionths of a degree.
pub fn read_coordinate(v: &TagValue) -> (r: Option<u64>)
    ensures
        match r {
            Some(c) => coordinate_value(*v) == Some(c as int),
            None => coordinate_value(*v) is None,
        },
{
    match v {
        TagValue::Rational(x) => {
            if x.len() != 3 || x[0].1 == 0 || x[1].1 == 0 || x[2].1 == 0 {
                return None;
            }
            let (dn, dd, mn, md, sn, sd) = (x[0].0, x[0].1, x[1].0, x[1].1, x[2].0, x[2].1);
            let a = mul3(dn, md, sd);
            let b = mul3(mn, dd, sd);
            let c = mul3(sn, dd, md);
            let d = mul3(dd, md, sd);
            proof {
                lemma_dms_bound(dn as int, dd as int, mn as int, md as int, sn as int, sd as int);
                assert(d >= 1) by (nonlinear_arith)
                    requires d == dd as int * md as int * sd as int, dd >= 1, md >= 1, sd >= 1;
            }
            let num = 1_000_000 * (3600 * a + 60 * b + c);
            let den = 3600 * d;
            let q = num / den;
            proof {
                assert(num as int == 1_000_000 * (3600 * (dn as int) * (md as int) * (sd as int)
                    + 60 * (mn as int) * (dd as int) * (sd as int) + (sn as int) * (dd as int) * (md as int))) by (nonlinear_arith)
                    requires
                        num == 1_000_000 * (3600 * a + 60 * b + c),
                        a == dn as int * md as int * sd as int,
                        b == mn as int * dd as int * sd as int,
                        c == sn as int * dd as int * md as int;
                assert(den as int == 3600 * (dd as int) * (md as int) * (sd as int)) by (nonlinear_arith)
                    requires den == 3600 * d, d == dd as int * md as int * sd as int;
            }
            Some(q as u64)
        },
        _ => None,
    }
}

/// Reads a timestamp held as text in the EXIF layout.
pub fn read_datetime_value(v: &TagValue) -> (r: Option<DateTime>)
    ensures
        r == datetime_value(*v),
{
    match read_text(v) {
        Some(t) => crate::datetime::read_exif_datetime(t.as_str()),
        None => None,
    }
}

/// Reads a date held as text in the EXIF layout.
pub fn read_date_value(v: &TagValue) -> (r: Option<Date>)
    ensures
        r == date_value(*v),
{
    match read_text(v) {
        Some(t) => crate::datetime::read_exif_date(t.as_str()),
        None => None,
    }
}

/// The fields of the EXIF block of an image file, none when it has no
/// readable block.
pub open spec fn fields_or_empty(b: Seq<u8>) -> Seq<RawField> {
    match exif_fields_of(b) {
        Some(fs) => fs,
        None => Seq::empty(),
    }
}

/// Reads the fields of the EXIF block of an image file.
pub fn read_fields_or_empty(bytes: &[u8]) -> (r: Vec<RawField>)
    ensures
        r@ == fields_or_empty(bytes@),
{
    match read_exif_fields(bytes) {
        Some(v) => v,
        None => Vec::new(),
    }
}

/// The text of an optional string.
pub open spec fn opt_text(o: Option<String>) -> Option<Seq<char>> {
    match o {
        Some(s) => Some(s@),
        None => None,
    }
}

/// The tags this library reads, as (group, number).
pub open spec fn tag_make() -> (TagContext, u16) { (TagContext::Tiff, 0x10f) }
pub open spec fn tag_model() -> (TagContext, u16) { (TagContext::Tiff, 0x110) }
pub open spec fn tag_caption() -> (TagContext, u16) { (TagContext::Tiff, 0x10e) }
pub open spec fn tag_orientation() -> (TagContext, u16) { (TagContext::Tiff, 0x112) }
pub open spec fn tag_modified() -> (TagContext, u16) { (TagContext::Tiff, 0x132) }
pub open spec fn tag_original() -> (TagContext, u16) { (TagContext::Exif, 0x9003) }
pub open spec fn tag_digitized() -> (TagContext, u16) { (TagContext::Exif, 0x9004) }
pub open spec fn tag_lat_ref() -> (TagContext, u16) { (TagContext::Gps, 0x1) }
pub open spec fn tag_lat() -> (TagContext, u16) { (TagContext::Gps, 0x2) }
pub open spec fn tag_lon_ref() -> (TagContext, u16) { (TagContext::Gps, 0x3) }
pub open spec fn tag_lon() -> (TagContext, u16) { (TagContext::Gps, 0x4) }
pub open spec fn tag_gps_time() -> (TagContext, u16) { (TagContext::Gps, 0x7) }
pub open spec fn tag_gps_date() -> (TagContext, u16) { (TagContext::Gps, 0x1d) }

/// The value of the primary field with tag `t`.
pub open spec fn tag_value(fs: Seq<RawField>, t: (TagContext, u16)) -> Option<TagValue> {
    field_value(fs, t.0, t.1)
}

pub open spec fn field_text(fs: Seq<RawField>, t: (TagContext, u16)) -> Option<Seq<char>> {
    match tag_value(fs, t) { Some(v) => text_value(v), None => None }
}

pub open spec fn field_uint(fs: Seq<RawField>, t: (TagContext, u16)) -> Option<u32> {
    match tag_value(fs, t) { Some(v) => uint_value(v), None => None }
}

pub open spec fn field_datetime(fs: Seq<RawField>, t: (TagContext, u16)) -> Option<DateTime> {
    match tag_value(fs, t) { Some(v) => datetime_value(v), None => None }
}

pub open spec fn field_date(fs: Seq<RawField>, t: (TagContext, u16)) -> Option<Date> {
    match tag_value(fs, t) { Some(v) => date_value(v), None => None }
}

pub open spec fn field_time(fs: Seq<RawField>, t: (TagContext, u16)) -> Option<(u8, u8, u8)> {
    match tag_value(fs, t) { Some(v) => time_value(v), None => None }
}

pub open spec fn field_coordinate(fs: Seq<RawField>, t: (TagContext, u16)) -> Option<int> {
    match tag_value(fs, t) { Some(v) => coordinate_value(v), None => None }
}

/// The embedded timestamp: the original-capture field, else the
/// last-modified field, else the digitized field; a field that does not
/// read as a timestamp counts as absent.
pub open spec fn primary_datetime(fs: Seq<RawField>) -> Option<DateTime> {
    if field_datetime(fs, tag_original()) is Some {
        field_datetime(fs, tag_original())
    } else if field_datetime(fs, tag_modified()) is Some {
        field_datetime(fs, tag_modified())
    } else {
        field_datetime(fs, tag_digitized())
    }
}

pub open spec fn opt_signed(o: Option<i128>) -> Option<int> {
    match o {
        Some(c) => Some(c as int),
        None => None,
    }
}

pub open spec fn opt_coordinate(o: Option<u64>) -> Option<int> {
    match o {
        Some(c) => Some(c as int),
        None => None,
    }
}

/// The metadata read from one image.
#[derive(Clone, Debug)]
pub struct ExifData {
    pub dateval: Option<DateTime>,
    pub gpsdate: Option<Date>,
    pub gpstime: Option<(u8, u8, u8)>,
    pub make: Option<String>,
    pub model: Option<String>,
    pub caption: Option<String>,
    pub width: u32,
    pub height: u32,
    pub orientation: Option<u32>,
    /// Unsigned latitude and longitude, in millionths of a degree.
    pub latval: Option<u64>,
    pub longval: Option<u64>,
    pub latref: Option<String>,
    pub longref: Option<String>,
}

/// The result of a latitude or longitude reference: `pos` keeps the
/// magnitude, `neg` negates it, no reference keeps it, and any other
/// reference keeps the unsigned magnitude (and is reported apart).
pub open spec fn signed_coordinate(mag: Option<int>, r: Option<Seq<char>>, neg: char) -> Option<int> {
    match (mag, r) {
        (Some(m), Some(t)) => if t == seq![neg] { Some(-m) } else { Some(m) },
        _ => mag,
    }
}

/// A reference other than the two hemisphere letters.
pub open spec fn bad_reference(r: Option<Seq<char>>, pos: char, neg: char) -> bool {
    match r {
        Some(t) => t != seq![pos] && t != seq![neg],
        None => false,
    }
}

/// The rotation, in degrees clockwise, that an EXIF orientation code asks
/// for; an unknown code is an error that carries it.
pub open spec fn rotation_of(o: Option<u32>) -> Result<i16, u32> {
    match o {
        None => Ok(0),
        Some(c) => if c == 1 {
            Ok(0)
        } else if c == 3 {
            Ok(180)
        } else if c == 6 {
            Ok(90)
        } else if c == 8 {
            Ok(270)
        } else {
            Err(c)
        },
    }
}

/// The capture date: the embedded timestamp, else the GPS date at the GPS
/// time of day; a sentinel default is no date.
pub open spec fn resolved_date(e: ExifData) -> Option<DateTime> {
    capture_date(e.dateval, e.gpsdate, e.gpstime)
}

/// The capture date from the embedded timestamp, else from the GPS date and
/// time of day; a sentinel default is no date.
pub open spec fn capture_date(dateval: Option<DateTime>, gpsdate: Option<Date>, gpstime: Option<(u8, u8, u8)>) -> Option<DateTime> {
    let d = if dateval is Some {
        dateval
    } else {
        match (gpsdate, gpstime) {
            (Some(g), Some(t)) => at_time(g, t.0 as u32, t.1 as u32, t.2 as u32),
            _ => None,
        }
    };
    match d {
        Some(x) => if is_sentinel(x) { None } else { Some(x) },
        None => None,
    }
}

/// A capture date is never one of the two sentinel defaults: an embedded
/// timestamp equal to either of them gives no date at all.
pub proof fn sentinel_dates_are_dropped(dateval: Option<DateTime>, gpsdate: Option<Date>, gpstime: Option<(u8, u8, u8)>)
    ensures
        capture_date(dateval, gpsdate, gpstime) matches Some(d) ==> !is_sentinel(d),
        dateval matches Some(d) && is_sentinel(d) ==> capture_date(dateval, gpsdate, gpstime) is None,
{
}

fn text_field(fields: &Vec<RawField>, ctx: TagContext, number: u16) -> (r: Option<String>)
    ensures
        opt_text(r) == field_text(fields@, (ctx, number)),
{
    match find_field(fields, ctx, number) {
        Some(f) => read_text(&f.value),
        None => None,
    }
}

fn datetime_field(fields: &Vec<RawField>, ctx: TagContext, number: u16) -> (r: Option<DateTime>)
    ensures
        r == field_datetime(fields@, (ctx, number)),
{
    match find_field(fields, ctx, number) {
        Some(f) => read_datetime_value(&f.value),
        None => None,
    }
}

fn coordinate_field(fields: &Vec<RawField>, ctx: TagContext, number: u16) -> (r: Option<u64>)
    ensures
        opt_coordinate(r) == field_coordinate(fields@, (ctx, number)),
{
    match find_field(fields, ctx, number) {
        Some(f) => read_coordinate(&f.value),
        None => None,
    }
}

/// Whether a reference is exactly the one letter `c`.
fn is_letter(t: &String, c: char) -> (r: bool)
    ensures
        r == (t@ == seq![c]),
{
    let s = t.as_str();
    if s.unicode_len() == 1 {
        let first = s.get_char(0);
        assert(first == c ==> s@ =~= seq![c]);
        first == c
    } else {
        false
    }
}

fn apply_reference(mag: Option<u64>, r: &Option<String>, neg: char) -> (out: Option<i128>)
    ensures
        opt_signed(out) == signed_coordinate(opt_coordinate(mag), opt_text(*r), neg),
{
    match (mag, r) {
        (Some(m), Some(t)) => if is_letter(t, neg) { Some(-(m as i128)) } else { Some(m as i128) },
        (Some(m), None) => Some(m as i128),
        (None, _) => None,
    }
}

impl ExifData {
    /// Every metadata field holds what the primary image's fields of `fs` give.
    pub open spec fn read_from_fields(&self, fs: Seq<RawField>) -> bool {
        &&& self.dateval == primary_datetime(fs)
        &&& self.gpsdate == field_date(fs, tag_gps_date())
        &&& self.gpstime == field_time(fs, tag_gps_time())
        &&& opt_text(self.make) == field_text(fs, tag_make())
        &&& opt_text(self.model) == field_text(fs, tag_model())
        &&& opt_text(self.caption) == field_text(fs, tag_caption())
        &&& self.orientation == field_uint(fs, tag_orientation())
        &&& opt_coordinate(self.latval) == field_coordinate(fs, tag_lat())
        &&& opt_coordinate(self.longval) == field_coordinate(fs, tag_lon())
        &&& opt_text(self.latref) == field_text(fs, tag_lat_ref())
        &&& opt_text(self.longref) == field_text(fs, tag_lon_ref())
    }

    /// Reads the metadata of an image file: its decoded dimensions and the
    /// fields of its EXIF block. A file without a readable EXIF block gives a
    /// record without metadata; a file that does not decode is corrupt.
    pub fn read_from(image_slice: &[u8]) -> (r: Result<ExifData, IngestError>)
        ensures
            match r {
                Ok(e) => image_extension_of(image_slice@) is Some
                    && (decoded_rgba_of(image_slice@) matches Some((w, h, p))
                    && e.width == w && e.height == h)
                    && e.read_from_fields(fields_or_empty(image_slice@)),
                Err(e) => decoded_rgba_of(image_slice@) is None && e is CorruptMedia,
            },
    {
        let (w, h) = match crate::image::decode_dimensions(image_slice) {
            Some(d) => d,
            None => return Err(IngestError::CorruptMedia),
        };
        let fields = read_fields_or_empty(image_slice);
        Ok(ExifData::from_fields(&fields, w, h))
    }

    /// Collects the metadata of the primary image from the fields of an EXIF
    /// block, with the decoded pixel dimensions.
    pub fn from_fields(fields: &Vec<RawField>, width: u32, height: u32) -> (r: ExifData)
        ensures
            r.width == width,
            r.height == height,
            r.read_from_fields(fields@),
    {
        let original = datetime_field(fields, TagContext::Exif, 0x9003);
        let dateval = if original.is_some() {
            original
        } else {
            let modified = datetime_field(fields, TagContext::Tiff, 0x132);
            if modified.is_some() {
                modified
            } else {
                datetime_field(fields, TagContext::Exif, 0x9004)
            }
        };
        let gpsdate = match find_field(fields, TagContext::Gps, 0x1d) {
            Some(f) => read_date_value(&f.value),
            None => None,
        };
        let gpstime = match find_field(fields, TagContext::Gps, 0x7) {
            Some(f) => read_time(&f.value),
            None => None,
        };
        let orientation = match find_field(fields, TagContext::Tiff, 0x112) {
            Some(f) => read_uint(&f.value),
            None => None,
        };
        ExifData {
            dateval,
            gpsdate,
            gpstime,
            make: text_field(fields, TagContext::Tiff, 0x10f),
            model: text_field(fields, TagContext::Tiff, 0x110),
            caption: text_field(fields, TagContext::Tiff, 0x10e),
            width,
            height,
            orientation,
            latval: coordinate_field(fields, TagContext::Gps, 0x2),
            longval: coordinate_field(fields, TagContext::Gps, 0x4),
            latref: text_field(fields, TagContext::Gps, 0x1),
            longref: text_field(fields, TagContext::Gps, 0x3),
        }
    }

    /// The capture date, with the two sentinel defaults treated as no date.
    pub fn date(&self) -> (r: Option<DateTime>)
        ensures
            r == resolved_date(*self),
    {
        let d = if self.dateval.is_some() {
            self.dateval
        } else {
            match (self.gpsdate, self.gpstime) {
                (Some(g), Some(t)) => crate::datetime::combine_date_time(g, t.0 as u32, t.1 as u32, t.2 as u32),
                _ => None,
            }
        };
        match d {
            Some(x) => if crate::datetime::is_sentinel_date(&x) { None } else { Some(x) },
            None => None,
        }
    }

    /// The latitude, negative in the southern hemisphere.
    pub fn lat(&self) -> (r: Option<i128>)
        ensures
            opt_signed(r) == signed_coordinate(opt_coordinate(self.latval), opt_text(self.latref), 'S'),
    {
        apply_reference(self.latval, &self.latref, 'S')
    }

    /// The longitude, negative west of the prime meridian.
    pub fn long(&self) -> (r: Option<i128>)
        ensures
            opt_signed(r) == signed_coordinate(opt_coordinate(self.longval), opt_text(self.longref), 'W'),
    {
        apply_reference(self.longval, &self.longref, 'W')
    }

    /// Whether a GPS reference is neither of its two hemisphere letters; the
    /// position is then kept unsigned.
    pub fn gps_reference_invalid(&self) -> (r: bool)
        ensures
            r == (bad_reference(opt_text(self.latref), 'N', 'S')
                || bad_reference(opt_text(self.longref), 'E', 'W')),
    {
        let lat_bad = match &self.latref {
            Some(t) => !is_letter(t, 'N') && !is_letter(t, 'S'),
            None => false,
        };
        let long_bad = match &self.longref {
            Some(t) => !is_letter(t, 'E') && !is_letter(t, 'W'),
            None => false,
        };
        lat_bad || long_bad
    }

    /// Latitude and longitude, when both are known.
    pub fn position(&self) -> (r: Option<(i128, i128)>)
        ensures
            match (signed_coordinate(opt_coordinate(self.latval), opt_text(self.latref), 'S'),
                signed_coordinate(opt_coordinate(self.longval), opt_text(self.longref), 'W')) {
                (Some(a), Some(b)) => r matches Some(p) && p.0 == a && p.1 == b,
                _ => r is None,
            },
    {
        match (self.lat(), self.long()) {
            (Some(a), Some(b)) => Some((a, b)),
            _ => None,
        }
    }

    /// The clockwise rotation that makes the image upright, or the unknown
    /// orientation code.
    pub fn rotation(&self) -> (r: Result<i16, u32>)
        ensures
            r == rotation_of(self.orientation),
    {
        match self.orientation {
            None => Ok(0),
            Some(c) => if c == 1 {
                Ok(0)
            } else if c == 3 {
                Ok(180)
            } else if c == 6 {
                Ok(90)
            } else if c == 8 {
                Ok(270)
            } else {
                Err(c)
            },
        }
    }
}

} // verus!
