//! Still images: decoding to RGBA, the thumbnail's size, turning it upright
//! and encoding it, and the media record of an image file.
use vstd::prelude::*;
use image::ImageEncoder;
use crate::datetime::{DateTime, datetime_text, is_sentinel, push_datetime_text};
use crate::identity::{content_id, content_id_of, image_extension_of, sniff_image_extension};
use crate::models::{IngestError, Media, Thumbnail};
use crate::metadata::{
    ExifData, fields_or_empty, capture_date, primary_datetime, field_date, field_time,
    field_uint, field_text, field_coordinate, opt_text, opt_signed, rotation_of,
    signed_coordinate, tag_gps_date, tag_gps_time, tag_orientation, tag_make, tag_model,
    tag_caption, tag_lat, tag_lon, tag_lat_ref, tag_lon_ref,
};

verus! {

/// The width, height and RGBA pixels (row by row, four bytes each) that an
/// image file decodes to, or `None` when it does not decode.
pub uninterp spec fn decoded_rgba_of(b: Seq<u8>) -> Option<(u32, u32, Seq<u8>)>;

/// Relies on image::load_from_memory and DynamicImage::into_rgba8: decodes a
/// recognised container into an RGBA buffer of width * height pixels;
/// load_from_memory first sniffs the format with image::guess_format, so
/// only a recognised container decodes.
#[verifier::external_body]
fn decode_rgba(bytes: &[u8]) -> (r: Option<(u32, u32, Vec<u8>)>)
    ensures
        r is Some ==> image_extension_of(bytes@) is Some,
        match r {
            Some((w, h, p)) => decoded_rgba_of(bytes@) == Some((w, h, p@)) && p@.len() == w * h * 4,
            None => decoded_rgba_of(bytes@) is None,
        },
{
    image::load_from_memory(bytes).ok().map(|i| {
        let rgba = i.into_rgba8();
        (rgba.width(), rgba.height(), rgba.into_raw())
    })
}

/// The RGBA pixels of a `w` by `h` image scaled to `tw` by `th`.
pub uninterp spec fn thumbnail_pixels_of(w: u32, h: u32, p: Seq<u8>, tw: u32, th: u32) -> Seq<u8>;

/// Relies on image::ImageBuffer::from_raw, which accepts a buffer of at
/// least width * height pixels, and image::imageops::thumbnail, which
/// returns a new buffer of exactly the requested size.
#[verifier::external_body]
fn scale_rgba(w: u32, h: u32, p: &[u8], tw: u32, th: u32) -> (r: Option<Vec<u8>>)
    requires
        tw as int * th as int * 4 <= usize::MAX,
    ensures
        r matches Some(q) ==> q@ == thumbnail_pixels_of(w, h, p@, tw, th) && q@.len() == tw * th * 4,
        p@.len() == w * h * 4 ==> r is Some,
{
    let src = image::ImageBuffer::<image::Rgba<u8>, Vec<u8>>::from_raw(w, h, p.to_vec())?;
    Some(image::imageops::thumbnail(&src, tw, th).into_raw())
}

/// The JPEG encoding, at the given quality, of `w` by `h` RGBA pixels, or
/// `None` when the encoder refuses them.
pub uninterp spec fn jpeg_of(p: Seq<u8>, w: u32, h: u32, quality: u8) -> Option<Seq<u8>>;

/// Relies on image::codecs::jpeg::JpegEncoder::new_with_quality and
/// ImageEncoder::write_image, which asserts that the buffer holds exactly
/// width * height RGBA pixels.
#[verifier::external_body]
fn encode_jpeg(p: &[u8], w: u32, h: u32, quality: u8) -> (r: Option<Vec<u8>>)
    requires
        p@.len() == w * h * 4,
    ensures
        match r {
            Some(b) => jpeg_of(p@, w, h, quality) == Some(b@),
            None => jpeg_of(p@, w, h, quality) is None,
        },
{
    let mut out: Vec<u8> = vec![];
    image::codecs::jpeg::JpegEncoder::new_with_quality(&mut out, quality)
        .write_image(p, w, h, image::ColorType::Rgba8).ok()?;
    Some(out)
}

/// Decodes an image file and returns its width and height.
pub fn decode_dimensions(bytes: &[u8]) -> (r: Option<(u32, u32)>)
    ensures
        r is Some ==> image_extension_of(bytes@) is Some,
        match r {
            Some((w, h)) => decoded_rgba_of(bytes@) matches Some((dw, dh, p)) && dw == w && dh == h,
            None => decoded_rgba_of(bytes@) is None,
        },
{
    match decode_rgba(bytes) {
        Some((w, h, _)) => Some((w, h)),
        None => None,
    }
}

/// Encodes `w` by `h` RGBA pixels as JPEG.
pub fn encode_jpeg_pixels(p: &[u8], w: u32, h: u32, quality: u8) -> (r: Option<Vec<u8>>)
    requires
        p@.len() == w * h * 4,
    ensures
        match r {
            Some(b) => jpeg_of(p@, w, h, quality) == Some(b@),
            None => jpeg_of(p@, w, h, quality) is None,
        },
{
    encode_jpeg(p, w, h, quality)
}

/// The fixed height of every thumbnail.
pub const THUMBNAIL_HEIGHT: u32 = 256;

/// The widest a thumbnail may be, against extreme aspect ratios.
pub const THUMBNAIL_MAX_WIDTH: u32 = 2048;

/// The JPEG quality of thumbnails.
pub const THUMBNAIL_QUALITY: u8 = 70;

/// The thumbnail width for a `w` by `h` still image: `256 * w / h` rounded
/// down, at most 2048.
pub open spec fn thumbnail_width_of(w: int, h: int) -> int {
    let r = (256 * w) / h;
    if r > 2048 { 2048 } else { r }
}

/// The size of the thumbnail of a `w` by `h` still image: 256 high, its
/// width in proportion, capped.
pub fn thumbnail_size(w: u32, h: u32) -> (r: (u32, u32))
    requires
        h > 0,
    ensures
        r.0 == thumbnail_width_of(w as int, h as int),
        r.1 == THUMBNAIL_HEIGHT,
{
    let r: u64 = (256 * (w as u64)) / (h as u64);
    let tw: u32 = if r > 2048 { 2048 } else { r as u32 };
    (tw, THUMBNAIL_HEIGHT)
}

/// A raster of RGBA pixels, row by row.
#[derive(Clone, Debug)]
pub struct Raster {
    pub width: u32,
    pub height: u32,
    pub pixels: Vec<u8>,
}

impl Raster {
    /// Four bytes for each of width * height pixels.
    pub open spec fn wf(&self) -> bool {
        self.pixels@.len() == self.width * self.height * 4
    }
}

/// Quarter turns clockwise for a rotation in degrees; anything other than a
/// multiple of 90 between -270 and 270 is no turn.
pub open spec fn quarter_turns(rotation: i16) -> int {
    if rotation == 90 || rotation == -270 {
        1
    } else if rotation == 180 || rotation == -180 {
        2
    } else if rotation == 270 || rotation == -90 {
        3
    } else {
        0
    }
}

/// The source pixel shown at (x, y) of an image turned `q` quarter turns
/// clockwise from a `w` by `h` source.
pub open spec fn source_xy(q: int, w: int, h: int, x: int, y: int) -> (int, int) {
    if q == 1 {
        (y, h - 1 - x)
    } else if q == 2 {
        (w - 1 - x, h - 1 - y)
    } else if q == 3 {
        (w - 1 - y, x)
    } else {
        (x, y)
    }
}

/// Width and height after `q` quarter turns.
pub open spec fn turned_size(q: int, w: int, h: int) -> (int, int) {
    if q == 1 || q == 3 { (h, w) } else { (w, h) }
}

/// The byte at position `k` of a `w` by `h` RGBA raster `p` turned `q`
/// quarter turns clockwise.
pub open spec fn turned_byte(p: Seq<u8>, w: int, h: int, q: int, k: int) -> u8 {
    let ow = turned_size(q, w, h).0;
    let i = k / 4;
    let (sx, sy) = source_xy(q, w, h, i % ow, i / ow);
    p[4 * (sy * w + sx) + k % 4]
}

/// A `w` by `h` RGBA raster turned `q` quarter turns clockwise.
pub open spec fn turned_pixels(p: Seq<u8>, w: int, h: int, q: int) -> Seq<u8> {
    Seq::new((4 * w * h) as nat, |k: int| turned_byte(p, w, h, q, k))
}

proof fn lemma_source_in_range(q: int, w: int, h: int, k: int)
    requires
        0 <= q < 4,
        w > 0,
        h > 0,
        0 <= k < 4 * w * h,
    ensures
        ({
            let ow = turned_size(q, w, h).0;
            let i = k / 4;
            let (sx, sy) = source_xy(q, w, h, i % ow, i / ow);
            0 <= sx < w && 0 <= sy < h && 0 <= 4 * (sy * w + sx) + k % 4 < 4 * w * h
        }),
{
    let (ow, oh) = turned_size(q, w, h);
    let i = k / 4;
    assert(ow * oh == w * h) by (nonlinear_arith)
        requires (ow == w && oh == h) || (ow == h && oh == w);
    assert(0 <= i < ow * oh) by (nonlinear_arith)
        requires 0 <= k < 4 * w * h, i == k / 4, ow * oh == w * h;
    assert(0 <= i / ow < oh) by (nonlinear_arith)
        requires 0 <= i < ow * oh, ow > 0;
    assert(0 <= i % ow < ow) by (nonlinear_arith)
        requires ow > 0, i >= 0;
    let (sx, sy) = source_xy(q, w, h, i % ow, i / ow);
    assert(0 <= sx < w && 0 <= sy < h);
    assert(0 <= 4 * (sy * w + sx) + k % 4 < 4 * w * h) by (nonlinear_arith)
        requires 0 <= sx < w, 0 <= sy < h, 0 <= k % 4 < 4;
}

/// Turns a raster `quarter_turns(rotation)` quarter turns clockwise.
pub fn rotate(src: &Raster, rotation: i16) -> (r: Raster)
    requires
        src.wf(),
    ensures
        r.wf(),
        r.width == turned_size(quarter_turns(rotation), src.width as int, src.height as int).0,
        r.height == turned_size(quarter_turns(rotation), src.width as int, src.height as int).1,
        r.pixels@ == turned_pixels(src.pixels@, src.width as int, src.height as int, quarter_turns(rotation)),
{
    let q: u8 = if rotation == 90 || rotation == -270 {
        1
    } else if rotation == 180 || rotation == -180 {
        2
    } else if rotation == 270 || rotation == -90 {
        3
    } else {
        0
    };
    let (w, h) = (src.width as usize, src.height as usize);
    let (ow, oh): (usize, usize) = if q == 1 || q == 3 { (h, w) } else { (w, h) };
    let n = src.pixels.len();
    let ghost spec_out = turned_pixels(src.pixels@, w as int, h as int, q as int);
    if w == 0 || h == 0 {
        assert(n == 0) by (nonlinear_arith)
            requires n == w * h * 4, w == 0 || h == 0;
        assert(spec_out =~= Seq::<u8>::empty()) by {
            assert(4 * w * h == 0) by (nonlinear_arith) requires w == 0 || h == 0;
        }
        assert(ow * oh * 4 == 0) by (nonlinear_arith)
            requires (ow == w && oh == h) || (ow == h && oh == w), w == 0 || h == 0;
        return Raster { width: ow as u32, height: oh as u32, pixels: Vec::new() };
    }
    assert(n == 4 * w * h) by (nonlinear_arith) requires n == w * h * 4;
    let mut out: Vec<u8> = Vec::with_capacity(n);
    let mut k: usize = 0;
    while k < n
        invariant
            n == src.pixels@.len(),
            n == 4 * w * h,
            w == src.width,
            h == src.height,
            w > 0,
            h > 0,
            q < 4,
            ow == turned_size(q as int, w as int, h as int).0,
            oh == turned_size(q as int, w as int, h as int).1,
            spec_out == turned_pixels(src.pixels@, w as int, h as int, q as int),
            k <= n,
            out@ =~= spec_out.subrange(0, k as int),
        decreases n - k,
    {
        proof {
            lemma_source_in_range(q as int, w as int, h as int, k as int);
        }
        let i = k / 4;
        let (x, y) = (i % ow, i / ow);
        let (sx, sy): (usize, usize) = if q == 1 {
            (y, h - 1 - x)
        } else if q == 2 {
            (w - 1 - x, h - 1 - y)
        } else if q == 3 {
            (w - 1 - y, x)
        } else {
            (x, y)
        };
        proof {
            assert(sy * w + sx < w * h) by (nonlinear_arith)
                requires sx < w, sy < h;
        }
        let idx = 4 * (sy * w + sx) + k % 4;
        out.push(src.pixels[idx]);
        k = k + 1;
    }
    assert(spec_out.subrange(0, n as int) =~= spec_out);
    assert(ow * oh * 4 == 4 * w * h) by (nonlinear_arith)
        requires (ow == w && oh == h) || (ow == h && oh == w);
    Raster { width: ow as u32, height: oh as u32, pixels: out }
}

/// The upright thumbnail raster of an image file shown turned by `rotation`
/// degrees: the decoded image scaled to the thumbnail size, then turned.
/// `None` when the file does not decode or is zero pixels high.
pub open spec fn thumbnail_raster_of(b: Seq<u8>, rotation: i16) -> Option<(int, int, Seq<u8>)> {
    match decoded_rgba_of(b) {
        Some((w, h, p)) => if h == 0 {
            None
        } else {
            let tw = thumbnail_width_of(w as int, h as int);
            let q = quarter_turns(rotation);
            let size = turned_size(q, tw, 256);
            Some((size.0, size.1, turned_pixels(thumbnail_pixels_of(w, h, p, tw as u32, 256), tw, 256, q)))
        },
        None => None,
    }
}

/// The encoded thumbnail of an image file shown turned by `rotation` degrees.
pub open spec fn thumbnail_jpeg_of(b: Seq<u8>, rotation: i16) -> Option<Seq<u8>> {
    match thumbnail_raster_of(b, rotation) {
        Some((w, h, p)) => jpeg_of(p, w as u32, h as u32, 70),
        None => None,
    }
}

proof fn lemma_thumbnail_width_range(w: int, h: int)
    requires
        0 <= w,
        h > 0,
    ensures
        0 <= thumbnail_width_of(w, h) <= 2048,
{
    assert((256 * w) / h >= 0) by (nonlinear_arith) requires w >= 0, h > 0;
}

/// An image tagged with orientation code 6 is stored with rotation 90, and
/// its thumbnail is turned a quarter: 256 wide and as high as the unturned
/// thumbnail was wide, so that its long side lies along the short side of
/// the source, as in the source turned by 90 degrees.
pub proof fn orientation_six_turns_thumbnail(w: u32, h: u32)
    requires
        h > 0,
    ensures
        rotation_of(Some(6u32)) == Ok::<i16, u32>(90),
        quarter_turns(90) == 1,
        turned_size(1, thumbnail_width_of(w as int, h as int), 256).0 == 256,
        turned_size(1, thumbnail_width_of(w as int, h as int), 256).1 == thumbnail_width_of(w as int, h as int),
        w >= h ==> thumbnail_width_of(w as int, h as int) >= 256,
        w <= h ==> thumbnail_width_of(w as int, h as int) <= 256,
{
    let (wi, hi) = (w as int, h as int);
    if w >= h {
        assert((256 * wi) / hi >= 256) by (nonlinear_arith)
            requires wi >= hi, hi > 0;
    }
    if w <= h {
        assert((256 * wi) / hi <= 256) by (nonlinear_arith)
            requires wi <= hi, hi > 0;
    }
}

/// Decodes an image file, scales it to the thumbnail size and turns it upright.
pub fn thumbnail_raster(image_bytes: &[u8], rotation: i16) -> (r: Result<Raster, IngestError>)
    ensures
        match r {
            Ok(t) => t.wf() && thumbnail_raster_of(image_bytes@, rotation) == Some(
                (t.width as int, t.height as int, t.pixels@),
            ),
            Err(e) => e is CorruptMedia && thumbnail_raster_of(image_bytes@, rotation) is None,
        },
{
    let (w, h, p) = match decode_rgba(image_bytes) {
        Some(d) => d,
        None => return Err(IngestError::CorruptMedia),
    };
    if h == 0 {
        return Err(IngestError::CorruptMedia);
    }
    let (tw, th) = thumbnail_size(w, h);
    proof {
        lemma_thumbnail_width_range(w as int, h as int);
    }
    let scaled = match scale_rgba(w, h, p.as_slice(), tw, th) {
        Some(q) => q,
        None => return Err(IngestError::CorruptMedia),
    };
    let upright = rotate(&Raster { width: tw, height: th, pixels: scaled }, rotation);
    Ok(upright)
}

/// Creates the JPEG thumbnail of an image file for its media record,
/// turned by the record's rotation so that it shows upright.
pub fn create_thumbnail(media: &Media, image_bytes: &[u8]) -> (r: Result<Thumbnail, IngestError>)
    ensures
        match r {
            Ok(t) => t.id@ == media.id@ && t.mimetype@ == jpeg_mimetype()
                && thumbnail_jpeg_of(image_bytes@, media.rotation) == Some(t.content@),
            Err(e) => e is CorruptMedia && thumbnail_jpeg_of(image_bytes@, media.rotation) is None,
        },
{
    let raster = thumbnail_raster(image_bytes, media.rotation)?;
    let content = match encode_jpeg(raster.pixels.as_slice(), raster.width, raster.height, THUMBNAIL_QUALITY) {
        Some(c) => c,
        None => return Err(IngestError::CorruptMedia),
    };
    Ok(Thumbnail { id: media.id.clone(), content, mimetype: jpeg_mimetype_text() })
}

/// `image/jpeg`.
pub open spec fn jpeg_mimetype() -> Seq<char> {
    seq!['i', 'm', 'a', 'g', 'e', '/', 'j', 'p', 'e', 'g']
}

pub fn jpeg_mimetype_text() -> (r: String)
    ensures
        r@ == jpeg_mimetype(),
{
    proof {
        reveal_strlit("image/jpeg");
    }
    let r = String::from_str("image/jpeg");
    assert(r@ =~= jpeg_mimetype());
    r
}

/// The storage path of a media file: its capture date, a space, its content
/// id, a dot and its extension; only the content id when the date is unknown.
pub open spec fn media_path_of(date: Option<DateTime>, id: Seq<char>, ext: Seq<char>) -> Seq<char> {
    match date {
        Some(d) => datetime_text(d) + seq![' '] + id + seq!['.'] + ext,
        None => id,
    }
}

/// Builds the storage path of a media file.
pub fn media_path(date: &Option<DateTime>, id: &String, ext: &str) -> (r: String)
    ensures
        r@ == media_path_of(*date, id@, ext@),
{
    match date {
        Some(d) => {
            proof {
                reveal_strlit(" ");
                reveal_strlit(".");
            }
            let mut out = String::new();
            push_datetime_text(&mut out, d);
            out.append(" ");
            out.append(id.as_str());
            out.append(".");
            out.append(ext);
            assert(out@ =~= media_path_of(*date, id@, ext@));
            out
        },
        None => id.clone(),
    }
}

/// The rotation that an image file's orientation tag asks for, where known.
pub open spec fn media_rotation_of(b: Seq<u8>) -> i16 {
    match rotation_of(field_uint(fields_or_empty(b), tag_orientation())) {
        Ok(r) => r,
        Err(_) => 0,
    }
}

/// An image file that reading turns into a media record: its container is
/// recognised, it decodes to dimensions a record holds, and its orientation
/// is known.
pub open spec fn reads_as_media(b: Seq<u8>) -> bool {
    &&& image_extension_of(b) is Some
    &&& decoded_rgba_of(b) matches Some((w, h, p)) && w <= i32::MAX && h <= i32::MAX
    &&& rotation_of(field_uint(fields_or_empty(b), tag_orientation())) is Ok
}

/// What reading the media record of an image file gives: the record when
/// the container is recognised, decodes, fits the record's dimensions and
/// has a known orientation; otherwise the first of those failures.
pub open spec fn read_media_outcome(image_bytes: Seq<u8>, story: Seq<char>, r: Result<Media, IngestError>) -> bool {
    &&& decoded_rgba_of(image_bytes) is Some ==> image_extension_of(image_bytes) is Some
    &&& reads_as_media(image_bytes) ==> r is Ok
    &&& match r {
        Ok(m) => image_extension_of(image_bytes) is Some
            && (decoded_rgba_of(image_bytes) matches Some((w, h, p))
            && m.width == w && m.height == h)
            && media_read_from(m, image_bytes, story),
        Err(e) => match e {
            IngestError::UnsupportedFormat(d) => d is None && image_extension_of(image_bytes) is None,
            IngestError::CorruptMedia => image_extension_of(image_bytes) is Some && (
                decoded_rgba_of(image_bytes) matches Some((w, h, p)) ==> (w > i32::MAX || h > i32::MAX)),
            IngestError::UnknownOrientation(c) => image_extension_of(image_bytes) is Some
                && (decoded_rgba_of(image_bytes) matches Some((w, h, p))
                && w <= i32::MAX && h <= i32::MAX)
                && rotation_of(field_uint(fields_or_empty(image_bytes), tag_orientation())) == Err::<i16, u32>(c),
            _ => false,
        },
    }
}

/// An image whose EXIF orientation code is 6 is read, and its record
/// stores rotation 90.
pub proof fn orientation_six_is_stored_as_ninety(b: Seq<u8>, story: Seq<char>, r: Result<Media, IngestError>)
    requires
        read_media_outcome(b, story, r),
        decoded_rgba_of(b) matches Some((w, h, p)) && w <= i32::MAX && h <= i32::MAX,
        field_uint(fields_or_empty(b), tag_orientation()) == Some(6u32),
    ensures
        r matches Ok(m) && m.rotation == 90,
{
}

/// An image whose embedded timestamp is one of the two sentinel defaults is
/// read without a capture date, and is stored under its content id alone.
pub proof fn sentinel_date_is_no_date(b: Seq<u8>, story: Seq<char>, r: Result<Media, IngestError>)
    requires
        read_media_outcome(b, story, r),
        decoded_rgba_of(b) matches Some((w, h, p)) && w <= i32::MAX && h <= i32::MAX,
        rotation_of(field_uint(fields_or_empty(b), tag_orientation())) is Ok,
        primary_datetime(fields_or_empty(b)) matches Some(d) && is_sentinel(d),
    ensures
        r matches Ok(m) && m.date is None && m.path@ == m.id@,
{
}

/// Reads the media record of an image file: content id, dimensions, and
/// the metadata of its EXIF block; the storage path follows from the
/// capture date, the content id and the sniffed extension.
pub fn read_media_from(image_bytes: &[u8], story: &str) -> (r: Result<Media, IngestError>)
    ensures
        read_media_outcome(image_bytes@, story@, r),
{
    let exif = match ExifData::read_from(image_bytes) {
        Ok(e) => e,
        Err(_) => {
            return match sniff_image_extension(image_bytes) {
                Some(_) => Err(IngestError::CorruptMedia),
                None => Err(IngestError::UnsupportedFormat(None)),
            };
        },
    };
    let ext = match sniff_image_extension(image_bytes) {
        Some(e) => e,
        None => return Err(IngestError::UnsupportedFormat(None)),
    };
    if exif.width > 0x7fff_ffff || exif.height > 0x7fff_ffff {
        return Err(IngestError::CorruptMedia);
    }
    let rotation = match exif.rotation() {
        Ok(r) => r,
        Err(c) => return Err(IngestError::UnknownOrientation(c)),
    };
    let id = content_id(image_bytes);
    let date = exif.date();
    let path = media_path(&date, &id, ext.as_str());
    Ok(Media {
        id,
        path,
        date,
        rotation,
        is_public: false,
        width: exif.width as i32,
        height: exif.height as i32,
        story: String::from_str(story),
        lat: exif.lat(),
        lon: exif.long(),
        make: exif.make,
        model: exif.model,
        caption: exif.caption,
    })
}

/// What a media record read from an image file holds, beyond its dimensions.
pub open spec fn media_read_from(m: Media, b: Seq<u8>, story: Seq<char>) -> bool {
    let fs = fields_or_empty(b);
    &&& m.id@ == content_id_of(b)
    &&& m.date == capture_date(primary_datetime(fs), field_date(fs, tag_gps_date()), field_time(fs, tag_gps_time()))
    &&& rotation_of(field_uint(fs, tag_orientation())) == Ok::<i16, u32>(m.rotation)
    &&& opt_text(m.make) == field_text(fs, tag_make())
    &&& opt_text(m.model) == field_text(fs, tag_model())
    &&& opt_text(m.caption) == field_text(fs, tag_caption())
    &&& opt_signed(m.lat) == signed_coordinate(field_coordinate(fs, tag_lat()), field_text(fs, tag_lat_ref()), 'S')
    &&& opt_signed(m.lon) == signed_coordinate(field_coordinate(fs, tag_lon()), field_text(fs, tag_lon_ref()), 'W')
    &&& m.story@ == story
    &&& !m.is_public
    &&& image_extension_of(b) matches Some(ext) && m.path@ == media_path_of(m.date, m.id@, ext)
}

} // verus!
