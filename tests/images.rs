use blik::datetime::DateTime;
use blik::identity::content_id;
use blik::image::{create_thumbnail, media_path, read_media_from, rotate, thumbnail_raster, thumbnail_size, Raster};
use blik::models::{IngestError, Media};
use image::ImageEncoder;

fn png_bytes(w: u32, h: u32) -> Vec<u8> {
    let mut pixels = Vec::new();
    for y in 0..h {
        for x in 0..w {
            pixels.extend_from_slice(&[(x * 7) as u8, (y * 11) as u8, 90, 255]);
        }
    }
    let mut out = Vec::new();
    image::codecs::png::PngEncoder::new(&mut out)
        .write_image(&pixels, w, h, image::ColorType::Rgba8)
        .unwrap();
    out
}

fn crc32(data: &[u8]) -> u32 {
    let mut crc = 0xffff_ffffu32;
    for &b in data {
        crc ^= b as u32;
        for _ in 0..8 {
            crc = if crc & 1 != 0 { (crc >> 1) ^ 0xedb8_8320 } else { crc >> 1 };
        }
    }
    !crc
}

/// One IFD entry: tag, type (2 ASCII, 3 SHORT), count, value bytes.
struct Entry(u16, u16, u32, Vec<u8>);

/// Big-endian TIFF data holding one IFD with the given entries.
fn tiff(entries: &[Entry]) -> Vec<u8> {
    let mut out = b"MM\x00\x2a\x00\x00\x00\x08".to_vec();
    let ifd_len = 2 + 12 * entries.len() + 4;
    let mut data = Vec::new();
    out.extend_from_slice(&(entries.len() as u16).to_be_bytes());
    for Entry(tag, typ, count, value) in entries {
        out.extend_from_slice(&tag.to_be_bytes());
        out.extend_from_slice(&typ.to_be_bytes());
        out.extend_from_slice(&count.to_be_bytes());
        if value.len() <= 4 {
            let mut v = value.clone();
            v.resize(4, 0);
            out.extend_from_slice(&v);
        } else {
            let offset = (8 + ifd_len + data.len()) as u32;
            out.extend_from_slice(&offset.to_be_bytes());
            data.extend_from_slice(value);
        }
    }
    out.extend_from_slice(&0u32.to_be_bytes());
    out.extend_from_slice(&data);
    out
}

/// A PNG of `w` by `h` with an eXIf chunk holding `exif` right after IHDR.
fn png_with_exif(w: u32, h: u32, exif: &[u8]) -> Vec<u8> {
    let png = png_bytes(w, h);
    let mut chunk = (exif.len() as u32).to_be_bytes().to_vec();
    let mut body = b"eXIf".to_vec();
    body.extend_from_slice(exif);
    chunk.extend_from_slice(&body);
    chunk.extend_from_slice(&crc32(&body).to_be_bytes());
    let mut out = png[..33].to_vec();
    out.extend_from_slice(&chunk);
    out.extend_from_slice(&png[33..]);
    out
}

fn orientation(code: u16) -> Entry {
    Entry(0x112, 3, 1, code.to_be_bytes().to_vec())
}

fn modified(text: &str) -> Entry {
    let mut v = text.as_bytes().to_vec();
    v.push(0);
    Entry(0x132, 2, v.len() as u32, v)
}

#[test]
fn thumbnail_sizes_follow_aspect_ratio() {
    assert_eq!(thumbnail_size(1920, 1080), (455, 256));
    assert_eq!(thumbnail_size(3, 2), (384, 256));
    assert_eq!(thumbnail_size(1, 512), (0, 256));
    assert_eq!(thumbnail_size(2, 3), (170, 256));
    assert_eq!(thumbnail_size(100_000, 10), (2048, 256));
    assert_eq!(thumbnail_size(256, 256), (256, 256));
}

#[test]
fn image_without_metadata_is_stored_under_its_id() {
    let png = png_bytes(40, 20);
    let m = read_media_from(&png, "holiday").unwrap();
    assert_eq!(m.id, content_id(&png));
    assert_eq!(m.path, m.id);
    assert_eq!((m.width, m.height), (40, 20));
    assert_eq!(m.rotation, 0);
    assert_eq!(m.date, None);
    assert_eq!(m.story, "holiday");
    assert!(!m.is_public);
}

#[test]
fn orientation_six_stores_rotation_ninety_and_turns_thumbnail() {
    let png = png_with_exif(40, 20, &tiff(&[orientation(6)]));
    let m = read_media_from(&png, "s").unwrap();
    assert_eq!(m.rotation, 90);
    assert_eq!((m.width, m.height), (40, 20));
    let upright = thumbnail_raster(&png, m.rotation).unwrap();
    assert_eq!((upright.width, upright.height), (256, 512));
    let unturned = thumbnail_raster(&png, 0).unwrap();
    assert_eq!((unturned.width, unturned.height), (512, 256));
    assert_eq!(upright.pixels.len(), 256 * 512 * 4);
}

#[test]
fn unknown_orientation_is_refused() {
    let png = png_with_exif(4, 4, &tiff(&[orientation(5)]));
    assert!(matches!(read_media_from(&png, "s"), Err(IngestError::UnknownOrientation(5))));
}

#[test]
fn dated_image_path_has_date_id_and_extension() {
    let png = png_with_exif(8, 8, &tiff(&[modified("2019:07:04 12:30:45")]));
    let m = read_media_from(&png, "s").unwrap();
    let d = DateTime { year: 2019, month: 7, day: 4, hour: 12, minute: 30, second: 45 };
    assert_eq!(m.date, Some(d));
    assert_eq!(m.path, format!("2019-07-04 12:30:45 {}.png", m.id));
}

#[test]
fn sentinel_date_in_file_gives_no_date() {
    let png = png_with_exif(8, 8, &tiff(&[modified("2000:01:01 00:00:00")]));
    let m = read_media_from(&png, "s").unwrap();
    assert_eq!(m.date, None);
    assert_eq!(m.path, m.id);
}

#[test]
fn unsupported_and_corrupt_inputs() {
    assert!(matches!(read_media_from(b"hello world", "s"), Err(IngestError::UnsupportedFormat(None))));
    let mut truncated = png_bytes(16, 16);
    truncated.truncate(40);
    assert!(matches!(read_media_from(&truncated, "s"), Err(IngestError::CorruptMedia)));
}

#[test]
fn still_image_thumbnail_width_rounds_down() {
    let png = png_bytes(2, 3);
    let raster = thumbnail_raster(&png, 0).unwrap();
    assert_eq!((raster.width, raster.height), (170, 256));
}

#[test]
fn thumbnail_is_jpeg_keyed_by_media_id() {
    let png = png_bytes(30, 60);
    let m = read_media_from(&png, "s").unwrap();
    let t = create_thumbnail(&m, &png).unwrap();
    assert_eq!(t.id, m.id);
    assert_eq!(t.mimetype, "image/jpeg");
    assert_eq!(&t.content[..2], &[0xff, 0xd8]);
    let decoded = image::load_from_memory(&t.content).unwrap();
    assert_eq!((decoded.width(), decoded.height()), (128, 256));
}

#[test]
fn rotation_moves_pixels_clockwise() {
    // Two pixels side by side: A then B.
    let src = Raster { width: 2, height: 1, pixels: vec![1, 1, 1, 1, 2, 2, 2, 2] };
    let r90 = rotate(&src, 90);
    assert_eq!((r90.width, r90.height), (1, 2));
    assert_eq!(r90.pixels, vec![1, 1, 1, 1, 2, 2, 2, 2]);
    let r180 = rotate(&src, 180);
    assert_eq!((r180.width, r180.height), (2, 1));
    assert_eq!(r180.pixels, vec![2, 2, 2, 2, 1, 1, 1, 1]);
    let r270 = rotate(&src, -90);
    assert_eq!((r270.width, r270.height), (1, 2));
    assert_eq!(r270.pixels, vec![2, 2, 2, 2, 1, 1, 1, 1]);
    let same = rotate(&src, 45);
    assert_eq!(same.pixels, src.pixels);
}

#[test]
fn path_formats_out_of_range_years() {
    let id = "abc".to_string();
    let d = DateTime { year: -5, month: 1, day: 2, hour: 3, minute: 4, second: 5 };
    assert_eq!(media_path(&Some(d), &id, "jpg"), "-0005-01-02 03:04:05 abc.jpg");
    let d = DateTime { year: 12345, month: 12, day: 31, hour: 23, minute: 59, second: 59 };
    assert_eq!(media_path(&Some(d), &id, "jpg"), "+12345-12-31 23:59:59 abc.jpg");
    assert_eq!(media_path(&None, &id, "jpg"), "abc");
}

#[test]
fn media_read_from_matches_image_reader() {
    let png = png_bytes(10, 5);
    let a = Media::read_from(&png, "x").unwrap();
    let b = read_media_from(&png, "x").unwrap();
    assert_eq!(a.id, b.id);
    assert_eq!(a.path, b.path);
}
