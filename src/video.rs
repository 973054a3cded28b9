//! Videos: choosing the video stream, the container's extension, reading
//! one representative frame, and turning that frame into a thumbnail. The
//! demuxing, decoding and scaling themselves are done by the caller, which
//! hands this module plain values.
use vstd::prelude::*;
use crate::identity::{content_id, content_id_of};
use crate::image::{jpeg_of, jpeg_mimetype, THUMBNAIL_HEIGHT, THUMBNAIL_QUALITY};
use crate::models::{IngestError, Media, Thumbnail};
use crate::text::same_text;

verus! {

/// The index of the first stream that holds video, given for each stream of
/// a container whether it does.
pub fn first_video_stream(is_video: &Vec<bool>) -> (r: Option<usize>)
    ensures
        match r {
            Some(i) => i < is_video@.len() && is_video@[i as int]
                && forall|j: int| 0 <= j < i ==> !is_video@[j],
            None => forall|j: int| 0 <= j < is_video@.len() ==> !is_video@[j],
        },
{
    let mut i: usize = 0;
    while i < is_video.len()
        invariant
            i <= is_video@.len(),
            forall|j: int| 0 <= j < i ==> !is_video@[j],
        decreases is_video@.len() - i,
    {
        if is_video[i] {
            return Some(i);
        }
        i = i + 1;
    }
    None
}

/// The storage extension of a supported video container, by the subtype of
/// its sniffed mime type.
pub open spec fn video_extension_of(subtype: Seq<char>) -> Option<Seq<char>> {
    if subtype == seq!['m', 'p', '4'] {
        Some(seq!['m', 'p', '4'])
    } else if subtype == seq!['m', 'a', 't', 'r', 'o', 's', 'k', 'a'] {
        Some(seq!['m', 'k', 'v'])
    } else if subtype == seq!['a', 'v', 'i'] {
        Some(seq!['a', 'v', 'i'])
    } else if subtype == seq!['x', '-', 'm', 'o', 't', 'i', 'o', 'n', '-', 'j', 'p', 'e', 'g'] {
        Some(seq!['m', 'j', 'p', 'g'])
    } else if subtype == seq!['q', 'u', 'i', 'c', 'k', 't', 'i', 'm', 'e'] {
        Some(seq!['m', 'o', 'v'])
    } else {
        None
    }
}

/// The mime type `type/subtype` as text.
pub open spec fn essence_of(t: Seq<char>, subtype: Seq<char>) -> Seq<char> {
    t + seq!['/'] + subtype
}

fn essence_text(t: &str, subtype: &str) -> (r: String)
    ensures
        r@ == essence_of(t@, subtype@),
{
    proof {
        reveal_strlit("/");
    }
    let mut r = String::from_str(t);
    r.append("/");
    r.append(subtype);
    r
}

/// The extension under which a video is stored, from the mime type sniffed
/// from its bytes. Anything but a video of a supported container is
/// refused, naming the type detected.
pub fn video_extension(detected: &Option<(String, String)>) -> (r: Result<String, IngestError>)
    ensures
        match detected {
            None => r matches Err(IngestError::UnsupportedFormat(d)) && d is None,
            Some((t, sub)) => if t@ == seq!['v', 'i', 'd', 'e', 'o'] && video_extension_of(sub@) is Some {
                r matches Ok(e) && Some(e@) == video_extension_of(sub@)
            } else {
                r matches Err(IngestError::UnsupportedFormat(d)) && (d matches Some(x) && x@ == essence_of(t@, sub@))
            },
        },
{
    proof {
        reveal_strlit("video");
        reveal_strlit("mp4");
        reveal_strlit("matroska");
        reveal_strlit("mkv");
        reveal_strlit("avi");
        reveal_strlit("x-motion-jpeg");
        reveal_strlit("mjpg");
        reveal_strlit("quicktime");
        reveal_strlit("mov");
    }
    let (t, sub) = match detected {
        Some(p) => (&p.0, &p.1),
        None => return Err(IngestError::UnsupportedFormat(None)),
    };
    assert("video"@ =~= seq!['v', 'i', 'd', 'e', 'o']);
    assert("mp4"@ =~= seq!['m', 'p', '4']);
    assert("matroska"@ =~= seq!['m', 'a', 't', 'r', 'o', 's', 'k', 'a']);
    assert("mkv"@ =~= seq!['m', 'k', 'v']);
    assert("avi"@ =~= seq!['a', 'v', 'i']);
    assert("x-motion-jpeg"@ =~= seq!['x', '-', 'm', 'o', 't', 'i', 'o', 'n', '-', 'j', 'p', 'e', 'g']);
    assert("mjpg"@ =~= seq!['m', 'j', 'p', 'g']);
    assert("quicktime"@ =~= seq!['q', 'u', 'i', 'c', 'k', 't', 'i', 'm', 'e']);
    assert("mov"@ =~= seq!['m', 'o', 'v']);
    let refused = IngestError::UnsupportedFormat(Some(essence_text(t.as_str(), sub.as_str())));
    if !same_text(t.as_str(), "video") {
        return Err(refused);
    }
    let s = sub.as_str();
    if same_text(s, "mp4") {
        Ok(String::from_str("mp4"))
    } else if same_text(s, "matroska") {
        Ok(String::from_str("mkv"))
    } else if same_text(s, "avi") {
        Ok(String::from_str("avi"))
    } else if same_text(s, "x-motion-jpeg") {
        Ok(String::from_str("mjpg"))
    } else if same_text(s, "quicktime") {
        Ok(String::from_str("mov"))
    } else {
        Err(refused)
    }
}

/// Whether a sniffed mime type is a video in a supported container.
pub open spec fn video_accepted(detected: Option<(String, String)>) -> bool {
    match detected {
        Some((t, sub)) => t@ == seq!['v', 'i', 'd', 'e', 'o'] && video_extension_of(sub@) is Some,
        None => false,
    }
}

/// Reads the media record of a video: its content id, the frame size the
/// container declares for its video stream, and the story it belongs to.
/// `detected` is the mime type sniffed from the bytes; videos carry no
/// capture date here, so they are stored under their content id.
pub fn read_video_media(video_bytes: &[u8], story: &str, width: usize, height: usize, detected: &Option<(String, String)>) -> (r: Result<Media, IngestError>)
    ensures
        match r {
            Ok(m) => video_accepted(*detected) && width <= i32::MAX && height <= i32::MAX
                && m.id@ == content_id_of(video_bytes@) && m.path@ == m.id@
                && m.width == width && m.height == height
                && m.date is None && m.rotation == 0 && !m.is_public && m.story@ == story@
                && m.lat is None && m.lon is None && m.make is None && m.model is None && m.caption is None,
            Err(e) => if video_accepted(*detected) {
                e is CorruptMedia && (width > i32::MAX || height > i32::MAX)
            } else {
                match detected {
                    None => e matches IngestError::UnsupportedFormat(d) && d is None,
                    Some((t, sub)) => e matches IngestError::UnsupportedFormat(d)
                        && (d matches Some(x) && x@ == essence_of(t@, sub@)),
                }
            },
        },
{
    let _ext = video_extension(detected)?;
    if width > 0x7fff_ffff || height > 0x7fff_ffff {
        return Err(IngestError::CorruptMedia);
    }
    let id = content_id(video_bytes);
    let path = id.clone();
    Ok(Media {
        id,
        path,
        date: None,
        rotation: 0,
        is_public: false,
        width: width as i32,
        height: height as i32,
        story: String::from_str(story),
        lat: None,
        lon: None,
        make: None,
        model: None,
        caption: None,
    })
}

/// What the frame reader asks its caller to do next.
#[derive(Clone, Copy, Debug, PartialEq, Eq, Structural)]
pub enum FrameAction {
    /// Take a decoded frame from the decoder, if it has one.
    TakeFrame,
    /// Read the next packet from the demuxer.
    ReadPacket,
    /// Push the packet just read into the decoder.
    PushPacket,
    /// Tell the decoder that no packets remain.
    Flush,
    /// The frame just taken is the next frame.
    ReturnFrame,
    /// The video holds no further frame.
    ReturnNone,
}

/// What the caller saw when it did what the reader asked.
#[derive(Clone, Copy, Debug, PartialEq, Eq, Structural)]
pub enum FrameEvent {
    /// A new frame is wanted.
    Start,
    /// Whether the decoder handed out a frame.
    Taken(bool),
    /// The stream index of the packet read, or `None` at the end of the container.
    Packet(Option<usize>),
    Pushed,
    Flushed,
}

/// Reads the next frame of one video stream: frames already decoded come
/// first, then packets of that stream are decoded until one yields a frame,
/// and once the container is exhausted the decoder is flushed, once.
#[derive(Clone, Copy, Debug, PartialEq, Eq, Structural)]
pub struct FrameReader {
    pub stream_index: usize,
    pub flushed: bool,
    pub after_flush: bool,
}

/// The reader's next state and request after an event.
pub open spec fn frame_step(s: FrameReader, e: FrameEvent) -> (FrameReader, FrameAction) {
    match e {
        FrameEvent::Start => (FrameReader { after_flush: false, ..s }, FrameAction::TakeFrame),
        FrameEvent::Taken(true) => (s, FrameAction::ReturnFrame),
        FrameEvent::Taken(false) => if s.after_flush {
            (s, FrameAction::ReturnNone)
        } else {
            (s, FrameAction::ReadPacket)
        },
        FrameEvent::Packet(Some(i)) => if i == s.stream_index {
            (s, FrameAction::PushPacket)
        } else {
            (s, FrameAction::ReadPacket)
        },
        FrameEvent::Packet(None) => if s.flushed {
            (s, FrameAction::ReturnNone)
        } else {
            (FrameReader { flushed: true, ..s }, FrameAction::Flush)
        },
        FrameEvent::Pushed => (s, FrameAction::TakeFrame),
        FrameEvent::Flushed => (FrameReader { after_flush: true, ..s }, FrameAction::TakeFrame),
    }
}

/// The decoder is flushed at most once: once flushed, a reader stays
/// flushed, and the end of the container then ends the stream instead of
/// flushing again.
pub proof fn frame_reader_flushes_once(s: FrameReader, e: FrameEvent)
    ensures
        s.flushed ==> frame_step(s, e).0.flushed,
        s.flushed ==> frame_step(s, e).1 != FrameAction::Flush,
        frame_step(s, e).1 == FrameAction::Flush ==> !s.flushed && frame_step(s, e).0.flushed,
        frame_step(s, e).0.stream_index == s.stream_index,
{
}

impl FrameReader {
    /// A reader for the stream with the given index, not yet flushed.
    pub fn new(stream_index: usize) -> (r: FrameReader)
        ensures
            r == (FrameReader { stream_index, flushed: false, after_flush: false }),
    {
        FrameReader { stream_index, flushed: false, after_flush: false }
    }

    /// Takes in what the caller saw and says what to do next.
    pub fn step(&mut self, e: FrameEvent) -> (r: FrameAction)
        ensures
            (*final(self), r) == frame_step(*old(self), e),
    {
        match e {
            FrameEvent::Start => {
                self.after_flush = false;
                FrameAction::TakeFrame
            },
            FrameEvent::Taken(got) => if got {
                FrameAction::ReturnFrame
            } else if self.after_flush {
                FrameAction::ReturnNone
            } else {
                FrameAction::ReadPacket
            },
            FrameEvent::Packet(Some(i)) => if i == self.stream_index {
                FrameAction::PushPacket
            } else {
                FrameAction::ReadPacket
            },
            FrameEvent::Packet(None) => if self.flushed {
                FrameAction::ReturnNone
            } else {
                self.flushed = true;
                FrameAction::Flush
            },
            FrameEvent::Pushed => FrameAction::TakeFrame,
            FrameEvent::Flushed => {
                self.after_flush = true;
                FrameAction::TakeFrame
            },
        }
    }
}

/// The thumbnail width for a `w` by `h` video frame: `256 * w / h` rounded
/// to the nearest integer (halves up), at most 2048.
pub open spec fn frame_thumbnail_width_of(w: int, h: int) -> int {
    let r = (512 * w + h) / (2 * h);
    if r > 2048 { 2048 } else { r }
}

/// The size of the thumbnail of a `w` by `h` video frame: 256 high, its
/// width in proportion, rounded, capped.
pub fn frame_thumbnail_size(w: u32, h: u32) -> (r: (u32, u32))
    requires
        h > 0,
    ensures
        r.0 == frame_thumbnail_width_of(w as int, h as int),
        r.1 == THUMBNAIL_HEIGHT,
{
    let r: u64 = (512 * (w as u64) + h as u64) / (2 * (h as u64));
    let tw: u32 = if r > 2048 { 2048 } else { r as u32 };
    (tw, THUMBNAIL_HEIGHT)
}

/// The RGBA pixels of a `width` by `height` frame held as 8-bit RGB rows of
/// `line_size` bytes each, fully opaque.
pub open spec fn rgba_of_plane(plane: Seq<u8>, line_size: int, width: int, height: int) -> Seq<u8> {
    Seq::new((4 * width * height) as nat, |k: int| {
        let i = k / 4;
        if k % 4 == 3 { 255u8 } else { plane[(i / width) * line_size + 3 * (i % width) + k % 4] }
    })
}

/// Whether an RGB plane is large enough for a `width` by `height` frame:
/// rows at least three bytes per pixel, enough rows, enough bytes.
pub open spec fn plane_fits(len: int, line_size: int, line_count: int, width: int, height: int) -> bool {
    &&& line_size >= 3 * width
    &&& line_count >= height
    &&& len >= height * line_size
    &&& 4 * width * height <= usize::MAX
}

/// Copies an RGB plane into opaque RGBA pixels, after checking that the plane
/// holds the whole frame; a plane too small is refused rather than read out
/// of bounds.
pub fn plane_to_rgba(plane: &[u8], line_size: usize, line_count: usize, width: usize, height: usize) -> (r: Result<Vec<u8>, IngestError>)
    ensures
        match r {
            Ok(p) => plane_fits(plane@.len() as int, line_size as int, line_count as int, width as int, height as int)
                && p@ == rgba_of_plane(plane@, line_size as int, width as int, height as int),
            Err(e) => e is CorruptMedia
                && !plane_fits(plane@.len() as int, line_size as int, line_count as int, width as int, height as int),
        },
{
    let (w, h, ls) = (width as u128, height as u128, line_size as u128);
    proof {
        assert(h * ls <= 0xffff_ffff_ffff_ffff * 0xffff_ffff_ffff_ffffint) by (nonlinear_arith)
            requires h <= 0xffff_ffff_ffff_ffffint, ls <= 0xffff_ffff_ffff_ffffint;
        assert(w * h <= 0xffff_ffff_ffff_ffff * 0xffff_ffff_ffff_ffffint) by (nonlinear_arith)
            requires h <= 0xffff_ffff_ffff_ffffint, w <= 0xffff_ffff_ffff_ffffint;
    }
    let hl = h * ls;
    let wh = w * h;
    assert(4 * (width as int) * (height as int) == 4 * (wh as int)) by (nonlinear_arith)
        requires wh == w * h, w == width, h == height;
    if ls < 3 * w || line_count < height || (plane.len() as u128) < hl || wh > (usize::MAX as u128) / 4 {
        return Err(IngestError::CorruptMedia);
    }
    assert(height * line_size <= plane.len());
    let n: usize = (4 * wh) as usize;
    let ghost spec_out = rgba_of_plane(plane@, line_size as int, width as int, height as int);
    let mut out: Vec<u8> = Vec::with_capacity(n);
    let mut k: usize = 0;
    while k < n
        invariant
            n == 4 * width * height,
            line_size >= 3 * width,
            plane@.len() >= height * line_size,
            plane@.len() <= usize::MAX,
            spec_out == rgba_of_plane(plane@, line_size as int, width as int, height as int),
            k <= n,
            out@ =~= spec_out.subrange(0, k as int),
        decreases n - k,
    {
        if k % 4 == 3 {
            out.push(255u8);
        } else {
            let i = k / 4;
            proof {
                assert(width > 0 && height > 0) by (nonlinear_arith)
                    requires k < n, n == 4 * width * height;
                assert(i < width * height) by (nonlinear_arith)
                    requires k < 4 * width * height, i == k / 4;
                assert(i / width < height) by (nonlinear_arith)
                    requires i < width * height, width > 0;
                assert((i / width) * line_size + 3 * (i % width) + k % 4 < height * line_size) by (nonlinear_arith)
                    requires i / width < height, i % width < width, k % 4 < 3, line_size >= 3 * width, width > 0;
            }
            let row = i / width;
            let col = i % width;
            proof {
                assert(row * line_size <= height * line_size) by (nonlinear_arith)
                    requires row < height;
            }
            let idx = row * line_size + 3 * col + k % 4;
            out.push(plane[idx]);
        }
        k = k + 1;
    }
    assert(spec_out.subrange(0, n as int) =~= spec_out);
    Ok(out)
}

/// The JPEG thumbnail of a video from one decoded frame of `frame_width` by
/// `frame_height`, already scaled to `frame_thumbnail_size(frame_width,
/// frame_height)` and converted to 8-bit RGB rows of `line_size` bytes.
pub fn video_thumbnail(media: &Media, frame_width: u32, frame_height: u32, plane: &[u8], line_size: usize, line_count: usize) -> (r: Result<Thumbnail, IngestError>)
    ensures
        match r {
            Ok(t) => frame_height > 0 && t.id@ == media.id@ && t.mimetype@ == jpeg_mimetype() && ({
                let tw = frame_thumbnail_width_of(frame_width as int, frame_height as int);
                &&& plane_fits(plane@.len() as int, line_size as int, line_count as int, tw, 256)
                &&& jpeg_of(rgba_of_plane(plane@, line_size as int, tw, 256), tw as u32, 256, 70) == Some(t.content@)
            }),
            Err(e) => e is CorruptMedia && (frame_height == 0 || ({
                let tw = frame_thumbnail_width_of(frame_width as int, frame_height as int);
                !plane_fits(plane@.len() as int, line_size as int, line_count as int, tw, 256)
                || jpeg_of(rgba_of_plane(plane@, line_size as int, tw, 256), tw as u32, 256, 70) is None
            })),
        },
{
    if frame_height == 0 {
        return Err(IngestError::CorruptMedia);
    }
    let (tw, th) = frame_thumbnail_size(frame_width, frame_height);
    let pixels = plane_to_rgba(plane, line_size, line_count, tw as usize, th as usize)?;
    assert(pixels@.len() == tw * th * 4);
    let content = match crate::image::encode_jpeg_pixels(pixels.as_slice(), tw, th, THUMBNAIL_QUALITY) {
        Some(c) => c,
        None => return Err(IngestError::CorruptMedia),
    };
    Ok(Thumbnail { id: media.id.clone(), content, mimetype: crate::image::jpeg_mimetype_text() })
}

} // verus!
