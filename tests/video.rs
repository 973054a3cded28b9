use blik::identity::content_id;
use blik::models::{IngestError, Media};
use blik::video::{
    first_video_stream, frame_thumbnail_size, plane_to_rgba, read_video_media, video_extension, video_thumbnail, FrameAction,
    FrameEvent, FrameReader,
};

fn mime(t: &str, s: &str) -> Option<(String, String)> {
    Some((t.to_string(), s.to_string()))
}

#[test]
fn first_video_stream_is_chosen() {
    assert_eq!(first_video_stream(&vec![false, true, true]), Some(1));
    assert_eq!(first_video_stream(&vec![true]), Some(0));
    assert_eq!(first_video_stream(&vec![false, false]), None);
    assert_eq!(first_video_stream(&vec![]), None);
}

#[test]
fn supported_containers_get_their_extension() {
    assert_eq!(video_extension(&mime("video", "mp4")).unwrap(), "mp4");
    assert_eq!(video_extension(&mime("video", "matroska")).unwrap(), "mkv");
    assert_eq!(video_extension(&mime("video", "avi")).unwrap(), "avi");
    assert_eq!(video_extension(&mime("video", "x-motion-jpeg")).unwrap(), "mjpg");
    assert_eq!(video_extension(&mime("video", "quicktime")).unwrap(), "mov");
}

#[test]
fn other_types_are_refused_by_name() {
    match video_extension(&mime("video", "webm")) {
        Err(IngestError::UnsupportedFormat(Some(t))) => assert_eq!(t, "video/webm"),
        other => panic!("unexpected {:?}", other),
    }
    match video_extension(&mime("image", "png")) {
        Err(IngestError::UnsupportedFormat(Some(t))) => assert_eq!(t, "image/png"),
        other => panic!("unexpected {:?}", other),
    }
    assert!(matches!(video_extension(&None), Err(IngestError::UnsupportedFormat(None))));
}

#[test]
fn video_record_uses_stream_size_and_content_id() {
    let bytes = b"not really a video but hashed all the same".to_vec();
    let m = read_video_media(&bytes, "trip", 1920, 1080, &mime("video", "mp4")).unwrap();
    assert_eq!(m.id, content_id(&bytes));
    assert_eq!(m.path, m.id);
    assert_eq!((m.width, m.height), (1920, 1080));
    assert_eq!(m.story, "trip");
    assert_eq!(m.date, None);
    match read_video_media(&bytes, "trip", 1920, 1080, &mime("text", "plain")) {
        Err(IngestError::UnsupportedFormat(Some(t))) => assert_eq!(t, "text/plain"),
        other => panic!("unexpected {:?}", other),
    }
    assert!(matches!(
        read_video_media(&bytes, "trip", 1920, 1080, &None),
        Err(IngestError::UnsupportedFormat(None))
    ));
}

#[test]
fn rgb_plane_becomes_opaque_rgba() {
    // 2 by 2 frame, rows padded to 8 bytes.
    let plane = vec![1, 2, 3, 4, 5, 6, 0, 0, 7, 8, 9, 10, 11, 12, 0, 0];
    let rgba = plane_to_rgba(&plane, 8, 2, 2, 2).unwrap();
    assert_eq!(rgba, vec![1, 2, 3, 255, 4, 5, 6, 255, 7, 8, 9, 255, 10, 11, 12, 255]);
}

#[test]
fn narrow_or_short_planes_are_refused() {
    let plane = vec![0u8; 16];
    assert!(matches!(plane_to_rgba(&plane, 5, 2, 2, 2), Err(IngestError::CorruptMedia)));
    assert!(matches!(plane_to_rgba(&plane, 8, 1, 2, 2), Err(IngestError::CorruptMedia)));
    assert!(matches!(plane_to_rgba(&plane[..10], 8, 2, 2, 2), Err(IngestError::CorruptMedia)));
}

fn media(id: &str) -> Media {
    Media {
        id: id.to_string(),
        path: id.to_string(),
        date: None,
        rotation: 0,
        is_public: false,
        width: 1920,
        height: 1080,
        story: "default".to_string(),
        lat: None,
        lon: None,
        make: None,
        model: None,
        caption: None,
    }
}

#[test]
fn video_thumbnail_is_256_high_and_proportional() {
    let (w, h) = (455usize, 256usize);
    let line = w * 3 + 5;
    let plane = vec![100u8; line * h];
    let t = video_thumbnail(&media("vid"), 1920, 1080, &plane, line, h).unwrap();
    assert_eq!(t.id, "vid");
    assert_eq!(t.mimetype, "image/jpeg");
    let decoded = image::load_from_memory(&t.content).unwrap();
    assert_eq!((decoded.width(), decoded.height()), (455, 256));
}

#[test]
fn video_thumbnail_width_is_capped() {
    let (w, h) = (2048usize, 256usize);
    let plane = vec![0u8; w * 3 * h];
    let t = video_thumbnail(&media("wide"), 40_000, 100, &plane, w * 3, h).unwrap();
    let decoded = image::load_from_memory(&t.content).unwrap();
    assert_eq!((decoded.width(), decoded.height()), (2048, 256));
}

#[test]
fn video_thumbnail_of_zero_height_frame_fails() {
    assert!(matches!(video_thumbnail(&media("x"), 10, 0, &[], 0, 0), Err(IngestError::CorruptMedia)));
}

#[test]
fn frame_reader_decodes_packets_of_its_stream() {
    let mut r = FrameReader::new(1);
    assert_eq!(r.step(FrameEvent::Start), FrameAction::TakeFrame);
    assert_eq!(r.step(FrameEvent::Taken(false)), FrameAction::ReadPacket);
    assert_eq!(r.step(FrameEvent::Packet(Some(0))), FrameAction::ReadPacket);
    assert_eq!(r.step(FrameEvent::Packet(Some(1))), FrameAction::PushPacket);
    assert_eq!(r.step(FrameEvent::Pushed), FrameAction::TakeFrame);
    assert_eq!(r.step(FrameEvent::Taken(true)), FrameAction::ReturnFrame);
}

#[test]
fn frame_reader_flushes_once_at_the_end() {
    let mut r = FrameReader::new(0);
    assert_eq!(r.step(FrameEvent::Start), FrameAction::TakeFrame);
    assert_eq!(r.step(FrameEvent::Taken(false)), FrameAction::ReadPacket);
    assert_eq!(r.step(FrameEvent::Packet(None)), FrameAction::Flush);
    assert_eq!(r.step(FrameEvent::Flushed), FrameAction::TakeFrame);
    assert_eq!(r.step(FrameEvent::Taken(false)), FrameAction::ReturnNone);
    assert_eq!(r.step(FrameEvent::Start), FrameAction::TakeFrame);
    assert_eq!(r.step(FrameEvent::Taken(false)), FrameAction::ReadPacket);
    assert_eq!(r.step(FrameEvent::Packet(None)), FrameAction::ReturnNone);
}

#[test]
fn frame_thumbnail_width_is_rounded_and_capped() {
    assert_eq!(frame_thumbnail_size(1920, 1080), (455, 256));
    assert_eq!(frame_thumbnail_size(2, 3), (171, 256));
    assert_eq!(frame_thumbnail_size(1, 512), (1, 256));
    assert_eq!(frame_thumbnail_size(100_000, 10), (2048, 256));
}
