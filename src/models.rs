//! The records of the media index.
use vstd::prelude::*;
use crate::datetime::DateTime;

verus! {

/// One ingested photo or video.
#[derive(Clone, Debug)]
pub struct Media {
    /// Content id: hex SHA-256 of the stored bytes.
    pub id: String,
    /// Storage-relative path of the stored bytes.
    pub path: String,
    /// Capture date, when the metadata gave a usable one.
    pub date: Option<DateTime>,
    /// Clockwise rotation in degrees that makes the image upright.
    pub rotation: i16,
    pub is_public: bool,
    /// Pixel dimensions as decoded, before rotation.
    pub width: i32,
    pub height: i32,
    /// The story (group of related media) this item belongs to.
    pub story: String,
    /// Latitude and longitude in millionths of a degree.
    pub lat: Option<i128>,
    pub lon: Option<i128>,
    pub make: Option<String>,
    pub model: Option<String>,
    pub caption: Option<String>,
}

fn copy_text(o: &Option<String>) -> (r: Option<String>)
    ensures
        r == *o,
{
    match o {
        Some(s) => Some(s.clone()),
        None => None,
    }
}

impl Media {
    /// Reads the media record of an image file; see `read_media_from`.
    pub fn read_from(image_slice: &[u8], story: &str) -> (r: Result<Media, IngestError>)
        ensures
            crate::image::read_media_outcome(image_slice@, story@, r),
    {
        crate::image::read_media_from(image_slice, story)
    }

    /// A copy of this record, equal to it in every field.
    pub fn duplicate(&self) -> (r: Media)
        ensures
            r == *self,
    {
        Media {
            id: self.id.clone(),
            path: self.path.clone(),
            date: self.date,
            rotation: self.rotation,
            is_public: self.is_public,
            width: self.width,
            height: self.height,
            story: self.story.clone(),
            lat: self.lat,
            lon: self.lon,
            make: copy_text(&self.make),
            model: copy_text(&self.model),
            caption: copy_text(&self.caption),
        }
    }
}

/// An encoded preview image, keyed by the content id of its media.
#[derive(Clone, Debug)]
pub struct Thumbnail {
    pub id: String,
    pub content: Vec<u8>,
    pub mimetype: String,
}

/// A named group of media with descriptive text.
#[derive(Clone, Debug)]
pub struct Story {
    pub name: String,
    pub title: String,
    pub description: String,
    pub created_on: DateTime,
    pub last_updated: DateTime,
    pub latest_media: Option<String>,
    pub media_count: i32,
}

impl Story {
    /// A new story, created and updated at `now`, with no media yet.
    pub fn new(name: String, title: String, description: String, now: DateTime) -> (r: Story)
        ensures
            r.name == name,
            r.title == title,
            r.description == description,
            r.created_on == now,
            r.last_updated == now,
            r.latest_media is None,
            r.media_count == 0,
    {
        Story { name, title, description, created_on: now, last_updated: now, latest_media: None, media_count: 0 }
    }
}

/// A named region of an image.
#[derive(Clone, Debug)]
pub struct Annotation {
    pub media_id: String,
    pub name: String,
    pub top: i64,
    pub bottom: i64,
    pub left: i64,
    pub right: i64,
    pub details: Option<String>,
}

/// Why an ingestion failed. Only `StoreUnavailable` is worth retrying.
#[derive(Clone, Debug)]
pub enum IngestError {
    /// The input holds no bytes.
    Empty,
    /// The bytes are not a recognised image or video container; carries the
    /// detected type where one was detected.
    UnsupportedFormat(Option<String>),
    /// The container was recognised but could not be decoded.
    CorruptMedia,
    /// The metadata holds an orientation code with no known meaning.
    UnknownOrientation(u32),
    /// A record with this content id already exists.
    AlreadyIndexed,
    /// A file the index does not know already occupies the target path.
    PathConflict,
    /// The metadata store could not be reached.
    StoreUnavailable,
}

impl IngestError {
    /// Whether the failure is temporary, so that the caller may retry.
    pub fn is_retryable(&self) -> (r: bool)
        ensures
            r == (self is StoreUnavailable),
    {
        match self {
            IngestError::StoreUnavailable => true,
            _ => false,
        }
    }
}

} // verus!
