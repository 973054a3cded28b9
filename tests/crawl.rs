use std::collections::{BTreeMap, HashSet};

use blik::collection::{choose_media_kind, prepare_image, Collection, Crawl, DirEntry, EntryKind, Findphotos};
use blik::identity::MediaKind;
use blik::models::{IngestError, Media};

fn entry(name: &str, kind: EntryKind) -> DirEntry {
    DirEntry { name: name.to_string(), kind }
}

/// Walks an in-memory tree, listing each directory the crawl hands out.
fn walk(tree: &BTreeMap<&str, Vec<DirEntry>>, start: &str) -> Vec<String> {
    let mut crawl = Crawl::new(start.to_string());
    let mut visited = Vec::new();
    while let Some(dir) = crawl.next_dir() {
        let listing = tree.get(dir.as_str()).cloned().unwrap_or_default();
        visited.extend(crawl.visit_listing(&dir, &listing));
    }
    visited
}

fn sample_tree() -> BTreeMap<&'static str, Vec<DirEntry>> {
    let mut tree = BTreeMap::new();
    tree.insert("", vec![
        entry("a.jpg", EntryKind::File),
        entry("2019", EntryKind::Directory),
        entry("empty", EntryKind::Directory),
        entry("link", EntryKind::Other),
        entry("b.png", EntryKind::File),
    ]);
    tree.insert("2019", vec![entry("c.jpg", EntryKind::File), entry("07", EntryKind::Directory)]);
    tree.insert("2019/07", vec![entry("d.mp4", EntryKind::File), entry("e.jpg", EntryKind::File)]);
    tree.insert("empty", vec![]);
    tree
}

#[test]
fn crawl_visits_every_file_once() {
    let visited = walk(&sample_tree(), "");
    assert_eq!(visited.len(), 5);
    let set: HashSet<&String> = visited.iter().collect();
    assert_eq!(set.len(), 5);
    for p in ["a.jpg", "b.png", "2019/c.jpg", "2019/07/d.mp4", "2019/07/e.jpg"] {
        assert!(visited.contains(&p.to_string()), "missing {}", p);
    }
}

#[test]
fn crawl_of_a_subdirectory_stays_inside_it() {
    let mut visited = walk(&sample_tree(), "2019");
    visited.sort();
    assert_eq!(visited, vec!["2019/07/d.mp4", "2019/07/e.jpg", "2019/c.jpg"]);
}

#[test]
fn raw_path_joins_storage_root_and_record_path() {
    let mut m = Media {
        id: "id".to_string(),
        path: "2019/a.jpg".to_string(),
        date: None,
        rotation: 0,
        is_public: false,
        width: 1,
        height: 1,
        story: "s".to_string(),
        lat: None,
        lon: None,
        make: None,
        model: None,
        caption: None,
    };
    assert_eq!(Collection { basedir: "/photos".to_string() }.get_raw_path(&m), "/photos/2019/a.jpg");
    assert_eq!(Collection { basedir: "/photos/".to_string() }.get_raw_path(&m), "/photos/2019/a.jpg");
    assert_eq!(Collection { basedir: String::new() }.get_raw_path(&m), "2019/a.jpg");
    m.path = "/elsewhere/b.jpg".to_string();
    assert_eq!(Collection { basedir: "/photos".to_string() }.get_raw_path(&m), "/elsewhere/b.jpg");
}

#[test]
fn findphotos_crawls_the_root_without_bases() {
    let none = Findphotos { photos_dir: "/p".to_string(), base: vec![] };
    assert_eq!(none.run(), vec![String::new()]);
    let some = Findphotos { photos_dir: "/p".to_string(), base: vec!["2019".to_string(), "x".to_string()] };
    assert_eq!(some.run(), vec!["2019".to_string(), "x".to_string()]);
}

#[test]
fn empty_upload_is_refused() {
    assert!(matches!(prepare_image(&[], "s"), Err(IngestError::Empty)));
}

#[test]
fn declared_type_chooses_the_decoder() {
    assert!(matches!(choose_media_kind(0, "image", "image/png"), Err(IngestError::Empty)));
    assert!(matches!(choose_media_kind(10, "image", "image/png"), Ok(MediaKind::Image)));
    assert!(matches!(choose_media_kind(10, "video", "video/mp4"), Ok(MediaKind::Video)));
    match choose_media_kind(10, "text", "text/plain") {
        Err(IngestError::UnsupportedFormat(Some(t))) => assert_eq!(t, "text/plain"),
        other => panic!("unexpected {:?}", other),
    }
}
