use blik::collection::admission;
use blik::datetime::DateTime;
use blik::models::{IngestError, Media, Thumbnail};
use blik::reconcile::{apply_changes, reconcile, FieldChanges, MediaIndex, Reconciliation};

fn record(id: &str, path: &str, width: i32) -> Media {
    Media {
        id: id.to_string(),
        path: path.to_string(),
        date: Some(DateTime { year: 2020, month: 5, day: 6, hour: 7, minute: 8, second: 9 }),
        rotation: 0,
        is_public: false,
        width,
        height: 300,
        story: "default".to_string(),
        lat: Some(1),
        lon: Some(2),
        make: Some("Make".to_string()),
        model: None,
        caption: None,
    }
}

fn thumb() -> Thumbnail {
    Thumbnail { id: "unkeyed".to_string(), content: vec![0xff, 0xd8], mimetype: "image/jpeg".to_string() }
}

#[test]
fn same_dimensions_and_date_are_unchanged() {
    let old = record("a", "p", 400);
    let mut new = record("b", "p", 400);
    new.make = Some("Other".to_string());
    assert_eq!(reconcile(Some(&old), &new), Reconciliation::Unchanged);
}

#[test]
fn one_pixel_wider_updates_only_the_width() {
    let old = record("a", "p", 400);
    let new = record("a", "p", 401);
    let r = reconcile(Some(&old), &new);
    let c = FieldChanges { width: Some(401), height: None, date: None };
    assert_eq!(r, Reconciliation::Updated(c));
    let mut m = old.clone();
    apply_changes(&mut m, &c);
    assert_eq!(m.width, 401);
    assert_eq!(m.height, old.height);
    assert_eq!(m.date, old.date);
    assert_eq!(m.make, old.make);
    assert_eq!(m.id, old.id);
}

#[test]
fn changed_date_is_written() {
    let old = record("a", "p", 400);
    let mut new = record("a", "p", 400);
    new.date = None;
    let r = reconcile(Some(&old), &new);
    assert_eq!(r, Reconciliation::Updated(FieldChanges { width: None, height: None, date: Some(None) }));
}

#[test]
fn no_record_means_created() {
    assert_eq!(reconcile(None, &record("a", "p", 1)), Reconciliation::Created);
}

#[test]
fn ingesting_twice_keeps_one_record() {
    let mut index = MediaIndex::new();
    assert!(matches!(index.ingest(record("a", "p", 400), thumb()), Ok(Reconciliation::Created)));
    assert!(matches!(index.ingest(record("a", "p", 400), thumb()), Ok(Reconciliation::Unchanged)));
    assert_eq!(index.len(), 1);
    assert_eq!(index.thumbnail_count(), 1);
    assert_eq!(index.stored_paths(), &vec!["p".to_string()]);
}

#[test]
fn same_content_under_another_path_is_already_indexed() {
    let mut index = MediaIndex::new();
    index.ingest(record("a", "p", 400), thumb()).unwrap();
    assert!(matches!(index.ingest(record("a", "q", 400), thumb()), Err(IngestError::AlreadyIndexed)));
    assert_eq!(index.len(), 1);
}

#[test]
fn update_through_index_touches_only_changed_fields() {
    let mut index = MediaIndex::new();
    index.ingest(record("a", "p", 400), thumb()).unwrap();
    let mut changed = record("a", "p", 401);
    changed.make = Some("Ignored".to_string());
    let r = index.ingest(changed, thumb()).unwrap();
    assert_eq!(r, Reconciliation::Updated(FieldChanges { width: Some(401), height: None, date: None }));
    let stored = index.get(0);
    assert_eq!(stored.width, 401);
    assert_eq!(stored.make, Some("Make".to_string()));
    assert_eq!(index.find_by_path(&"p".to_string()), Some(0));
    assert!(index.contains_id(&"a".to_string()));
    assert!(!index.contains_id(&"b".to_string()));
}

#[test]
fn admission_checks_index_then_disk() {
    assert!(matches!(admission(true, true), Err(IngestError::AlreadyIndexed)));
    assert!(matches!(admission(true, false), Err(IngestError::AlreadyIndexed)));
    assert!(matches!(admission(false, true), Err(IngestError::PathConflict)));
    assert!(admission(false, false).is_ok());
}

#[test]
fn only_store_failures_are_retryable() {
    assert!(IngestError::StoreUnavailable.is_retryable());
    assert!(!IngestError::AlreadyIndexed.is_retryable());
    assert!(!IngestError::CorruptMedia.is_retryable());
}
