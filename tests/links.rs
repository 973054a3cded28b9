use blik::datetime::DateTime;
use blik::forms::{LoginForm, PhotosDirMiddleware};
use blik::links::{monthname, str_or, PhotoLink};
use blik::models::{Media, Story};

fn media(date: Option<DateTime>) -> Media {
    Media {
        id: "abc123".to_string(),
        path: "p".to_string(),
        date,
        rotation: 0,
        is_public: false,
        width: 1,
        height: 1,
        story: "s".to_string(),
        lat: None,
        lon: None,
        make: None,
        model: None,
        caption: None,
    }
}

#[test]
fn date_title_shows_day_and_time() {
    let d = DateTime { year: 2019, month: 7, day: 4, hour: 9, minute: 5, second: 3 };
    let link = PhotoLink::date_title(&media(Some(d)));
    assert_eq!(link.title, Some("2019-07-04".to_string()));
    assert_eq!(link.label, Some("09:05:03".to_string()));
    assert_eq!(link.href, "/photo/abc123/thumbnail");
    assert_eq!(link.id, "abc123");
}

#[test]
fn undated_links_have_no_title_or_label() {
    let link = PhotoLink::date_title(&media(None));
    assert_eq!(link.title, None);
    assert_eq!(link.label, None);
    let d = DateTime { year: 2019, month: 7, day: 4, hour: 9, minute: 5, second: 3 };
    let plain = PhotoLink::no_title(&media(Some(d)));
    assert_eq!(plain.title, None);
    assert_eq!(plain.label, Some("09:05:03".to_string()));
}

#[test]
fn month_names() {
    assert_eq!(monthname(1), "january");
    assert_eq!(monthname(12), "december");
    assert_eq!(monthname(0), "non-month");
    assert_eq!(monthname(13), "non-month");
}

#[test]
fn str_or_falls_back() {
    assert_eq!(str_or(&Some("x".to_string()), "d"), "x");
    assert_eq!(str_or(&None, "d"), "d");
}

#[test]
fn login_codes_parse_or_count_as_zero() {
    let code = |s: &str| LoginForm { code: s.to_string() }.code_value();
    assert_eq!(code("123456"), 123456);
    assert_eq!(code("+42"), 42);
    assert_eq!(code("4294967295"), 4294967295);
    assert_eq!(code("4294967296"), 0);
    assert_eq!(code("12a"), 0);
    assert_eq!(code(""), 0);
    assert_eq!(code("+"), 0);
    assert_eq!(code("-1"), 0);
}

#[test]
fn photos_dir_middleware_keeps_its_dir() {
    assert_eq!(PhotosDirMiddleware::new("/photos".to_string()).dir, "/photos");
}

#[test]
fn new_story_starts_empty() {
    let now = DateTime { year: 2022, month: 2, day: 3, hour: 4, minute: 5, second: 6 };
    let s = Story::new("trip".to_string(), "A trip".to_string(), "Long".to_string(), now);
    assert_eq!(s.name, "trip");
    assert_eq!(s.created_on, now);
    assert_eq!(s.last_updated, now);
    assert_eq!(s.latest_media, None);
    assert_eq!(s.media_count, 0);
}
