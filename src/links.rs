//! Links to a media item's thumbnail, as shown in listings.
use vstd::prelude::*;
use crate::datetime::{day_text, time_text, push_day_text, push_time_text};
use crate::models::Media;

verus! {

/// A link to one media item's thumbnail with an optional title and label.
#[derive(Clone, Debug)]
pub struct PhotoLink {
    pub title: Option<String>,
    pub href: String,
    pub id: String,
    pub label: Option<String>,
}

/// `/photo/<id>/thumbnail`.
pub open spec fn thumbnail_href(id: Seq<char>) -> Seq<char> {
    seq!['/', 'p', 'h', 'o', 't', 'o', '/'] + id + seq!['/', 't', 'h', 'u', 'm', 'b', 'n', 'a', 'i', 'l']
}

fn href_of(id: &String) -> (r: String)
    ensures
        r@ == thumbnail_href(id@),
{
    proof {
        reveal_strlit("/photo/");
        reveal_strlit("/thumbnail");
    }
    let mut r = String::from_str("/photo/");
    r.append(id.as_str());
    r.append("/thumbnail");
    assert(r@ =~= thumbnail_href(id@));
    r
}

fn time_label(p: &Media) -> (r: Option<String>)
    ensures
        match p.date {
            Some(d) => r matches Some(l) && l@ == time_text(d),
            None => r is None,
        },
{
    match &p.date {
        Some(d) => {
            let mut l = String::new();
            push_time_text(&mut l, d);
            assert(l@ =~= time_text(*d));
            Some(l)
        },
        None => None,
    }
}

impl PhotoLink {
    /// A link titled with the capture day (`YYYY-MM-DD`) and labelled with
    /// the time of day (`HH:MM:SS`), both absent without a capture date.
    pub fn date_title(p: &Media) -> (r: PhotoLink)
        ensures
            r.href@ == thumbnail_href(p.id@),
            r.id@ == p.id@,
            match p.date {
                Some(d) => (r.title matches Some(t) && t@ == day_text(d))
                    && (r.label matches Some(l) && l@ == time_text(d)),
                None => r.title is None && r.label is None,
            },
    {
        let title = match &p.date {
            Some(d) => {
                let mut t = String::new();
                push_day_text(&mut t, d);
                assert(t@ =~= day_text(*d));
                Some(t)
            },
            None => None,
        };
        PhotoLink { title, href: href_of(&p.id), id: p.id.clone(), label: time_label(p) }
    }

    /// A link without a title, labelled with the time of day of the capture.
    pub fn no_title(p: &Media) -> (r: PhotoLink)
        ensures
            r.title is None,
            r.href@ == thumbnail_href(p.id@),
            r.id@ == p.id@,
            match p.date {
                Some(d) => r.label matches Some(l) && l@ == time_text(d),
                None => r.label is None,
            },
    {
        PhotoLink { title: None, href: href_of(&p.id), id: p.id.clone(), label: time_label(p) }
    }
}

/// The text of an optional string, or `default` when there is none.
pub fn str_or<'t>(o: &'t Option<String>, default: &'t str) -> (r: &'t str)
    ensures
        r@ == match o {
            Some(c) => c@,
            None => default@,
        },
{
    match o {
        Some(content) => content.as_str(),
        None => default,
    }
}

/// The lowercase English name of month `n` (1 to 12).
pub open spec fn month_name_of(n: i32) -> Seq<char> {
    if n == 1 { "january"@ }
    else if n == 2 { "february"@ }
    else if n == 3 { "march"@ }
    else if n == 4 { "april"@ }
    else if n == 5 { "may"@ }
    else if n == 6 { "june"@ }
    else if n == 7 { "july"@ }
    else if n == 8 { "august"@ }
    else if n == 9 { "september"@ }
    else if n == 10 { "october"@ }
    else if n == 11 { "november"@ }
    else if n == 12 { "december"@ }
    else { "non-month"@ }
}

/// The lowercase English name of month `n`, or "non-month" outside 1 to 12.
pub fn monthname(n: i32) -> (r: &'static str)
    ensures
        r@ == month_name_of(n),
{
    match n {
        1 => "january",
        2 => "february",
        3 => "march",
        4 => "april",
        5 => "may",
        6 => "june",
        7 => "july",
        8 => "august",
        9 => "september",
        10 => "october",
        11 => "november",
        12 => "december",
        _ => "non-month",
    }
}

} // verus!
