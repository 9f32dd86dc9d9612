use vstd::prelude::*;

use crate::feed::Entry;

verus! {

/// The durable record of an entry that was decided to be published: its feed, title,
/// canonical link, publication time, and the post id once the posting endpoint gave one.
pub struct Model {
    pub id: i32,
    pub source: String,
    pub title: String,
    pub link: String,
    pub post_id: Option<String>,
    pub pub_date: i64,
}

/// The entry's title, or the empty string where it has none.
pub open spec fn title_of(e: Entry) -> Seq<char> {
    match e.title {
        Some(t) => t@,
        None => Seq::empty(),
    }
}

/// The entry's first link, or the empty string where it has none.
pub open spec fn link_of(e: Entry) -> Seq<char> {
    if e.links@.len() > 0 {
        e.links@[0]@
    } else {
        Seq::empty()
    }
}

/// The entry's title, or the empty string where it has none.
pub fn entry_title(e: &Entry) -> (r: String)
    ensures
        r@ == title_of(*e),
{
    match &e.title {
        Some(t) => t.clone(),
        None => String::new(),
    }
}

/// The entry's first link, or the empty string where it has none.
pub fn entry_link(e: &Entry) -> (r: String)
    ensures
        r@ == link_of(*e),
{
    if e.links.len() > 0 {
        e.links[0].clone()
    } else {
        String::new()
    }
}

impl Model {
    /// The record of `entry` of feed `source`, not posted yet, stored under `id`; an entry
    /// without a publication time counts as published at `now`.
    pub fn new_record(id: i32, source: &String, entry: &Entry, now: i64) -> (r: Self)
        ensures
            r.id == id,
            r.source@ == source@,
            r.title@ == title_of(*entry),
            r.link@ == link_of(*entry),
            r.post_id is None,
            r.pub_date == match entry.pub_date() {
                Some(t) => t,
                None => now,
            },
    {
        Model {
            id,
            source: source.clone(),
            title: entry_title(entry),
            link: entry_link(entry),
            post_id: None,
            pub_date: entry.pub_date_utc_or(now),
        }
    }

    /// The same record, with the post id that the posting endpoint returned.
    pub fn with_post_id(self, post_id: String) -> (r: Self)
        ensures
            r.id == self.id,
            r.source == self.source,
            r.title == self.title,
            r.link == self.link,
            r.pub_date == self.pub_date,
            r.post_id == Some(post_id),
    {
        Model { post_id: Some(post_id), ..self }
    }
}

} // verus!
