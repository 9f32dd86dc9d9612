use vstd::prelude::*;

verus! {

/// The record of an entry that was posted: its feed, title, canonical link, the post id
/// the endpoint gave, and its publication time in seconds from the Unix epoch.
pub struct Model {
    pub id: i32,
    pub source: String,
    pub title: String,
    pub link: String,
    pub post_id: String,
    pub pub_date: i64,
}

} // verus!
