//! Polls syndication feeds and republishes their new entries: the adaptive poll-interval
//! estimator, the choice of new entries, the post body and its tags, the publish retry
//! rules, and the bookkeeping records that the poll and publish loops keep.

use vstd::prelude::*;

pub mod average_updater;
pub mod charset;
pub mod chars;
pub mod duration;
pub mod feed;
pub mod feed_info;
pub mod fresh;
pub mod iso8601;
pub mod order;
pub mod pattern;
pub mod post_item;
pub mod posted_item;
pub mod publish;
pub mod readable_string;
pub mod reload;
pub mod schedule;
pub mod schema;
pub mod status;
