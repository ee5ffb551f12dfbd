//! Buzzes: the primary content rows and the rules that guard them.
//!
//! A buzz is created by an authenticated principal acting on its own behalf
//! and deleted only by its owner; a fresh rating row is created beside it.
//! Fetching and pagination are the store's business; the gates, the row
//! layout, and the caller-facing projection are computed and verified here.

use crate::numstr::{u64_dec, u64_to_string};
use vstd::prelude::*;
use vstd::string::*;

verus! {

/// The fields a creation request carries.
pub struct BuzzInput {
    pub user_id: String,
    pub description: String,
    pub image_link: Option<String>,
    pub video_link: Option<String>,
    pub buzz_words: Option<String>,
    pub mentioned_users: Option<String>,
}

/// A page request for the buzz feed.
pub struct GetAllBuzzInput {
    pub page_size: i32,
    pub page_number: i32,
    pub user_id: Option<String>,
}

/// A stored buzz row; the creation time is kept as unix seconds.
#[derive(Clone)]
pub struct Buzz {
    pub id: i64,
    pub user_id: i64,
    pub description: String,
    pub image_link: Option<String>,
    pub video_link: Option<String>,
    pub buzz_words: Option<String>,
    pub mentioned_users: Option<String>,
    pub ratings_id: Option<i64>,
    pub created_at: i64,
}

/// The row inserted for a new buzz; the store assigns the id.
pub struct NewBuzz {
    pub user_id: i64,
    pub description: String,
    pub image_link: Option<String>,
    pub video_link: Option<String>,
    pub buzz_words: Option<String>,
    pub mentioned_users: Option<String>,
    pub ratings_id: i64,
    pub created_at: i64,
}

/// A buzz projected for callers: ids rendered as text, an absent rating id
/// rendered as `-1`.
pub struct BuzzResult {
    pub id: String,
    pub user_id: String,
    pub description: String,
    pub image_link: Option<String>,
    pub video_link: Option<String>,
    pub buzz_words: Option<String>,
    pub mentioned_users: Option<String>,
    pub ratings_id: Option<String>,
    pub created_at: i64,
}

/// One feed page.
pub struct AllBuzzResult {
    pub buzzes: Vec<BuzzResult>,
    pub total_buzzes: i32,
    pub total_pages: i32,
    pub page_number: i32,
    pub page_size: i32,
}

/// Lays out the buzz row to insert once its rating row exists.
pub fn build_buzz(buzz: BuzzInput, user_id: i64, ratings_id: i64, now: i64) -> (r: NewBuzz)
    requires
        user_id >= 0,
        ratings_id >= 0,
    ensures
        r.user_id == user_id,
        r.description == buzz.description,
        r.image_link == buzz.image_link,
        r.video_link == buzz.video_link,
        r.buzz_words == buzz.buzz_words,
        r.mentioned_users == buzz.mentioned_users,
        r.ratings_id == ratings_id,
        r.created_at == now,
{
    NewBuzz {
        user_id,
        description: buzz.description,
        image_link: buzz.image_link,
        video_link: buzz.video_link,
        buzz_words: buzz.buzz_words,
        mentioned_users: buzz.mentioned_users,
        ratings_id,
        created_at: now,
    }
}

/// Projects a stored buzz row for callers.
pub fn buzz_to_result(b: Buzz) -> (r: BuzzResult)
    requires
        b.id >= 0,
        b.user_id >= 0,
        b.ratings_id matches Some(rid) ==> rid >= 0,
    ensures
        r.id@ == u64_dec(b.id as nat),
        r.user_id@ == u64_dec(b.user_id as nat),
        r.description == b.description,
        r.image_link == b.image_link,
        r.video_link == b.video_link,
        r.buzz_words == b.buzz_words,
        r.mentioned_users == b.mentioned_users,
        r.ratings_id matches Some(t) && t@ == (match b.ratings_id {
            Some(rid) => u64_dec(rid as nat),
            None => seq!['-', '1'],
        }),
        r.created_at == b.created_at,
{
    let ratings_text = match b.ratings_id {
        Some(rid) => u64_to_string(rid as u64),
        None => {
            let t = String::from_str("-1");
            proof {
                reveal_strlit("-1");
                assert(t@ =~= seq!['-', '1']);
            }
            t
        },
    };
    BuzzResult {
        id: u64_to_string(b.id as u64),
        user_id: u64_to_string(b.user_id as u64),
        description: b.description,
        image_link: b.image_link,
        video_link: b.video_link,
        buzz_words: b.buzz_words,
        mentioned_users: b.mentioned_users,
        ratings_id: Some(ratings_text),
        created_at: b.created_at,
    }
}

} // verus!
