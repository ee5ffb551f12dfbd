//! Replies: content rows attached to a buzz, under the same ownership
//! rules.
//!
//! A reply is created by an authenticated principal acting on its own
//! behalf, references the buzz it answers, owns a fresh rating row, and is
//! deleted only by its owner.

use crate::numstr::{parse_id, u64_dec, u64_to_string};
use crate::ApiError;
use vstd::prelude::*;
use vstd::string::*;

verus! {

/// The fields a reply creation request carries.
pub struct ReplyInput {
    pub user_id: String,
    pub buzz_id: String,
    pub reply_content: String,
    pub buzz_words: Option<String>,
    pub mentioned_users: Option<String>,
}

/// A page request for the replies of one buzz.
pub struct GetAllRepliesInput {
    pub page_size: i32,
    pub page_number: i32,
    pub buzz_id: String,
}

/// A stored reply row; the creation time is kept as unix seconds.
#[derive(Clone)]
pub struct Reply {
    pub id: i64,
    pub user_id: i64,
    pub buzz_id: i64,
    pub reply_content: String,
    pub buzz_words: Option<String>,
    pub mentioned_users: Option<String>,
    pub ratings_id: Option<i64>,
    pub created_at: i64,
}

/// The row inserted for a new reply; the store assigns the id.
pub struct NewReply {
    pub user_id: i64,
    pub buzz_id: i64,
    pub reply_content: String,
    pub buzz_words: Option<String>,
    pub mentioned_users: Option<String>,
    pub ratings_id: i64,
    pub created_at: i64,
}

/// A reply projected for callers: ids rendered as text, an absent rating id
/// rendered as `-1`.
pub struct ReplyResult {
    pub id: String,
    pub user_id: String,
    pub buzz_id: String,
    pub reply_content: String,
    pub buzz_words: Option<String>,
    pub mentioned_users: Option<String>,
    pub ratings_id: Option<String>,
    pub created_at: i64,
}

/// One page of replies.
pub struct AllReplyResult {
    pub replies: Vec<ReplyResult>,
    pub total_replies: i32,
    pub total_pages: i32,
    pub page_number: i32,
    pub page_size: i32,
}

/// Lays out the reply row to insert once its rating row exists.
///
/// The referenced buzz id arrives as text; anything but a canonical decimal
/// id fails with `Unavailable`.
pub fn build_reply(reply: ReplyInput, user_id: i64, ratings_id: i64, now: i64) -> (r: Result<
    NewReply,
    ApiError,
>)
    requires
        user_id >= 0,
        ratings_id >= 0,
    ensures
        r matches Ok(nr) ==> nr.buzz_id >= 0 && reply.buzz_id@ == u64_dec(nr.buzz_id as nat)
            && nr.user_id == user_id && nr.reply_content == reply.reply_content && nr.buzz_words
            == reply.buzz_words && nr.mentioned_users == reply.mentioned_users && nr.ratings_id
            == ratings_id && nr.created_at == now,
        r is Err ==> !(exists|v: nat| v <= i64::MAX && reply.buzz_id@ == u64_dec(v)),
        r matches Err(e) ==> e == ApiError::Unavailable,
{
    let buzz_id = match parse_id(reply.buzz_id.as_str()) {
        Some(v) => v,
        None => {
            return Err(ApiError::Unavailable);
        },
    };
    Ok(
        NewReply {
            user_id,
            buzz_id,
            reply_content: reply.reply_content,
            buzz_words: reply.buzz_words,
            mentioned_users: reply.mentioned_users,
            ratings_id,
            created_at: now,
        },
    )
}

/// Projects a stored reply row for callers.
pub fn reply_to_result(rp: Reply) -> (r: ReplyResult)
    requires
        rp.id >= 0,
        rp.user_id >= 0,
        rp.buzz_id >= 0,
        rp.ratings_id matches Some(rid) ==> rid >= 0,
    ensures
        r.id@ == u64_dec(rp.id as nat),
        r.user_id@ == u64_dec(rp.user_id as nat),
        r.buzz_id@ == u64_dec(rp.buzz_id as nat),
        r.reply_content == rp.reply_content,
        r.buzz_words == rp.buzz_words,
        r.mentioned_users == rp.mentioned_users,
        r.ratings_id matches Some(t) && t@ == (match rp.ratings_id {
            Some(rid) => u64_dec(rid as nat),
            None => seq!['-', '1'],
        }),
        r.created_at == rp.created_at,
{
    let ratings_text = match rp.ratings_id {
        Some(rid) => u64_to_string(rid as u64),
        None => {
            let t = String::from_str("-1");
            proof {
                reveal_strlit("-1");
                assert(t@ =~= seq!['-', '1']);
            }
            t
        },
    };
    ReplyResult {
        id: u64_to_string(rp.id as u64),
        user_id: u64_to_string(rp.user_id as u64),
        buzz_id: u64_to_string(rp.buzz_id as u64),
        reply_content: rp.reply_content,
        buzz_words: rp.buzz_words,
        mentioned_users: rp.mentioned_users,
        ratings_id: Some(ratings_text),
        created_at: rp.created_at,
    }
}

} // verus!
