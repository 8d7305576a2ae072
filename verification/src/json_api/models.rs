//! Records of the JSON API.
use vstd::prelude::*;
use crate::text::owned;

verus! {

/// A bind with the Steam IDs that voted on it.
pub struct Bind {
    pub id: i32,
    pub author: String,
    pub text: String,
    pub upvote: Vec<i64>,
    pub downvote: Vec<i64>,
}

/// The public view of a bind: vote counts instead of voter IDs, and the viewer's own
/// vote when known.
pub struct BindPublic {
    pub id: i32,
    pub author: String,
    pub text: String,
    pub upvote_count: u32,
    pub downvote_count: u32,
    pub self_vote: Option<String>,
}

/// A proposed bind.
pub struct BindSuggestion {
    pub id: i32,
    pub author: String,
    pub text: String,
    pub proposed_by: String,
}

/// A chat command with its description.
pub struct Command {
    pub id: i32,
    pub command: String,
    pub description: String,
}

/// The viewer's own vote on a bind: `"Upvote"`, `"Downvote"`, or none.
pub open spec fn self_vote_spec(upvote: Seq<i64>, downvote: Seq<i64>, viewer: Option<i64>) -> Option<Seq<char>> {
    match viewer {
        Some(v) => if upvote.contains(v) {
            Some("Upvote"@)
        } else if downvote.contains(v) {
            Some("Downvote"@)
        } else {
            None
        },
        None => None,
    }
}

/// `len() as u32`: the count, truncated to 32 bits.
pub open spec fn count_u32(n: nat) -> u32 {
    n as u32
}

/// The public view of a bind for a viewer.
pub fn bind_to_public(bind: &Bind, viewer_steam_id: Option<i64>) -> (p: BindPublic)
    ensures
        p.id == bind.id,
        p.author@ == bind.author@,
        p.text@ == bind.text@,
        p.upvote_count == count_u32(bind.upvote@.len()),
        p.downvote_count == count_u32(bind.downvote@.len()),
        match p.self_vote {
            Some(s) => self_vote_spec(bind.upvote@, bind.downvote@, viewer_steam_id) == Some(s@),
            None => self_vote_spec(bind.upvote@, bind.downvote@, viewer_steam_id) is None,
        },
{
    let self_vote = match viewer_steam_id {
        Some(v) => if crate::config::contains_id(bind.upvote.as_slice(), v) {
            proof {
                reveal_strlit("Upvote");
            }
            Some(owned("Upvote"))
        } else if crate::config::contains_id(bind.downvote.as_slice(), v) {
            Some(owned("Downvote"))
        } else {
            None
        },
        None => None,
    };
    #[verifier::truncate]
    let up: u32 = bind.upvote.len() as u32;
    #[verifier::truncate]
    let down: u32 = bind.downvote.len() as u32;
    BindPublic {
        id: bind.id,
        author: bind.author.clone(),
        text: bind.text.clone(),
        upvote_count: up,
        downvote_count: down,
        self_vote,
    }
}

} // verus!
