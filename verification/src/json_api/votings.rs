//! The bind voting endpoints.
use vstd::prelude::*;
use crate::http::HttpStatus;
use crate::json_api::utils::{not_found_status, ok_status, status_not_found};
use crate::json_storage::{voted, without, JsonDatabase};
use crate::text::{dec_int, lowercased};

verus! {

/// A recorded vote.
pub struct BindVoting {
    pub voted_bind_id: i32,
    pub vote: String,
}

/// A request to vote on a bind.
pub struct CreateBindVoteRequest {
    pub voted_bind_id: i32,
    pub vote: String,
}

/// A request to withdraw one's vote on a bind.
pub struct DeleteBindVoteByUserRequest {
    pub voted_bind_id: i32,
}

/// `POST /bind_votings/addBindVoting` (signed-in users): the user's vote.
pub fn create_bind_vote(db: &mut JsonDatabase, user_id: i64, request: CreateBindVoteRequest) -> (r: Result<
    BindVoting,
    HttpStatus,
>)
    requires
        old(db).wf(),
    ensures
        final(db).wf(),
        !old(db).binds_view().dom().contains(dec_int(request.voted_bind_id as int)) ==> r == Err::<
            BindVoting,
            HttpStatus,
        >(not_found_status("Bind not found"@)),
        old(db).binds_view().dom().contains(dec_int(request.voted_bind_id as int)) ==> {
            let d = old(db).binds_view()[dec_int(request.voted_bind_id as int)];
            let n = final(db).binds_view()[dec_int(request.voted_bind_id as int)];
            let t = lowercased(request.vote@);
            &&& t == "upvote"@ ==> (r matches Ok(v) && v.voted_bind_id == request.voted_bind_id && v.vote
                == request.vote) && (n.upvote@, n.downvote@) == voted(d, user_id, true)
            &&& t == "downvote"@ ==> (r matches Ok(v) && v.voted_bind_id == request.voted_bind_id && v.vote
                == request.vote) && (n.upvote@, n.downvote@) == voted(d, user_id, false)
            &&& t != "upvote"@ && t != "downvote"@ ==> r == Err::<BindVoting, HttpStatus>(
                not_found_status("Invalid vote type"@),
            )
        },
{
    match db.add_vote(request.voted_bind_id, user_id, request.vote.as_str()) {
        Ok(_) => Ok(BindVoting { voted_bind_id: request.voted_bind_id, vote: request.vote }),
        Err(e) => Err(status_not_found("adding bind vote", e.as_str())),
    }
}

/// `POST /bind_votings/deleteBindVoting` (signed-in users): 1 on success.
pub fn delete_bind_vote(db: &mut JsonDatabase, user_id: i64, request: DeleteBindVoteByUserRequest) -> (r: Result<
    usize,
    HttpStatus,
>)
    requires
        old(db).wf(),
    ensures
        final(db).wf(),
        !old(db).binds_view().dom().contains(dec_int(request.voted_bind_id as int)) ==> r == Err::<
            usize,
            HttpStatus,
        >(not_found_status("Bind not found"@)),
        old(db).binds_view().dom().contains(dec_int(request.voted_bind_id as int)) ==> {
            let d = old(db).binds_view()[dec_int(request.voted_bind_id as int)];
            let n = final(db).binds_view()[dec_int(request.voted_bind_id as int)];
            &&& r == Ok::<usize, HttpStatus>(1)
            &&& n.upvote@ == without(d.upvote@, user_id)
            &&& n.downvote@ == without(d.downvote@, user_id)
        },
{
    match db.remove_vote(request.voted_bind_id, user_id) {
        Ok(_) => Ok(1),
        Err(e) => Err(status_not_found("removing bind vote", e.as_str())),
    }
}

/// CORS preflight for voting.
pub fn options_create_bind_vote() -> (s: HttpStatus)
    ensures
        s == HttpStatus::Success,
{
    ok_status()
}

/// CORS preflight for withdrawing a vote.
pub fn options_delete_bind_vote() -> (s: HttpStatus)
    ensures
        s == HttpStatus::Success,
{
    ok_status()
}

} // verus!
