//! The binds endpoints.
use vstd::prelude::*;
use crate::http::HttpStatus;
use crate::json_api::models::{bind_to_public, count_u32, self_vote_spec, Bind, BindPublic};
use crate::json_api::utils::{
    conflict_status, not_found_status, ok_status, status_conflict, status_not_found, status_update,
    update_status,
};
use crate::json_storage::{sorted_by_id, next_id_spec, text_taken, BindData, JsonDatabase};
use crate::text::{dec_int, opt_string_view};

verus! {

/// A request to add a bind.
pub struct CreateBindRequest {
    pub author: String,
    pub text: String,
}

/// A request to delete a bind.
pub struct DeleteBindRequest {
    pub id: i32,
}

/// `GET /binds/<id>`: the public view for the viewer, if signed in.
pub fn get_bind(db: &JsonDatabase, bind_id: i32, viewer: Option<i64>) -> (r: Result<BindPublic, HttpStatus>)
    requires
        db.wf(),
    ensures
        db.binds_view().dom().contains(dec_int(bind_id as int)) ==> (r matches Ok(p) && p.id == bind_id
            && p.author@ == db.binds_view()[dec_int(bind_id as int)].author@ && p.text@
            == db.binds_view()[dec_int(bind_id as int)].text@),
        !db.binds_view().dom().contains(dec_int(bind_id as int)) ==> r == Err::<BindPublic, HttpStatus>(
            not_found_status("Bind not found"@),
        ),
{
    match db.get_bind(bind_id) {
        Ok(b) => Ok(bind_to_public(&b, viewer)),
        Err(e) => Err(status_not_found("getting bind", e.as_str())),
    }
}

/// `GET /binds/getBinds`: every bind's public view, sorted by ID.
pub fn list_binds(db: &JsonDatabase, viewer: Option<i64>) -> (r: Vec<BindPublic>)
    requires
        db.wf(),
    ensures
        r@.len() == db.bind_pairs().len(),
        forall|j: int| 0 <= j < r@.len() ==> {
            let (id, pos) = #[trigger] sorted_by_id(db.bind_pairs(), db.bind_pairs().len() as int)[j];
            let d = db.bind_pairs()[pos].1;
            &&& r@[j].id == id
            &&& r@[j].author@ == d.author@
            &&& r@[j].text@ == d.text@
            &&& r@[j].upvote_count == count_u32(d.upvote@.len())
            &&& r@[j].downvote_count == count_u32(d.downvote@.len())
            &&& opt_string_view(r@[j].self_vote) == self_vote_spec(d.upvote@, d.downvote@, viewer)
        },
{
    let binds = db.get_all_binds();
    let mut out: Vec<BindPublic> = Vec::new();
    let mut i: usize = 0;
    while i < binds.len()
        invariant
            i <= binds@.len(),
            out@.len() == i,
            binds@.len() == db.bind_pairs().len(),
            forall|j: int| 0 <= j < binds@.len() ==> {
                let (id, pos) = #[trigger] sorted_by_id(db.bind_pairs(), db.bind_pairs().len() as int)[j];
                &&& binds@[j].id == id
                &&& binds@[j].author == db.bind_pairs()[pos].1.author
                &&& binds@[j].text == db.bind_pairs()[pos].1.text
                &&& binds@[j].upvote@ == db.bind_pairs()[pos].1.upvote@
                &&& binds@[j].downvote@ == db.bind_pairs()[pos].1.downvote@
            },
            forall|j: int| 0 <= j < i ==> {
                let (id, pos) = #[trigger] sorted_by_id(db.bind_pairs(), db.bind_pairs().len() as int)[j];
                let d = db.bind_pairs()[pos].1;
                &&& out@[j].id == id
                &&& out@[j].author@ == d.author@
                &&& out@[j].text@ == d.text@
                &&& out@[j].upvote_count == count_u32(d.upvote@.len())
                &&& out@[j].downvote_count == count_u32(d.downvote@.len())
                &&& opt_string_view(out@[j].self_vote) == self_vote_spec(d.upvote@, d.downvote@, viewer)
            },
        decreases binds@.len() - i,
    {
        let ghost e = sorted_by_id(db.bind_pairs(), db.bind_pairs().len() as int)[i as int];
        out.push(bind_to_public(&binds[i], viewer));
        i = i + 1;
    }
    out
}

/// `POST /binds/addBind` (admins).
pub fn create_bind(db: &mut JsonDatabase, request: CreateBindRequest) -> (r: Result<Bind, HttpStatus>)
    requires
        old(db).wf(),
        next_id_spec(old(db).bind_pairs()) <= i32::MAX,
    ensures
        final(db).wf(),
        text_taken(old(db).binds_view(), request.text@, None) ==> r == Err::<Bind, HttpStatus>(
            conflict_status("Bind text already exists"@),
        ) && final(db).binds_view() == old(db).binds_view(),
        !text_taken(old(db).binds_view(), request.text@, None) ==> (r matches Ok(b) && b.id == next_id_spec(
            old(db).bind_pairs(),
        ) && b.author == request.author && b.text == request.text && b.upvote@.len() == 0
            && b.downvote@.len() == 0),
{
    match db.create_bind(request.author, request.text) {
        Ok(b) => Ok(b),
        Err(e) => Err(status_conflict("creating bind", e.as_str())),
    }
}

/// `POST /binds/deleteBind` (admins): 1 on success.
pub fn delete_bind(db: &mut JsonDatabase, request: DeleteBindRequest) -> (r: Result<usize, HttpStatus>)
    requires
        old(db).wf(),
    ensures
        final(db).wf(),
        final(db).binds_view() == old(db).binds_view().remove(dec_int(request.id as int)),
        old(db).binds_view().dom().contains(dec_int(request.id as int)) ==> r == Ok::<usize, HttpStatus>(1),
        !old(db).binds_view().dom().contains(dec_int(request.id as int)) ==> r == Err::<usize, HttpStatus>(
            not_found_status("Bind not found"@),
        ),
{
    match db.delete_bind(request.id) {
        Ok(_) => Ok(1),
        Err(e) => Err(status_not_found("deleting bind", e.as_str())),
    }
}

/// What updating bind `id` with `bind` does to the binds: an unknown ID or a text another
/// bind has is refused and changes nothing; else the bind takes `bind`'s fields and the
/// others stay.
pub open spec fn bind_update_outcome(
    before: Map<Seq<char>, BindData>,
    after: Map<Seq<char>, BindData>,
    id: i32,
    bind: Bind,
    r: Result<Bind, HttpStatus>,
) -> bool {
    let key = dec_int(id as int);
    if !before.dom().contains(key) {
        r == Err::<Bind, HttpStatus>(update_status("Bind not found"@)) && after == before
    } else if text_taken(before, bind.text@, Some(key)) {
        r == Err::<Bind, HttpStatus>(update_status("Bind text already exists"@)) && after == before
    } else {
        &&& r matches Ok(b) && b.id == id && b.author == bind.author && b.text == bind.text && b.upvote@
            == bind.upvote@ && b.downvote@ == bind.downvote@
        &&& after.dom() == before.dom()
        &&& after[key].author == bind.author
        &&& after[key].text == bind.text
        &&& after[key].upvote@ == bind.upvote@
        &&& after[key].downvote@ == bind.downvote@
        &&& forall|k: Seq<char>| k != key ==> #[trigger] after.dom().contains(k) ==> after[k] == before[k]
    }
}

fn update_bind_with(db: &mut JsonDatabase, id: i32, bind: Bind, context: &str) -> (r: Result<Bind, HttpStatus>)
    requires
        old(db).wf(),
    ensures
        final(db).wf(),
        final(db).commands_view() == old(db).commands_view(),
        final(db).suggestions_view() == old(db).suggestions_view(),
        bind_update_outcome(old(db).binds_view(), final(db).binds_view(), id, bind, r),
{
    match db.update_bind(id, bind.author, bind.text, bind.upvote, bind.downvote) {
        Ok(b) => Ok(b),
        Err(e) => Err(status_update(context, e.as_str())),
    }
}

/// `POST /binds/updateBind` (admins): the bind's own ID names it.
pub fn update_bind(db: &mut JsonDatabase, bind: Bind) -> (r: Result<Bind, HttpStatus>)
    requires
        old(db).wf(),
    ensures
        final(db).wf(),
        final(db).commands_view() == old(db).commands_view(),
        final(db).suggestions_view() == old(db).suggestions_view(),
        bind_update_outcome(old(db).binds_view(), final(db).binds_view(), bind.id, bind, r),
{
    let id = bind.id;
    update_bind_with(db, id, bind, "updating bind")
}

/// `PUT /binds/<id>` (admins): the path names the bind.
pub fn update_bind_by_id(db: &mut JsonDatabase, bind_id: i32, bind: Bind) -> (r: Result<Bind, HttpStatus>)
    requires
        old(db).wf(),
    ensures
        final(db).wf(),
        final(db).commands_view() == old(db).commands_view(),
        final(db).suggestions_view() == old(db).suggestions_view(),
        bind_update_outcome(old(db).binds_view(), final(db).binds_view(), bind_id, bind, r),
{
    update_bind_with(db, bind_id, bind, "updating bind by id")
}

/// CORS preflight for listing binds.
pub fn options_list_binds() -> (s: HttpStatus)
    ensures
        s == HttpStatus::Success,
{
    ok_status()
}

/// CORS preflight for adding a bind.
pub fn options_create_bind() -> (s: HttpStatus)
    ensures
        s == HttpStatus::Success,
{
    ok_status()
}

/// CORS preflight for deleting a bind.
pub fn options_delete_bind() -> (s: HttpStatus)
    ensures
        s == HttpStatus::Success,
{
    ok_status()
}

/// CORS preflight for updating a bind.
pub fn options_update_bind() -> (s: HttpStatus)
    ensures
        s == HttpStatus::Success,
{
    ok_status()
}

} // verus!
