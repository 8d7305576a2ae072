//! The bind suggestions endpoints.
use vstd::prelude::*;
use crate::http::HttpStatus;
use crate::json_api::models::BindSuggestion;
use crate::json_api::utils::{
    conflict_status, not_found_status, ok_status, status_conflict, status_not_found, status_update,
    update_status,
};
use crate::json_storage::{sorted_by_id, next_id_spec, text_taken, BindSuggestionData, JsonDatabase};
use crate::text::{dec_int, i64_to_string};

verus! {

/// A request to suggest a bind.
pub struct CreateBindSuggestionRequest {
    pub author: String,
    pub text: String,
}

/// A request to delete a bind suggestion.
pub struct DeleteBindSuggestionRequest {
    pub id: i32,
}

/// `GET /bind_suggestions/<id>`.
pub fn get_bind_suggestion(db: &JsonDatabase, bind_suggestion_id: i32) -> (r: Result<BindSuggestion, HttpStatus>)
    requires
        db.wf(),
    ensures
        db.suggestions_view().dom().contains(dec_int(bind_suggestion_id as int)) ==> (r matches Ok(s) && s.id
            == bind_suggestion_id && s.text == db.suggestions_view()[dec_int(bind_suggestion_id as int)].text),
        !db.suggestions_view().dom().contains(dec_int(bind_suggestion_id as int)) ==> r == Err::<
            BindSuggestion,
            HttpStatus,
        >(not_found_status("Bind suggestion not found"@)),
{
    match db.get_bind_suggestion(bind_suggestion_id) {
        Ok(s) => Ok(s),
        Err(e) => Err(status_not_found("getting bind suggestion", e.as_str())),
    }
}

/// `GET /bind_suggestions/getBindSuggestions`.
pub fn list_bind_suggestions(db: &JsonDatabase) -> (r: Vec<BindSuggestion>)
    requires
        db.wf(),
    ensures
        r@.len() == db.suggestion_pairs().len(),
        forall|j: int| 0 <= j < r@.len() ==> {
            let (id, pos) = #[trigger] sorted_by_id(db.suggestion_pairs(), db.suggestion_pairs().len() as int)[j];
            &&& r@[j].id == id
            &&& r@[j].author == db.suggestion_pairs()[pos].1.author
            &&& r@[j].text == db.suggestion_pairs()[pos].1.text
            &&& r@[j].proposed_by == db.suggestion_pairs()[pos].1.proposed_by
        },
{
    db.get_all_bind_suggestions()
}

/// `POST /bind_suggestions/addBindSuggestion` (signed-in users): proposed by the user.
pub fn create_bind_suggestion(db: &mut JsonDatabase, user_id: i64, request: CreateBindSuggestionRequest) -> (r:
    Result<BindSuggestion, HttpStatus>)
    requires
        old(db).wf(),
        next_id_spec(old(db).suggestion_pairs()) <= i32::MAX,
    ensures
        final(db).wf(),
        text_taken(old(db).suggestions_view(), request.text@, None) ==> r == Err::<BindSuggestion, HttpStatus>(
            conflict_status("Bind suggestion text already exists"@),
        ) && final(db).suggestions_view() == old(db).suggestions_view(),
        !text_taken(old(db).suggestions_view(), request.text@, None) ==> (r matches Ok(s) && s.id
            == next_id_spec(old(db).suggestion_pairs()) && s.author == request.author && s.text == request.text
            && s.proposed_by@ == dec_int(user_id as int)),
{
    let proposed_by = i64_to_string(user_id);
    match db.create_bind_suggestion(request.author, request.text, proposed_by) {
        Ok(s) => Ok(s),
        Err(e) => Err(status_conflict("creating bind suggestion", e.as_str())),
    }
}

/// `POST /bind_suggestions/deleteBindSuggestion` (admins): 1 on success.
pub fn delete_bind_suggestion(db: &mut JsonDatabase, request: DeleteBindSuggestionRequest) -> (r: Result<
    usize,
    HttpStatus,
>)
    requires
        old(db).wf(),
    ensures
        final(db).wf(),
        final(db).suggestions_view() == old(db).suggestions_view().remove(dec_int(request.id as int)),
        old(db).suggestions_view().dom().contains(dec_int(request.id as int)) ==> r == Ok::<usize, HttpStatus>(1),
        !old(db).suggestions_view().dom().contains(dec_int(request.id as int)) ==> r == Err::<usize, HttpStatus>(
            not_found_status("Bind suggestion not found"@),
        ),
{
    match db.delete_bind_suggestion(request.id) {
        Ok(_) => Ok(1),
        Err(e) => Err(status_not_found("deleting bind suggestion", e.as_str())),
    }
}

/// What updating bind suggestion `id` with `s` does to the suggestions: an unknown ID or
/// a text another suggestion has is refused and changes nothing; else the suggestion
/// takes `s`'s fields.
pub open spec fn suggestion_update_outcome(
    before: Map<Seq<char>, BindSuggestionData>,
    after: Map<Seq<char>, BindSuggestionData>,
    id: i32,
    s: BindSuggestion,
    r: Result<BindSuggestion, HttpStatus>,
) -> bool {
    let key = dec_int(id as int);
    if !before.dom().contains(key) {
        r == Err::<BindSuggestion, HttpStatus>(update_status("Bind suggestion not found"@)) && after == before
    } else if text_taken(before, s.text@, Some(key)) {
        r == Err::<BindSuggestion, HttpStatus>(update_status("Bind suggestion text already exists"@)) && after
            == before
    } else {
        &&& r matches Ok(x) && x.id == id && x.author == s.author && x.text == s.text && x.proposed_by
            == s.proposed_by
        &&& after == before.insert(
            key,
            BindSuggestionData { author: s.author, text: s.text, proposed_by: s.proposed_by },
        )
    }
}

fn update_suggestion_with(db: &mut JsonDatabase, id: i32, s: BindSuggestion, context: &str) -> (r: Result<
    BindSuggestion,
    HttpStatus,
>)
    requires
        old(db).wf(),
    ensures
        final(db).wf(),
        final(db).commands_view() == old(db).commands_view(),
        final(db).binds_view() == old(db).binds_view(),
        suggestion_update_outcome(old(db).suggestions_view(), final(db).suggestions_view(), id, s, r),
{
    match db.update_bind_suggestion(id, s.author, s.text, s.proposed_by) {
        Ok(x) => Ok(x),
        Err(e) => Err(status_update(context, e.as_str())),
    }
}

/// `POST /bind_suggestions/updateBindSuggestion` (admins): the suggestion's own ID names it.
pub fn update_bind_suggestion(db: &mut JsonDatabase, s: BindSuggestion) -> (r: Result<BindSuggestion, HttpStatus>)
    requires
        old(db).wf(),
    ensures
        final(db).wf(),
        final(db).commands_view() == old(db).commands_view(),
        final(db).binds_view() == old(db).binds_view(),
        suggestion_update_outcome(old(db).suggestions_view(), final(db).suggestions_view(), s.id, s, r),
{
    let id = s.id;
    update_suggestion_with(db, id, s, "updating bind suggestion")
}

/// `PUT /bind_suggestions/<id>` (admins): the path names the suggestion.
pub fn update_bind_suggestion_by_id(db: &mut JsonDatabase, bind_suggestion_id: i32, s: BindSuggestion) -> (r:
    Result<BindSuggestion, HttpStatus>)
    requires
        old(db).wf(),
    ensures
        final(db).wf(),
        final(db).commands_view() == old(db).commands_view(),
        final(db).binds_view() == old(db).binds_view(),
        suggestion_update_outcome(
            old(db).suggestions_view(),
            final(db).suggestions_view(),
            bind_suggestion_id,
            s,
            r,
        ),
{
    update_suggestion_with(db, bind_suggestion_id, s, "updating bind suggestion by id")
}

/// CORS preflight for suggesting a bind.
pub fn options_create_bind_suggestion() -> (s: HttpStatus)
    ensures
        s == HttpStatus::Success,
{
    ok_status()
}

/// CORS preflight for deleting a bind suggestion.
pub fn options_delete_bind_suggestion() -> (s: HttpStatus)
    ensures
        s == HttpStatus::Success,
{
    ok_status()
}

/// CORS preflight for updating a bind suggestion.
pub fn options_update_bind_suggestion() -> (s: HttpStatus)
    ensures
        s == HttpStatus::Success,
{
    ok_status()
}

} // verus!
