//! The commands endpoints.
use vstd::prelude::*;
use crate::http::HttpStatus;
use crate::json_api::models::Command;
use crate::json_api::utils::{
    conflict_status, not_found_status, ok_status, status_conflict, status_not_found, status_update,
    update_status,
};
use crate::json_storage::{sorted_by_id, next_id_spec, text_taken, CommandData, JsonDatabase};
use crate::text::dec_int;

verus! {

/// A request to add a command.
pub struct CreateCommandRequest {
    pub command: String,
    pub description: String,
}

/// A request to delete a command.
pub struct DeleteCommandRequest {
    pub id: i32,
}

/// `GET /commands/<id>`.
pub fn get_command(db: &JsonDatabase, command_id: i32) -> (r: Result<Command, HttpStatus>)
    requires
        db.wf(),
    ensures
        db.commands_view().dom().contains(dec_int(command_id as int)) ==> (r matches Ok(c) && c.id
            == command_id && c.command == db.commands_view()[dec_int(command_id as int)].command
            && c.description == db.commands_view()[dec_int(command_id as int)].description),
        !db.commands_view().dom().contains(dec_int(command_id as int)) ==> r == Err::<Command, HttpStatus>(
            not_found_status("Command not found"@),
        ),
{
    match db.get_command(command_id) {
        Ok(c) => Ok(c),
        Err(e) => Err(status_not_found("getting command", e.as_str())),
    }
}

/// `GET /commands/getCommands`.
pub fn list_commands(db: &JsonDatabase) -> (r: Vec<Command>)
    requires
        db.wf(),
    ensures
        r@.len() == db.command_pairs().len(),
        forall|j: int| 0 <= j < r@.len() ==> {
            let (id, pos) = #[trigger] sorted_by_id(db.command_pairs(), db.command_pairs().len() as int)[j];
            &&& r@[j].id == id
            &&& r@[j].command == db.command_pairs()[pos].1.command
            &&& r@[j].description == db.command_pairs()[pos].1.description
        },
{
    db.get_all_commands()
}

/// `POST /commands/addCommand` (admins).
pub fn create_command(db: &mut JsonDatabase, request: CreateCommandRequest) -> (r: Result<Command, HttpStatus>)
    requires
        old(db).wf(),
        next_id_spec(old(db).command_pairs()) <= i32::MAX,
    ensures
        final(db).wf(),
        text_taken(old(db).commands_view(), request.command@, None) ==> r == Err::<Command, HttpStatus>(
            conflict_status("Command already exists"@),
        ) && final(db).commands_view() == old(db).commands_view(),
        !text_taken(old(db).commands_view(), request.command@, None) ==> (r matches Ok(c) && c.id
            == next_id_spec(old(db).command_pairs()) && c.command == request.command && c.description
            == request.description) && final(db).commands_view() == old(db).commands_view().insert(
            dec_int(next_id_spec(old(db).command_pairs())),
            CommandData { command: request.command, description: request.description },
        ),
{
    match db.create_command(request.command, request.description) {
        Ok(c) => Ok(c),
        Err(e) => Err(status_conflict("creating command", e.as_str())),
    }
}

/// `POST /commands/deleteCommand` (admins): 1 on success.
pub fn delete_command(db: &mut JsonDatabase, request: DeleteCommandRequest) -> (r: Result<usize, HttpStatus>)
    requires
        old(db).wf(),
    ensures
        final(db).wf(),
        final(db).commands_view() == old(db).commands_view().remove(dec_int(request.id as int)),
        old(db).commands_view().dom().contains(dec_int(request.id as int)) ==> r == Ok::<usize, HttpStatus>(1),
        !old(db).commands_view().dom().contains(dec_int(request.id as int)) ==> r == Err::<usize, HttpStatus>(
            not_found_status("Command not found"@),
        ),
{
    match db.delete_command(request.id) {
        Ok(_) => Ok(1),
        Err(e) => Err(status_not_found("deleting command", e.as_str())),
    }
}

/// What updating command `id` with `command` does to the commands: an unknown ID or a
/// command text another command has is refused and changes nothing; else the command
/// takes the new text and description.
pub open spec fn command_update_outcome(
    before: Map<Seq<char>, CommandData>,
    after: Map<Seq<char>, CommandData>,
    id: i32,
    command: Command,
    r: Result<Command, HttpStatus>,
) -> bool {
    let key = dec_int(id as int);
    if !before.dom().contains(key) {
        r == Err::<Command, HttpStatus>(update_status("Command not found"@)) && after == before
    } else if text_taken(before, command.command@, Some(key)) {
        r == Err::<Command, HttpStatus>(update_status("Command already exists"@)) && after == before
    } else {
        &&& r matches Ok(c) && c.id == id && c.command == command.command && c.description == command.description
        &&& after == before.insert(key, CommandData { command: command.command, description: command.description })
    }
}

/// Shared body of the two update endpoints.
fn update_command_with(db: &mut JsonDatabase, id: i32, command: Command, context: &str) -> (r: Result<Command, HttpStatus>)
    requires
        old(db).wf(),
    ensures
        final(db).wf(),
        final(db).binds_view() == old(db).binds_view(),
        final(db).suggestions_view() == old(db).suggestions_view(),
        command_update_outcome(old(db).commands_view(), final(db).commands_view(), id, command, r),
{
    match db.update_command(id, command.command, command.description) {
        Ok(c) => Ok(c),
        Err(e) => Err(status_update(context, e.as_str())),
    }
}

/// `POST /commands/updateCommand` (admins): the command's own ID names it.
pub fn update_command(db: &mut JsonDatabase, command: Command) -> (r: Result<Command, HttpStatus>)
    requires
        old(db).wf(),
    ensures
        final(db).wf(),
        final(db).binds_view() == old(db).binds_view(),
        final(db).suggestions_view() == old(db).suggestions_view(),
        command_update_outcome(old(db).commands_view(), final(db).commands_view(), command.id, command, r),
{
    let id = command.id;
    update_command_with(db, id, command, "updating command")
}

/// `PUT /commands/<id>` (admins): the path names the command.
pub fn update_command_by_id(db: &mut JsonDatabase, command_id: i32, command: Command) -> (r: Result<Command, HttpStatus>)
    requires
        old(db).wf(),
    ensures
        final(db).wf(),
        final(db).binds_view() == old(db).binds_view(),
        final(db).suggestions_view() == old(db).suggestions_view(),
        command_update_outcome(old(db).commands_view(), final(db).commands_view(), command_id, command, r),
{
    update_command_with(db, command_id, command, "updating command by id")
}

/// CORS preflight for adding a command.
pub fn options_create_command() -> (s: HttpStatus)
    ensures
        s == HttpStatus::Success,
{
    ok_status()
}

/// CORS preflight for deleting a command.
pub fn options_delete_command() -> (s: HttpStatus)
    ensures
        s == HttpStatus::Success,
{
    ok_status()
}

/// CORS preflight for updating a command.
pub fn options_update_command() -> (s: HttpStatus)
    ensures
        s == HttpStatus::Success,
{
    ok_status()
}

} // verus!
