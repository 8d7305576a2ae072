use kether_internal_services_server::http::HttpStatus;
use kether_internal_services_server::json_api::binds::{create_bind, delete_bind, get_bind, list_binds, CreateBindRequest, DeleteBindRequest};
use kether_internal_services_server::json_api::commands::{create_command, get_command, update_command, CreateCommandRequest};
use kether_internal_services_server::json_api::models::{bind_to_public, Bind, Command};
use kether_internal_services_server::json_api::utils::storage_error_status;
use kether_internal_services_server::json_api::votings::{create_bind_vote, CreateBindVoteRequest};
use kether_internal_services_server::json_storage::{BindData, CommandData, JsonDatabase};

fn sample_bind() -> Bind {
    Bind {
        id: 1,
        author: "Player".to_string(),
        text: "bind text".to_string(),
        upvote: vec![111, 222],
        downvote: vec![333],
    }
}

#[test]
fn bind_to_public_counts_votes() {
    let public = bind_to_public(&sample_bind(), None);
    assert_eq!(public.upvote_count, 2);
    assert_eq!(public.downvote_count, 1);
    assert!(public.self_vote.is_none());
}

#[test]
fn bind_to_public_sets_self_vote_for_viewer() {
    let bind = sample_bind();
    assert_eq!(bind_to_public(&bind, Some(111)).self_vote, Some("Upvote".to_string()));
    assert_eq!(bind_to_public(&bind, Some(333)).self_vote, Some("Downvote".to_string()));
    assert!(bind_to_public(&bind, Some(999)).self_vote.is_none());
}

#[test]
fn bind_to_public_has_no_voter_id_fields() {
    let public = bind_to_public(&sample_bind(), Some(111));
    assert_eq!(public.id, 1);
    assert_eq!(public.author, "Player");
    assert_eq!(public.text, "bind text");
}

#[test]
fn storage_errors_map_to_statuses() {
    assert_eq!(storage_error_status("x", "Bind not found", &["not found"], &[]), HttpStatus::NotFound);
    assert_eq!(storage_error_status("x", "Bind text already exists", &["not found"], &["already exists"]), HttpStatus::Conflict);
    assert_eq!(storage_error_status("x", "lock poisoned", &["not found"], &["already exists"]), HttpStatus::InternalServerError);
}

#[test]
fn commands_are_created_with_increasing_ids_and_unique_text() {
    let mut db = JsonDatabase::new();
    db.load_command("7".to_string(), CommandData { command: "!old".to_string(), description: "o".to_string() });
    db.load_command("abc".to_string(), CommandData { command: "!weird".to_string(), description: "w".to_string() });
    let c = create_command(&mut db, CreateCommandRequest { command: "!new".to_string(), description: "n".to_string() }).ok().unwrap();
    assert_eq!(c.id, 8);
    let dup = create_command(&mut db, CreateCommandRequest { command: "!old".to_string(), description: "x".to_string() });
    assert_eq!(dup.err(), Some(HttpStatus::Conflict));
    let listed = db.get_all_commands();
    let ids: Vec<i32> = listed.iter().map(|c| c.id).collect();
    assert_eq!(ids, vec![0, 7, 8]);
    assert_eq!(get_command(&db, 8).ok().unwrap().command, "!new");
    assert_eq!(get_command(&db, 9).err(), Some(HttpStatus::NotFound));
    let upd = update_command(&mut db, Command { id: 8, command: "!old".to_string(), description: "d".to_string() });
    assert_eq!(upd.err(), Some(HttpStatus::Conflict));
    let upd = update_command(&mut db, Command { id: 8, command: "!new".to_string(), description: "d2".to_string() });
    assert_eq!(upd.ok().unwrap().description, "d2");
    let missing = update_command(&mut db, Command { id: 99, command: "!z".to_string(), description: "d".to_string() });
    assert_eq!(missing.err(), Some(HttpStatus::NotFound));
}

#[test]
fn binds_votes_move_between_lists() {
    let mut db = JsonDatabase::new();
    let b = create_bind(&mut db, CreateBindRequest { author: "A".to_string(), text: "t".to_string() }).ok().unwrap();
    assert_eq!(b.id, 1);
    let id = b.id;
    create_bind_vote(&mut db, 5, CreateBindVoteRequest { voted_bind_id: id, vote: "UpVote".to_string() }).ok().unwrap();
    assert_eq!(db.get_bind(id).ok().unwrap().upvote, vec![5]);
    create_bind_vote(&mut db, 5, CreateBindVoteRequest { voted_bind_id: id, vote: "downvote".to_string() }).ok().unwrap();
    let after = db.get_bind(id).ok().unwrap();
    assert!(after.upvote.is_empty());
    assert_eq!(after.downvote, vec![5]);
    let bad = create_bind_vote(&mut db, 5, CreateBindVoteRequest { voted_bind_id: id, vote: "meh".to_string() });
    assert_eq!(bad.err(), Some(HttpStatus::InternalServerError));
    assert!(db.get_bind(id).ok().unwrap().downvote.is_empty());
    let missing = create_bind_vote(&mut db, 5, CreateBindVoteRequest { voted_bind_id: 42, vote: "upvote".to_string() });
    assert_eq!(missing.err(), Some(HttpStatus::NotFound));
    assert_eq!(get_bind(&db, id, Some(5)).ok().unwrap().self_vote, None);
    assert_eq!(list_binds(&db, None).len(), 1);
    assert_eq!(delete_bind(&mut db, DeleteBindRequest { id }), Ok(1));
    assert_eq!(delete_bind(&mut db, DeleteBindRequest { id }), Err(HttpStatus::NotFound));
    db.load_bind("3".to_string(), BindData { author: "x".to_string(), text: "y".to_string(), upvote: vec![], downvote: vec![] });
    assert_eq!(db.get_bind(3).ok().unwrap().text, "y");
}

#[test]
fn voting_twice_the_same_way_counts_once() {
    let mut db = JsonDatabase::new();
    db.load_bind("4".to_string(), BindData { author: "a".to_string(), text: "t".to_string(), upvote: vec![1, 9, 1], downvote: vec![9, 2] });
    db.add_vote(4, 9, "upvote").unwrap();
    db.add_vote(4, 9, "upvote").unwrap();
    let b = db.get_bind(4).ok().unwrap();
    assert_eq!(b.upvote, vec![1, 1, 9]);
    assert_eq!(b.downvote, vec![2]);
    db.remove_vote(4, 9).unwrap();
    let b = db.get_bind(4).ok().unwrap();
    assert_eq!(b.upvote, vec![1, 1]);
    assert_eq!(b.downvote, vec![2]);
    assert_eq!(db.remove_vote(5, 9), Err("Bind not found".to_string()));
}

#[test]
fn listings_are_in_ascending_id_order_and_creation_never_overwrites() {
    let mut db = JsonDatabase::new();
    for key in ["12", "3", "-4", "x"] {
        db.load_bind(key.to_string(), BindData { author: "a".to_string(), text: key.to_string(), upvote: vec![], downvote: vec![] });
    }
    let ids: Vec<i32> = list_binds(&db, None).iter().map(|b| b.id).collect();
    assert_eq!(ids, vec![-4, 0, 3, 12]);
    let created = create_bind(&mut db, CreateBindRequest { author: "n".to_string(), text: "fresh".to_string() }).ok().unwrap();
    assert_eq!(created.id, 13);
    assert_eq!(db.get_bind(12).ok().unwrap().text, "12");
    assert_eq!(db.get_bind(13).ok().unwrap().text, "fresh");
}
