//! Which file-system events make the configuration reload.
use vstd::prelude::*;
use crate::config::CONF_FILE_NAME;
use crate::paths::{file_name_of, path_file_name, paths_equal, same_path};
use crate::text::{opt_string_view, owned, str_eq};

verus! {

/// How a file was accessed.
#[derive(Clone, Copy, Debug, PartialEq, Eq, Structural)]
pub enum AccessMode {
    Any,
    Execute,
    Read,
    Write,
    Other,
}

/// Which metadata changed.
#[derive(Clone, Copy, Debug, PartialEq, Eq, Structural)]
pub enum MetadataKind {
    Any,
    AccessTime,
    WriteTime,
    Permissions,
    Ownership,
    Extended,
    Other,
}

/// What kind of modification happened.
#[derive(Clone, Copy, Debug, PartialEq, Eq, Structural)]
pub enum ModifyKind {
    Any,
    Data,
    Metadata(MetadataKind),
    Name,
    Other,
}

/// What kind of access happened.
#[derive(Clone, Copy, Debug, PartialEq, Eq, Structural)]
pub enum AccessKind {
    Any,
    Read,
    Open(AccessMode),
    Close(AccessMode),
    Other,
}

/// What happened to a watched file.
#[derive(Clone, Copy, Debug, PartialEq, Eq, Structural)]
pub enum EventKind {
    Any,
    Access(AccessKind),
    Create,
    Modify(ModifyKind),
    Remove,
    Other,
}

/// A debounced file-system event: what happened, and to which paths.
pub struct WatchEvent {
    pub kind: EventKind,
    pub paths: Vec<String>,
}

/// The file name that marks an event as one about the configuration: the configuration
/// path's own file name, or `config.toml` when it has none.
pub open spec fn expected_config_name(config_path: Seq<char>) -> Seq<char> {
    match path_file_name(config_path) {
        Some(n) => n,
        None => CONF_FILE_NAME@,
    }
}

/// Whether a path is the configuration file: the same path, or one with its file name.
pub open spec fn names_config(p: Seq<char>, config_path: Seq<char>) -> bool {
    paths_equal(p, config_path) || path_file_name(p) == Some(expected_config_name(config_path))
}

/// Whether any of an event's paths is the configuration file.
pub open spec fn mentions_config(paths: Seq<String>, config_path: Seq<char>) -> bool {
    exists|i: int| 0 <= i < paths.len() && names_config(#[trigger] paths[i]@, config_path)
}

/// Whether an event kind may have changed the file's contents: data, name or write-time
/// changes, creation, removal, and closing after a write. Opening it, or closing it after
/// reading (as a reload itself does), does not count.
pub open spec fn substantive_kind(kind: EventKind) -> bool {
    match kind {
        EventKind::Modify(ModifyKind::Data) => true,
        EventKind::Modify(ModifyKind::Name) => true,
        EventKind::Create => true,
        EventKind::Remove => true,
        EventKind::Access(AccessKind::Close(AccessMode::Write)) => true,
        EventKind::Modify(ModifyKind::Metadata(MetadataKind::WriteTime)) => true,
        _ => false,
    }
}

/// The expected file name of the configuration.
fn expected_name(config_path: &str) -> (r: String)
    ensures
        r@ == expected_config_name(config_path@),
{
    match file_name_of(config_path) {
        Some(n) => n,
        None => owned(CONF_FILE_NAME),
    }
}

/// Whether any of an event's paths is the configuration file.
pub fn event_mentions_config(event: &WatchEvent, config_path: &str) -> (r: bool)
    ensures
        r == mentions_config(event.paths@, config_path@),
{
    let expected = expected_name(config_path);
    let n = event.paths.len();
    let mut i: usize = 0;
    while i < n
        invariant
            i <= n,
            n == event.paths@.len(),
            expected@ == expected_config_name(config_path@),
            forall|j: int| 0 <= j < i ==> !names_config(#[trigger] event.paths@[j]@, config_path@),
        decreases n - i,
    {
        let p = event.paths[i].as_str();
        if same_path(p, config_path) {
            return true;
        }
        let name = file_name_of(p);
        let hit = match &name {
            Some(x) => str_eq(x.as_str(), expected.as_str()),
            None => false,
        };
        if hit {
            return true;
        }
        proof {
            assert(opt_string_view(name) == path_file_name(p@));
        }
        i = i + 1;
    }
    false
}

/// Whether an event may have changed the configuration: it names the configuration
/// file and its kind may have changed the contents.
pub fn is_substantive_config_event(event: &WatchEvent, config_path: &str) -> (r: bool)
    ensures
        r == (mentions_config(event.paths@, config_path@) && substantive_kind(event.kind)),
{
    if !event_mentions_config(event, config_path) {
        return false;
    }
    match event.kind {
        EventKind::Modify(ModifyKind::Data) => true,
        EventKind::Modify(ModifyKind::Name) => true,
        EventKind::Create => true,
        EventKind::Remove => true,
        EventKind::Access(AccessKind::Close(AccessMode::Write)) => true,
        EventKind::Modify(ModifyKind::Metadata(MetadataKind::WriteTime)) => true,
        _ => false,
    }
}

/// Whether a batch of debounced events asks for a reload: any of them is substantive.
pub fn batch_needs_reload(events: &Vec<WatchEvent>, config_path: &str) -> (r: bool)
    ensures
        r == exists|i: int|
            0 <= i < events@.len() && mentions_config(#[trigger] events@[i].paths@, config_path@)
                && substantive_kind(events@[i].kind),
{
    let n = events.len();
    let mut i: usize = 0;
    while i < n
        invariant
            i <= n,
            n == events@.len(),
            forall|j: int|
                0 <= j < i ==> !(mentions_config(#[trigger] events@[j].paths@, config_path@)
                    && substantive_kind(events@[j].kind)),
        decreases n - i,
    {
        if is_substantive_config_event(&events[i], config_path) {
            return true;
        }
        i = i + 1;
    }
    false
}

} // verus!
