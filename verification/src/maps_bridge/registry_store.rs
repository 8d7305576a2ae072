//! The registry file: the daemon's map list as last synchronised.
use vstd::prelude::*;
use crate::maps_bridge::models::{DaemonMapEntry, Timestamp};
use crate::paths::{is_absolute, join, path_is_absolute, path_join};
use crate::text::{blank, is_blank, owned};

verus! {

/// The registry as stored: when it was last synchronised, and the maps.
pub struct RegistryFile {
    pub last_synced_at: Option<Timestamp>,
    pub maps: Vec<DaemonMapEntry>,
}

impl RegistryFile {
    /// A registry that was never synchronised and holds no maps.
    pub fn empty() -> (r: RegistryFile)
        ensures
            r.last_synced_at is None,
            r.maps@.len() == 0,
    {
        RegistryFile { last_synced_at: None, maps: Vec::new() }
    }
}

/// The registry written after a synchronisation at `now`.
pub fn synced_registry(maps: Vec<DaemonMapEntry>, now: Timestamp) -> (r: RegistryFile)
    ensures
        r.last_synced_at == Some(now),
        r.maps@ == maps@,
{
    RegistryFile { last_synced_at: Some(now), maps }
}

/// Where a data file lives: the configured path, taken relative to `base` unless it is
/// absolute, or `default_name` in `base` when nothing is configured.
pub open spec fn data_path(base: Seq<char>, configured: Seq<char>, default_name: Seq<char>) -> Seq<char> {
    if is_blank(configured) {
        path_join(base, default_name)
    } else if path_is_absolute(configured) {
        configured
    } else {
        path_join(base, configured)
    }
}

/// Where a data file lives.
pub fn resolve_data_path(base: &str, configured: &str, default_name: &str) -> (r: String)
    ensures
        r@ == data_path(base@, configured@, default_name@),
{
    if blank(configured) {
        join(base, default_name)
    } else if is_absolute(configured) {
        owned(configured)
    } else {
        join(base, configured)
    }
}

} // verus!
