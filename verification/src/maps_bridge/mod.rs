//! The bridge between the website and the server daemon's map registry.
pub mod admin_install;
pub mod admin_manage;
pub mod daemon_client;
pub mod l4d2center_index;
pub mod mapping;
pub mod models;
pub mod registry_store;
pub mod state;
pub mod suggestion_conflicts;
pub mod suggestions;
pub mod suggestions_store;
pub mod workshop_previews;
