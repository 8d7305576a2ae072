//! The JSON API over commands, binds, bind suggestions and votes.
pub mod binds;
pub mod commands;
pub mod models;
pub mod suggestions;
pub mod utils;
pub mod votings;
