use vstd::prelude::*;

pub mod auth;
pub mod call_for_sub;
pub mod clock;
pub mod config;
pub mod config_watch;
pub mod fastdl;
pub mod http;
pub mod json_api;
pub mod json_storage;
pub mod keyed;
pub mod live_server;
pub mod maps_bridge;
pub mod paths;
pub mod plan_ws;
pub mod repl;
pub mod rng;
pub mod service;
pub mod steam_bot;
pub mod text;

verus! {
} // verus!
