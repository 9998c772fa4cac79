//! Request logic of the session-viewer HTTP server: plugin catalogue, sessions,
//! reports, search and statistics.
use vstd::prelude::*;

pub mod dates;
pub mod digest;
pub mod actions;
pub mod archive;
pub mod blocks;
pub mod catalog;
pub mod cost;
pub mod error;
pub mod foreign;
pub mod lookup;
pub mod order;
pub mod plugins;
pub mod projects;
pub mod profiles;
pub mod prompts;
pub mod providers;
pub mod reports;
pub mod search;
pub mod session_info;
pub mod sessions;
pub mod settings;
pub mod share;
pub mod sidecar;
pub mod stats;
pub mod storage;
pub mod text;

verus! {
} // verus!
