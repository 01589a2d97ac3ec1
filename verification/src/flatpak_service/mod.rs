//! The typed side of the `flatpak` command line: its data, its errors,
//! the parsers for its output and the bookkeeping of background jobs.

pub mod error;
pub mod job;
pub mod parse;
pub mod types;

pub use error::{FlatpakError, Result};
pub use parse::{parse_history, parse_info, parse_list, parse_permissions, parse_remotes, parse_search};
pub use types::{AppDetail, AppRef, HistoryEntry, Installation, Kind, Permission, Remote, SearchHit};

use vstd::prelude::*;

verus! {

/// Handle on the `flatpak` command line; it holds no state of its own.
#[derive(Debug, Clone, Copy)]
pub struct FlatpakService;

impl FlatpakService {
    pub fn new() -> (s: Self)
        ensures
            s == FlatpakService,
    {
        FlatpakService
    }
}

} // verus!
