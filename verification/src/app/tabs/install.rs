//! The Install tab: a search query and the hits it found.

use vstd::prelude::*;
use crate::app::tabs::{move_index, select_index, TabState};
use crate::flatpak_service::types::SearchHit;
use crate::text::{join_two_columns, two_columns};

verus! {

/// The row of a search hit: its name, two spaces, its id.
pub open spec fn search_row(x: SearchHit) -> Seq<char> {
    two_columns(x.name@, x.id@)
}

/// The state of the Install tab; `debounce_token` tells the answer to the latest query from older ones.
#[derive(Debug)]
pub struct InstallTab {
    pub query: String,
    pub results: Vec<SearchHit>,
    pub cursor: usize,
    pub loading: bool,
    pub debounce_token: u64,
}

impl Default for InstallTab {
    fn default() -> (r: Self)
        ensures
            r.query@.len() == 0,
            r.results@.len() == 0,
            r.cursor == 0,
            !r.loading,
            r.debounce_token == 0,
    {
        InstallTab { query: String::new(), results: Vec::new(), cursor: 0, loading: false, debounce_token: 0 }
    }
}

impl TabState for InstallTab {
    open spec fn entry_count(&self) -> nat {
        self.results@.len()
    }

    open spec fn move_count(&self) -> nat {
        self.results@.len()
    }

    open spec fn cursor_at(&self) -> usize {
        self.cursor
    }

    open spec fn is_loading(&self) -> bool {
        self.loading
    }

    open spec fn with_cursor(&self, cursor: usize) -> Self {
        InstallTab { cursor, ..*self }
    }

    open spec fn with_loading(&self, loading: bool) -> Self {
        InstallTab { loading, ..*self }
    }

    open spec fn title_text(&self) -> Seq<char> {
        "Install"@
    }

    open spec fn row_texts(&self) -> Seq<Seq<char>> {
        self.results@.map_values(|x: SearchHit| search_row(x))
    }

    fn title(&self) -> (r: &'static str) {
        "Install"
    }

    fn list_items(&self) -> (r: Vec<String>) {
        let mut rows: Vec<String> = Vec::new();
        let mut i: usize = 0;
        while i < self.results.len()
            invariant
                i <= self.results.len(),
                rows@.len() == i,
                forall|j: int| 0 <= j < i ==> #[trigger] rows@[j]@ == search_row(self.results@[j]),
            decreases self.results.len() - i,
        {
            let x = &self.results[i];
            rows.push(join_two_columns(x.name.as_str(), x.id.as_str()));
            i = i + 1;
        }
        assert(rows@.map_values(|s: String| s@) =~= self.row_texts());
        rows
    }

    fn selected(&self) -> (r: Option<usize>) {
        if self.results.len() == 0 { None } else { Some(self.cursor) }
    }

    fn select(&mut self, idx: usize) {
        self.cursor = select_index(idx, self.results.len());
    }

    fn move_cursor(&mut self, delta: isize) {
        self.cursor = move_index(self.cursor, delta, self.results.len());
    }

    fn loading(&self) -> (r: bool) {
        self.loading
    }

    fn set_loading(&mut self, loading: bool) {
        self.loading = loading;
    }
}

} // verus!
