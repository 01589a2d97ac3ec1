//! The Remotes tab: the configured repositories.

use vstd::prelude::*;
use crate::app::tabs::{move_index, select_index, TabState};
use crate::flatpak_service::types::Remote;
use crate::text::{join_two_columns, two_columns};

verus! {

/// The row of a remote: its name, two spaces, its URL.
pub open spec fn remote_row(x: Remote) -> Seq<char> {
    two_columns(x.name@, x.url@)
}

/// The state of the Remotes tab.
#[derive(Debug)]
pub struct RemotesTab {
    pub items: Vec<Remote>,
    pub cursor: usize,
    pub loading: bool,
}

impl Default for RemotesTab {
    fn default() -> (r: Self)
        ensures
            r.items@.len() == 0,
            r.cursor == 0,
            !r.loading,
    {
        RemotesTab { items: Vec::new(), cursor: 0, loading: false }
    }
}

impl RemotesTab {
    /// The remote under the cursor, if the cursor is on one.
    pub fn selected_remote(&self) -> (r: Option<&Remote>)
        ensures
            r == (if self.cursor < self.items@.len() {
                Some(&self.items@[self.cursor as int])
            } else {
                None
            }),
    {
        if self.cursor < self.items.len() {
            Some(&self.items[self.cursor])
        } else {
            None
        }
    }
}

impl TabState for RemotesTab {
    open spec fn entry_count(&self) -> nat {
        self.items@.len()
    }

    open spec fn move_count(&self) -> nat {
        self.items@.len()
    }

    open spec fn cursor_at(&self) -> usize {
        self.cursor
    }

    open spec fn is_loading(&self) -> bool {
        self.loading
    }

    open spec fn with_cursor(&self, cursor: usize) -> Self {
        RemotesTab { cursor, ..*self }
    }

    open spec fn with_loading(&self, loading: bool) -> Self {
        RemotesTab { loading, ..*self }
    }

    open spec fn title_text(&self) -> Seq<char> {
        "Remotes"@
    }

    open spec fn row_texts(&self) -> Seq<Seq<char>> {
        self.items@.map_values(|x: Remote| remote_row(x))
    }

    fn title(&self) -> (r: &'static str) {
        "Remotes"
    }

    fn list_items(&self) -> (r: Vec<String>) {
        let mut rows: Vec<String> = Vec::new();
        let mut i: usize = 0;
        while i < self.items.len()
            invariant
                i <= self.items.len(),
                rows@.len() == i,
                forall|j: int| 0 <= j < i ==> #[trigger] rows@[j]@ == remote_row(self.items@[j]),
            decreases self.items.len() - i,
        {
            let x = &self.items[i];
            rows.push(join_two_columns(x.name.as_str(), x.url.as_str()));
            i = i + 1;
        }
        assert(rows@.map_values(|s: String| s@) =~= self.row_texts());
        rows
    }

    fn selected(&self) -> (r: Option<usize>) {
        if self.items.len() == 0 { None } else { Some(self.cursor) }
    }

    fn select(&mut self, idx: usize) {
        self.cursor = select_index(idx, self.items.len());
    }

    fn move_cursor(&mut self, delta: isize) {
        self.cursor = move_index(self.cursor, delta, self.items.len());
    }

    fn loading(&self) -> (r: bool) {
        self.loading
    }

    fn set_loading(&mut self, loading: bool) {
        self.loading = loading;
    }
}

} // verus!
