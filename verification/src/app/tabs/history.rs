//! The History tab: past installs, updates and removals.

use vstd::prelude::*;
use crate::app::tabs::{move_index, select_index, TabState};
use crate::flatpak_service::types::HistoryEntry;
use crate::text::{push_str, two_columns};
use crate::time::{format_utc_time, utc_time_text};

verus! {

/// The time of a history row: date, hours and minutes in UTC; empty when out of range.
pub open spec fn history_time_text(secs: i64) -> Seq<char> {
    match utc_time_text(secs, "%Y-%m-%d %H:%M"@) {
        Some(t) => t,
        None => seq![],
    }
}

/// Formats the time of a history row.
pub fn history_time(secs: i64) -> (r: String)
    ensures
        r@ == history_time_text(secs),
{
    match format_utc_time(secs, "%Y-%m-%d %H:%M") {
        Some(t) => t,
        None => String::new(),
    }
}

/// The row of a history entry: its time, two spaces, its ref.
pub open spec fn history_row(h: HistoryEntry) -> Seq<char> {
    two_columns(history_time_text(h.time), h.ref_@)
}

/// The state of the History tab.
#[derive(Debug)]
pub struct HistoryTab {
    pub items: Vec<HistoryEntry>,
    pub cursor: usize,
    pub loading: bool,
}

impl Default for HistoryTab {
    fn default() -> (r: Self)
        ensures
            r.items@.len() == 0,
            r.cursor == 0,
            !r.loading,
    {
        HistoryTab { items: Vec::new(), cursor: 0, loading: false }
    }
}

impl TabState for HistoryTab {
    open spec fn entry_count(&self) -> nat {
        self.items@.len()
    }

    open spec fn move_count(&self) -> nat {
        self.items@.len()
    }

    open spec fn cursor_at(&self) -> usize {
        self.cursor
    }

    open spec fn is_loading(&self) -> bool {
        self.loading
    }

    open spec fn with_cursor(&self, cursor: usize) -> Self {
        HistoryTab { cursor, ..*self }
    }

    open spec fn with_loading(&self, loading: bool) -> Self {
        HistoryTab { loading, ..*self }
    }

    open spec fn title_text(&self) -> Seq<char> {
        "History"@
    }

    open spec fn row_texts(&self) -> Seq<Seq<char>> {
        self.items@.map_values(|h: HistoryEntry| history_row(h))
    }

    fn title(&self) -> (r: &'static str) {
        "History"
    }

    fn list_items(&self) -> (r: Vec<String>) {
        let mut rows: Vec<String> = Vec::new();
        let mut i: usize = 0;
        while i < self.items.len()
            invariant
                i <= self.items.len(),
                rows@.len() == i,
                forall|j: int| 0 <= j < i ==> #[trigger] rows@[j]@ == history_row(self.items@[j]),
            decreases self.items.len() - i,
        {
            let h = &self.items[i];
            let mut row = history_time(h.time);
            push_str(&mut row, "  ");
            push_str(&mut row, h.ref_.as_str());
            assert(row@ =~= history_row(*h));
            rows.push(row);
            i = i + 1;
        }
        assert(rows@.map_values(|s: String| s@) =~= self.row_texts());
        rows
    }

    fn selected(&self) -> (r: Option<usize>) {
        if self.items.len() == 0 { None } else { Some(self.cursor) }
    }

    fn select(&mut self, idx: usize) {
        self.cursor = select_index(idx, self.items.len());
    }

    fn move_cursor(&mut self, delta: isize) {
        self.cursor = move_index(self.cursor, delta, self.items.len());
    }

    fn loading(&self) -> (r: bool) {
        self.loading
    }

    fn set_loading(&mut self, loading: bool) {
        self.loading = loading;
    }
}

} // verus!
