//! The Apps tab: the installed applications, a filter over them, and the
//! details of the one under the cursor.

use vstd::prelude::*;
use crate::app::tabs::{move_index, select_index, TabState};
use crate::flatpak_service::types::{AppDetail, AppRef, Installation, Permission};
use crate::text::{contains_seq, contains_str, join_two_columns, lowercase, to_lowercase, two_columns};

verus! {

/// Whether an app passes the filter: of the chosen installation (any when
/// none is chosen), and with the filter text in its name or id, both compared
/// in lowercase.
pub open spec fn app_matches(a: AppRef, inst: Option<Installation>, filter: Seq<char>) -> bool {
    &&& match inst {
        None => true,
        Some(i) => a.installation == i,
    }
    &&& contains_seq(lowercase(a.name@), lowercase(filter)) || contains_seq(
        lowercase(a.id@),
        lowercase(filter),
    )
}

/// The apps that pass the filter, in their order.
pub open spec fn matching_apps(items: Seq<AppRef>, inst: Option<Installation>, filter: Seq<char>) -> Seq<AppRef>
    decreases items.len(),
{
    if items.len() == 0 {
        seq![]
    } else if app_matches(items.last(), inst, filter) {
        matching_apps(items.drop_last(), inst, filter).push(items.last())
    } else {
        matching_apps(items.drop_last(), inst, filter)
    }
}

/// A filter whose lowercase form is empty, with no installation chosen, lets every app pass.
proof fn lemma_empty_filter_keeps_all(items: Seq<AppRef>, filter: Seq<char>)
    requires
        lowercase(filter).len() == 0,
    ensures
        matching_apps(items, None, filter) == items,
    decreases items.len(),
{
    if items.len() > 0 {
        lemma_empty_filter_keeps_all(items.drop_last(), filter);
        let name = lowercase(items.last().name@);
        assert(name.subrange(0, 0 + lowercase(filter).len() as int) =~= lowercase(filter));
        assert(contains_seq(name, lowercase(filter)));
        assert(items.drop_last().push(items.last()) =~= items);
    }
}

/// The row of an app: its name, two spaces, its version.
pub open spec fn app_row(a: AppRef) -> Seq<char> {
    two_columns(a.name@, a.version@)
}

/// The state of the Apps tab.
#[derive(Debug)]
pub struct AppsTab {
    pub items: Vec<AppRef>,
    pub cursor: usize,
    pub detail: Option<AppDetail>,
    pub detail_loading: bool,
    pub loading: bool,
    pub filter_text: String,
    pub filter_inst: Option<Installation>,
    /// The permissions of the app whose permissions dialog is open.
    pub permissions: Vec<Permission>,
}

impl Default for AppsTab {
    fn default() -> (r: Self)
        ensures
            r.items@.len() == 0,
            r.cursor == 0,
            r.detail is None,
            !r.detail_loading,
            !r.loading,
            r.filter_text@.len() == 0,
            r.filter_inst is None,
            r.permissions@.len() == 0,
    {
        AppsTab {
            items: Vec::new(),
            cursor: 0,
            detail: None,
            detail_loading: false,
            loading: false,
            filter_text: String::new(),
            filter_inst: None,
            permissions: Vec::new(),
        }
    }
}

impl AppsTab {
    /// The apps that pass the filter.
    pub open spec fn shown(&self) -> Seq<AppRef> {
        matching_apps(self.items@, self.filter_inst, self.filter_text@)
    }

    /// The app at the cursor position of the full list, if there is one.
    pub fn selected_ref(&self) -> (r: Option<&AppRef>)
        ensures
            r == (if self.cursor < self.items@.len() {
                Some(&self.items@[self.cursor as int])
            } else {
                None
            }),
    {
        if self.cursor < self.items.len() {
            Some(&self.items[self.cursor])
        } else {
            None
        }
    }

    /// The apps that pass the installation and text filters, in order; with
    /// neither filter set, every app.
    pub fn filtered(&self) -> (r: Vec<&AppRef>)
        ensures
            r@.map_values(|a: &AppRef| *a) == self.shown(),
            self.filter_inst is None && self.filter_text@.len() == 0 ==> r@.map_values(
                |a: &AppRef| *a,
            ) == self.items@,
    {
        let q = to_lowercase(self.filter_text.as_str());
        proof {
            if self.filter_inst is None && self.filter_text@.len() == 0 {
                lemma_empty_filter_keeps_all(self.items@, self.filter_text@);
            }
        }
        let mut out: Vec<&AppRef> = Vec::new();
        let mut i: usize = 0;
        assert(self.items@.take(0) =~= Seq::<AppRef>::empty());
        while i < self.items.len()
            invariant
                i <= self.items.len(),
                q@ == lowercase(self.filter_text@),
                out@.map_values(|a: &AppRef| *a) == matching_apps(
                    self.items@.take(i as int),
                    self.filter_inst,
                    self.filter_text@,
                ),
            decreases self.items.len() - i,
        {
            let a = &self.items[i];
            let ghost prev = out@.map_values(|a: &AppRef| *a);
            assert(self.items@.take(i + 1).drop_last() == self.items@.take(i as int));
            assert(self.items@.take(i + 1).last() == *a);
            let inst_ok = match &self.filter_inst {
                None => true,
                Some(want) => a.installation == *want,
            };
            if inst_ok {
                let name = to_lowercase(a.name.as_str());
                let id = to_lowercase(a.id.as_str());
                if contains_str(name.as_str(), q.as_str()) || contains_str(id.as_str(), q.as_str()) {
                    out.push(a);
                    assert(out@.map_values(|a: &AppRef| *a) =~= prev.push(*a));
                }
            }
            i = i + 1;
        }
        assert(self.items@.take(self.items@.len() as int) == self.items@);
        out
    }
}

impl TabState for AppsTab {
    open spec fn entry_count(&self) -> nat {
        self.items@.len()
    }

    open spec fn move_count(&self) -> nat {
        self.shown().len()
    }

    open spec fn cursor_at(&self) -> usize {
        self.cursor
    }

    open spec fn is_loading(&self) -> bool {
        self.loading
    }

    open spec fn with_cursor(&self, cursor: usize) -> Self {
        AppsTab { cursor, ..*self }
    }

    open spec fn with_loading(&self, loading: bool) -> Self {
        AppsTab { loading, ..*self }
    }

    open spec fn title_text(&self) -> Seq<char> {
        "Apps"@
    }

    open spec fn row_texts(&self) -> Seq<Seq<char>> {
        self.shown().map_values(|a: AppRef| app_row(a))
    }

    fn title(&self) -> (r: &'static str) {
        "Apps"
    }

    fn list_items(&self) -> (r: Vec<String>) {
        let shown = self.filtered();
        let mut rows: Vec<String> = Vec::new();
        let mut i: usize = 0;
        while i < shown.len()
            invariant
                i <= shown.len(),
                shown@.map_values(|a: &AppRef| *a) == self.shown(),
                rows@.len() == i,
                forall|j: int| 0 <= j < i ==> #[trigger] rows@[j]@ == app_row(*shown@[j]),
            decreases shown.len() - i,
        {
            let a = shown[i];
            rows.push(join_two_columns(a.name.as_str(), a.version.as_str()));
            i = i + 1;
        }
        assert(rows@.map_values(|s: String| s@) =~= self.row_texts()) by {
            assert forall|j: int| 0 <= j < rows@.len() implies rows@[j]@ == self.shown()[j].name@
                + "  "@ + self.shown()[j].version@ by {
                assert(self.shown()[j] == *shown@[j]);
            }
        }
        rows
    }

    fn selected(&self) -> (r: Option<usize>) {
        if self.items.len() == 0 { None } else { Some(self.cursor) }
    }

    fn select(&mut self, idx: usize) {
        self.cursor = select_index(idx, self.items.len());
    }

    fn move_cursor(&mut self, delta: isize) {
        let len = self.filtered().len();
        self.cursor = move_index(self.cursor, delta, len);
    }

    fn loading(&self) -> (r: bool) {
        self.loading
    }

    fn set_loading(&mut self, loading: bool) {
        self.loading = loading;
    }
}

} // verus!
