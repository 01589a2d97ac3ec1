//! Per-tab state: the entries a tab lists, its cursor and its loading flag.

pub mod apps;
pub mod history;
pub mod install;
pub mod remotes;
pub mod runtimes;

use vstd::prelude::*;

verus! {

/// The cursor after a move by `delta` over `len` entries: `cursor + delta`
/// kept within `0..len` (0 when there are no entries). The cursor is read as
/// an `isize`, as a cast reads it.
pub open spec fn cursor_after_move(cursor: usize, delta: isize, len: nat) -> usize {
    if len == 0 {
        0
    } else {
        let t = (cursor as isize) + delta;
        if t < 0 {
            0
        } else if t > len - 1 {
            (len - 1) as usize
        } else {
            t as usize
        }
    }
}

/// Whether moving the cursor by `delta` stays within the range of `isize`.
pub open spec fn move_fits(cursor: usize, delta: isize) -> bool {
    isize::MIN <= (cursor as isize) + delta <= isize::MAX
}

/// The cursor for a selection of `idx` among `len` entries: `idx` capped at the last entry.
pub open spec fn cursor_after_select(idx: usize, len: nat) -> usize {
    if len == 0 {
        0
    } else if idx > len - 1 {
        (len - 1) as usize
    } else {
        idx
    }
}

/// The selected index: the cursor when there are entries.
pub open spec fn selection(cursor: usize, len: nat) -> Option<usize> {
    if len == 0 {
        None
    } else {
        Some(cursor)
    }
}

/// After a move the cursor is on an entry when there is one, and at 0 otherwise.
pub proof fn law_move_stays_in_bounds(cursor: usize, delta: isize, len: nat)
    ensures
        len > 0 ==> cursor_after_move(cursor, delta, len) < len,
        len == 0 ==> cursor_after_move(cursor, delta, len) == 0,
{
}

/// A selection within the entries puts the cursor on it.
pub proof fn law_select_within(idx: usize, len: nat)
    ensures
        idx < len ==> cursor_after_select(idx, len) == idx,
        len > 0 ==> cursor_after_select(idx, len) < len,
{
}

/// Computes `cursor_after_move`.
pub fn move_index(cursor: usize, delta: isize, len: usize) -> (r: usize)
    requires
        move_fits(cursor, delta),
        len <= isize::MAX,
    ensures
        r == cursor_after_move(cursor, delta, len as nat),
{
    if len == 0 {
        return 0;
    }
    let c = cursor as isize;
    let t = c + delta;
    let hi = len as isize - 1;
    if t < 0 {
        0
    } else if t > hi {
        hi as usize
    } else {
        t as usize
    }
}

/// Computes `cursor_after_select`.
pub fn select_index(idx: usize, len: usize) -> (r: usize)
    ensures
        r == cursor_after_select(idx, len as nat),
{
    let last = if len == 0 { 0 } else { len - 1 };
    if idx > last { last } else { idx }
}

/// What every tab offers: a title, its rows, a cursor and a loading flag.
pub trait TabState: Sized {
    /// The number of entries that selection sees.
    spec fn entry_count(&self) -> nat;

    /// The number of entries the cursor moves over.
    spec fn move_count(&self) -> nat;

    spec fn cursor_at(&self) -> usize;

    spec fn is_loading(&self) -> bool;

    /// The same tab with another cursor.
    spec fn with_cursor(&self, cursor: usize) -> Self;

    /// The same tab with another loading flag.
    spec fn with_loading(&self, loading: bool) -> Self;

    spec fn title_text(&self) -> Seq<char>;

    /// The text of each row the tab lists.
    spec fn row_texts(&self) -> Seq<Seq<char>>;

    fn title(&self) -> (r: &'static str)
        ensures
            r@ == self.title_text(),
    ;

    fn list_items(&self) -> (r: Vec<String>)
        ensures
            r@.map_values(|s: String| s@) == self.row_texts(),
    ;

    fn selected(&self) -> (r: Option<usize>)
        ensures
            r == selection(self.cursor_at(), self.entry_count()),
    ;

    fn select(&mut self, idx: usize)
        ensures
            *final(self) == old(self).with_cursor(cursor_after_select(idx, old(self).entry_count())),
    ;

    fn move_cursor(&mut self, delta: isize)
        requires
            move_fits(old(self).cursor_at(), delta),
            old(self).move_count() <= isize::MAX,
        ensures
            *final(self) == old(self).with_cursor(
                cursor_after_move(old(self).cursor_at(), delta, old(self).move_count()),
            ),
    ;

    fn loading(&self) -> (r: bool)
        ensures
            r == self.is_loading(),
    ;

    fn set_loading(&mut self, loading: bool)
        ensures
            *final(self) == old(self).with_loading(loading),
    ;
}

} // verus!
