//! What the screen shows, computed from the state: padded columns, the status
//! line, job labels, detail lines and the scroll position of long lists.
//! Drawing it with a terminal library is left to the caller.

use vstd::prelude::*;
use crate::app::mode::{ConfirmAction, Tab};
use crate::app::App;
use crate::flatpak_service::job::{JobHandle, JobHandleView, JobStatus};
use crate::flatpak_service::parse::{parse_progress_line, spec_parse_progress_line};
use crate::flatpak_service::types::{installation_name, AppDetail, Permission, Remote};
use crate::text::{chars_of, dec, push_char, push_decimal, push_str};
use crate::time::{format_utc_time, utc_time_text};

verus! {

/// `n` spaces.
pub open spec fn spaces(n: nat) -> Seq<char> {
    Seq::new(n, |i: int| ' ')
}

/// `s` padded with spaces on the right to `width` characters, as `{:<width}` does.
pub open spec fn left_aligned(s: Seq<char>, width: nat) -> Seq<char> {
    if s.len() >= width {
        s
    } else {
        s + spaces((width - s.len()) as nat)
    }
}

/// `s` padded with spaces on the left to `width` characters, as `{:>width}` does.
pub open spec fn right_aligned(s: Seq<char>, width: nat) -> Seq<char> {
    if s.len() >= width {
        s
    } else {
        spaces((width - s.len()) as nat) + s
    }
}

/// `s` centred in `width` characters, as `{:^width}` does: half the padding
/// (rounded down) on the left, the rest on the right.
pub open spec fn centered(s: Seq<char>, width: nat) -> Seq<char> {
    if s.len() >= width {
        s
    } else {
        let pad = (width - s.len()) as nat;
        spaces(pad / 2) + s + spaces((pad - pad / 2) as nat)
    }
}

fn push_spaces(s: &mut String, n: usize)
    ensures
        final(s)@ == old(s)@ + spaces(n as nat),
{
    let mut i: usize = 0;
    while i < n
        invariant
            i <= n,
            s@ == old(s)@ + spaces(i as nat),
        decreases n - i,
    {
        push_char(s, ' ');
        i = i + 1;
        assert(s@ =~= old(s)@ + spaces(i as nat));
    }
}

fn char_count(s: &str) -> (r: usize)
    ensures
        r == s@.len(),
{
    chars_of(s).len()
}

/// Pads `s` on the right to `width` characters.
pub fn pad_right(s: &str, width: usize) -> (r: String)
    ensures
        r@ == left_aligned(s@, width as nat),
{
    let n = char_count(s);
    let mut out = String::new();
    push_str(&mut out, s);
    if n < width {
        push_spaces(&mut out, width - n);
    }
    assert(out@ =~= left_aligned(s@, width as nat));
    out
}

/// Pads `s` on the left to `width` characters.
pub fn pad_left(s: &str, width: usize) -> (r: String)
    ensures
        r@ == right_aligned(s@, width as nat),
{
    let n = char_count(s);
    let mut out = String::new();
    if n < width {
        push_spaces(&mut out, width - n);
    }
    push_str(&mut out, s);
    assert(out@ =~= right_aligned(s@, width as nat));
    out
}

/// Centres `s` in `width` characters.
pub fn center(s: &str, width: usize) -> (r: String)
    ensures
        r@ == centered(s@, width as nat),
{
    let n = char_count(s);
    let mut out = String::new();
    if n < width {
        let pad = width - n;
        push_spaces(&mut out, pad / 2);
        push_str(&mut out, s);
        push_spaces(&mut out, pad - pad / 2);
    } else {
        push_str(&mut out, s);
    }
    assert(out@ =~= centered(s@, width as nat));
    out
}

// ---------------------------------------------------------------- status bar

/// What the entries of a tab's list are called in the status bar.
pub open spec fn tab_noun(t: Tab) -> Seq<char> {
    match t {
        Tab::Apps => "apps"@,
        Tab::Runtimes => "runtimes"@,
        Tab::Remotes => "remotes"@,
        Tab::History => "entries"@,
        Tab::Install => "results"@,
    }
}

/// How many entries the list of the current tab holds.
pub open spec fn tab_count(a: App) -> nat {
    match a.tab {
        Tab::Apps => a.apps.items@.len(),
        Tab::Runtimes => a.runtimes.items@.len(),
        Tab::Remotes => a.remotes.items@.len(),
        Tab::History => a.history.items@.len(),
        Tab::Install => a.install.results@.len(),
    }
}

/// The left part of the status bar: the count of the current tab's list and
/// what its entries are.
pub open spec fn status_left_text(count: nat, t: Tab) -> Seq<char> {
    dec(count) + " "@ + tab_noun(t)
}

/// Index of the first running job, or the number of jobs.
pub open spec fn first_running(jobs: Seq<JobHandleView>) -> int
    decreases jobs.len(),
{
    if jobs.len() == 0 {
        0
    } else if jobs[0].status == JobStatus::Running {
        0
    } else {
        1 + first_running(jobs.drop_first())
    }
}

proof fn lemma_first_running_is(jobs: Seq<JobHandleView>, i: int)
    requires
        0 <= i <= jobs.len(),
        forall|j: int| 0 <= j < i ==> jobs[j].status != JobStatus::Running,
        i < jobs.len() ==> jobs[i].status == JobStatus::Running,
    ensures
        first_running(jobs) == i,
    decreases jobs.len(),
{
    if jobs.len() > 0 && jobs[0].status != JobStatus::Running {
        assert forall|j: int| 0 <= j < i - 1 implies jobs.drop_first()[j].status
            != JobStatus::Running by {
            assert(jobs.drop_first()[j] == jobs[j + 1]);
        }
        lemma_first_running_is(jobs.drop_first(), i - 1);
    }
}

/// The middle of the status bar: a gear and the description of the first
/// running job, or nothing.
pub open spec fn status_center_text(jobs: Seq<JobHandleView>) -> Seq<char> {
    let i = first_running(jobs);
    if 0 <= i < jobs.len() {
        "⚙ "@ + jobs[i].description
    } else {
        seq![]
    }
}

/// The status bar of a terminal `width` columns wide: the count of the
/// current tab's list left in 24 columns, the running job centred in what
/// remains after 40 columns, and the key hints right in 16 columns.
pub open spec fn status_line_text(count: nat, t: Tab, jobs: Seq<JobHandleView>, width: nat) -> Seq<char> {
    left_aligned(status_left_text(count, t), 24) + centered(
        status_center_text(jobs),
        if width >= 40 {
            (width - 40) as nat
        } else {
            0
        },
    ) + right_aligned("? help  q quit"@, 16)
}

fn tab_noun_str(t: Tab) -> (r: &'static str)
    ensures
        r@ == tab_noun(t),
{
    match t {
        Tab::Apps => "apps",
        Tab::Runtimes => "runtimes",
        Tab::Remotes => "remotes",
        Tab::History => "entries",
        Tab::Install => "results",
    }
}

/// How many entries the list of the current tab holds.
pub fn current_tab_count(app: &App) -> (r: usize)
    ensures
        r == tab_count(*app),
{
    match app.tab {
        Tab::Apps => app.apps.items.len(),
        Tab::Runtimes => app.runtimes.items.len(),
        Tab::Remotes => app.remotes.items.len(),
        Tab::History => app.history.items.len(),
        Tab::Install => app.install.results.len(),
    }
}

/// Builds the status bar of a terminal `width` columns wide.
pub fn status_line(app: &App, width: usize) -> (r: String)
    ensures
        r@ == status_line_text(tab_count(*app), app.tab, app.jobs@.jobs, width as nat),
{
    let count = current_tab_count(app);
    let mut left = String::new();
    push_decimal(&mut left, count as u64);
    push_str(&mut left, " ");
    push_str(&mut left, tab_noun_str(app.tab));
    assert(left@ =~= status_left_text(count as nat, app.tab));
    let jobs = app.jobs.handles();
    let ghost views = app.jobs@.jobs;
    assert(jobs@.len() == views.len());
    let mut i: usize = 0;
    while i < jobs.len() && !(jobs[i].status == JobStatus::Running)
        invariant
            i <= jobs@.len(),
            jobs@.map_values(|j: JobHandle| j@) == views,
            forall|j: int| 0 <= j < i ==> views[j].status != JobStatus::Running,
        decreases jobs.len() - i,
    {
        assert(views[i as int] == jobs@[i as int]@);
        i = i + 1;
    }
    proof {
        if i < jobs.len() {
            assert(views[i as int] == jobs@[i as int]@);
        }
        lemma_first_running_is(views, i as int);
    }
    let mut middle = String::new();
    if i < jobs.len() {
        push_str(&mut middle, "⚙ ");
        push_str(&mut middle, jobs[i].description.as_str());
        assert(views[i as int] == jobs@[i as int]@);
    }
    assert(middle@ =~= status_center_text(views));
    let w = if width >= 40 { width - 40 } else { 0 };
    let mut line = pad_right(left.as_str(), 24);
    let mid = center(middle.as_str(), w);
    push_str(&mut line, mid.as_str());
    let right = pad_left("? help  q quit", 16);
    push_str(&mut line, right.as_str());
    assert(line@ =~= status_line_text(count as nat, app.tab, views, width as nat));
    line
}


// ---------------------------------------------------------------- jobs

/// The output lines of a job, as texts.
pub open spec fn log_texts(j: JobHandle) -> Seq<Seq<char>> {
    j.log@.map_values(|l: String| l@)
}

/// The percentage of the latest output line that shows one.
pub open spec fn latest_progress(log: Seq<Seq<char>>) -> Option<u16>
    decreases log.len(),
{
    if log.len() == 0 {
        None
    } else {
        match spec_parse_progress_line(log.last()) {
            Some(p) => Some(p),
            None => latest_progress(log.drop_last()),
        }
    }
}

/// The progress of a job: the percentage of its latest output line that shows one.
pub fn job_progress(job: &JobHandle) -> (r: Option<u16>)
    ensures
        r == latest_progress(log_texts(*job)),
{
    let ghost all = log_texts(*job);
    let mut i = job.log.len();
    assert(all.take(i as int) == all);
    while i > 0
        invariant
            i <= job.log@.len(),
            all == log_texts(*job),
            latest_progress(all) == latest_progress(all.take(i as int)),
        decreases i,
    {
        let ghost pre = all.take(i as int);
        assert(pre.last() == job.log@[i - 1]@);
        assert(pre.drop_last() == all.take(i - 1));
        match parse_progress_line(job.log[i - 1].as_str()) {
            Some(p) => {
                return Some(p);
            },
            None => {},
        }
        i = i - 1;
    }
    None
}

/// The label of a job in the jobs dialog: its description and its state, with
/// the latest percentage (or "working") while it runs.
pub open spec fn job_label_text(j: JobHandle) -> Seq<char> {
    match j.status {
        JobStatus::Running => j.description@ + " ("@ + match latest_progress(log_texts(j)) {
            Some(p) => dec(p as nat) + "%"@,
            None => "working"@,
        } + ")"@,
        JobStatus::Finished => j.description@ + " - done"@,
        JobStatus::Failed => j.description@ + " - failed"@,
    }
}

/// Builds the label of a job in the jobs dialog.
pub fn job_label(job: &JobHandle) -> (r: String)
    ensures
        r@ == job_label_text(*job),
{
    let pct = job_progress(job);
    let mut s = String::new();
    push_str(&mut s, job.description.as_str());
    match job.status {
        JobStatus::Running => {
            push_str(&mut s, " (");
            match pct {
                Some(p) => {
                    push_decimal(&mut s, p as u64);
                    push_str(&mut s, "%");
                },
                None => push_str(&mut s, "working"),
            }
            push_str(&mut s, ")");
        },
        JobStatus::Finished => push_str(&mut s, " - done"),
        JobStatus::Failed => push_str(&mut s, " - failed"),
    }
    assert(s@ =~= job_label_text(*job));
    s
}

// ---------------------------------------------------------------- scrolling

/// The first visible row of a list after scrolling so that the cursor is
/// shown: up to the cursor when it is above the window, down so that it is
/// the last visible row when it is below, otherwise unchanged.
pub open spec fn scrolled_offset(cursor: usize, offset: usize, height: usize) -> usize {
    if cursor < offset {
        cursor
    } else if cursor >= offset + height {
        ((if cursor >= height { cursor - height } else { 0 }) + 1) as usize
    } else {
        offset
    }
}

/// After scrolling a window of at least one row, the cursor is within it; a
/// cursor already within the window leaves it where it is.
pub proof fn law_scroll_shows_cursor(cursor: usize, offset: usize, height: usize)
    requires
        height > 0,
        offset + height <= usize::MAX,
    ensures
        scrolled_offset(cursor, offset, height) <= cursor < scrolled_offset(cursor, offset, height)
            + height,
        offset <= cursor < offset + height ==> scrolled_offset(cursor, offset, height) == offset,
{
}

/// Scrolls a list window of `height` rows starting at `offset` so that the cursor is visible.
pub fn scroll_offset(cursor: usize, offset: usize, height: usize) -> (r: usize)
    requires
        offset + height <= usize::MAX,
        cursor < usize::MAX,
    ensures
        r == scrolled_offset(cursor, offset, height),
{
    if cursor < offset {
        cursor
    } else if cursor >= offset + height {
        cursor.saturating_sub(height) + 1
    } else {
        offset
    }
}

/// Rows inside a bordered block of the given outer height.
pub fn inner_height(outer: u16) -> (r: usize)
    ensures
        r == (if outer >= 2 { outer - 2 } else { 0 }),
{
    outer.saturating_sub(2) as usize
}

/// The position of the cursor within the visible window.
pub fn visible_cursor(cursor: usize, offset: usize) -> (r: usize)
    ensures
        r == (if cursor >= offset { cursor - offset } else { 0 }),
{
    cursor.saturating_sub(offset)
}

/// The end of the visible rows: `height` rows from `offset`, but no further than `total`.
pub fn visible_end(offset: usize, height: usize, total: usize) -> (r: usize)
    requires
        offset + height <= usize::MAX,
    ensures
        r == (if offset + height <= total { offset + height } else { total as int }),
{
    if offset + height <= total { offset + height } else { total }
}

// ---------------------------------------------------------------- panes

/// Whether the apps tab shows list and details side by side: from 100 columns on.
pub fn apps_split_view(width: u16) -> (r: bool)
    ensures
        r == (width >= 100),
{
    width >= 100
}

/// The question of the confirmation dialog.
pub open spec fn confirm_text(a: ConfirmAction) -> Seq<char> {
    match a {
        ConfirmAction::Uninstall { ref_, .. } => "Uninstall "@ + ref_@ + "?"@,
    }
}

/// Builds the question of the confirmation dialog.
pub fn confirm_message(action: &ConfirmAction) -> (r: String)
    ensures
        r@ == confirm_text(*action),
{
    let mut s = String::new();
    match action {
        ConfirmAction::Uninstall { ref_, .. } => {
            push_str(&mut s, "Uninstall ");
            push_str(&mut s, ref_.as_str());
            push_str(&mut s, "?");
        },
    }
    assert(s@ =~= confirm_text(*action));
    s
}

/// The state column of a remote.
pub fn remote_status(r: &Remote) -> (s: &'static str)
    ensures
        s@ == (if r.disabled { "[disabled]"@ } else { "[enabled]"@ }),
{
    if r.disabled { "[disabled]" } else { "[enabled]" }
}

/// The commit date of the details pane: date, hours and minutes in UTC, or
/// `-` when unknown or out of range.
pub open spec fn date_text(date: Option<i64>) -> Seq<char> {
    match date {
        Some(t) => match utc_time_text(t, "%Y-%m-%d %H:%M"@) {
            Some(x) => x,
            None => "-"@,
        },
        None => "-"@,
    }
}

/// The lines of the details pane below the name: id, ref, version, branch,
/// origin with its installation, runtime and license (`-` when unknown),
/// installed size, commit, subject and commit date.
pub open spec fn detail_texts(d: AppDetail) -> Seq<Seq<char>> {
    seq![
        "ID:     "@ + d.basic.id@,
        "Ref:     "@ + d.basic.ref_@,
        "Version: "@ + d.basic.version@,
        "Branch:  "@ + d.basic.branch@,
        "Origin:  "@ + d.basic.origin@ + " ("@ + installation_name(d.basic.installation) + ")"@,
        "Runtime: "@ + match d.runtime { Some(r) => r@, None => "-"@ },
        "License: "@ + match d.license { Some(l) => l@, None => "-"@ },
        "Size:    "@ + dec(d.installed_size as nat) + " bytes"@,
        "Commit:  "@ + d.commit@,
        "Subject: "@ + d.subject@,
        "Date:    "@ + date_text(d.date),
    ]
}

fn labelled(label: &str, value: &str) -> (r: String)
    ensures
        r@ == label@ + value@,
{
    let mut s = String::new();
    push_str(&mut s, label);
    push_str(&mut s, value);
    assert(s@ =~= label@ + value@);
    s
}

fn or_dash(v: &Option<String>) -> (r: &str)
    ensures
        r@ == match v { Some(s) => s@, None => "-"@ },
{
    match v {
        Some(s) => s.as_str(),
        None => "-",
    }
}

fn commit_date(date: Option<i64>) -> (r: String)
    ensures
        r@ == date_text(date),
{
    match date {
        Some(t) => match format_utc_time(t, "%Y-%m-%d %H:%M") {
            Some(x) => x,
            None => String::from_str("-"),
        },
        None => String::from_str("-"),
    }
}

/// Builds the lines of the details pane below the name.
pub fn detail_lines(d: &AppDetail) -> (r: Vec<String>)
    ensures
        r@.map_values(|s: String| s@) == detail_texts(*d),
{
    let mut v: Vec<String> = Vec::new();
    v.push(labelled("ID:     ", d.basic.id.as_str()));
    v.push(labelled("Ref:     ", d.basic.ref_.as_str()));
    v.push(labelled("Version: ", d.basic.version.as_str()));
    v.push(labelled("Branch:  ", d.basic.branch.as_str()));
    let mut origin = labelled("Origin:  ", d.basic.origin.as_str());
    push_str(&mut origin, " (");
    let inst = d.basic.installation.to_string();
    push_str(&mut origin, inst.as_str());
    push_str(&mut origin, ")");
    v.push(origin);
    v.push(labelled("Runtime: ", or_dash(&d.runtime)));
    v.push(labelled("License: ", or_dash(&d.license)));
    let mut size = String::from_str("Size:    ");
    push_decimal(&mut size, d.installed_size);
    push_str(&mut size, " bytes");
    v.push(size);
    v.push(labelled("Commit:  ", d.commit.as_str()));
    v.push(labelled("Subject: ", d.subject.as_str()));
    let date = commit_date(d.date);
    v.push(labelled("Date:    ", date.as_str()));
    assert(v@.map_values(|s: String| s@) =~= detail_texts(*d));
    v
}

/// The lines of the permissions dialog: each table in brackets, its entries
/// indented by two spaces, and an empty line after each table.
pub open spec fn permission_texts(perms: Seq<Permission>) -> Seq<Seq<char>>
    decreases perms.len(),
{
    if perms.len() == 0 {
        seq![]
    } else {
        let p = perms.last();
        permission_texts(perms.drop_last()) + seq!["["@ + p.table@ + "]"@] + p.entries@.map_values(
            |e: String| "  "@ + e@,
        ) + seq![seq![]]
    }
}

/// Builds the lines of the permissions dialog.
pub fn permission_lines(perms: &Vec<Permission>) -> (r: Vec<String>)
    ensures
        r@.map_values(|s: String| s@) == permission_texts(perms@),
{
    let mut out: Vec<String> = Vec::new();
    let mut i: usize = 0;
    assert(perms@.take(0) =~= Seq::<Permission>::empty());
    while i < perms.len()
        invariant
            i <= perms.len(),
            out@.map_values(|s: String| s@) == permission_texts(perms@.take(i as int)),
        decreases perms.len() - i,
    {
        let p = &perms[i];
        let ghost before = out@.map_values(|s: String| s@);
        let mut head = String::from_str("[");
        push_str(&mut head, p.table.as_str());
        push_str(&mut head, "]");
        out.push(head);
        let mut k: usize = 0;
        while k < p.entries.len()
            invariant
                k <= p.entries.len(),
                out@.map_values(|s: String| s@) == before + seq!["["@ + p.table@ + "]"@]
                    + p.entries@.take(k as int).map_values(|e: String| "  "@ + e@),
            decreases p.entries.len() - k,
        {
            let ghost mid = out@.map_values(|s: String| s@);
            out.push(labelled("  ", p.entries[k].as_str()));
            assert(p.entries@.take(k + 1).map_values(|e: String| "  "@ + e@) =~= p.entries@.take(
                k as int,
            ).map_values(|e: String| "  "@ + e@).push("  "@ + p.entries@[k as int]@));
            assert(out@.map_values(|s: String| s@) =~= mid.push("  "@ + p.entries@[k as int]@));
            k = k + 1;
        }
        let ghost mid2 = out@.map_values(|s: String| s@);
        out.push(String::new());
        assert(out@.map_values(|s: String| s@) =~= mid2.push(seq![]));
        assert(p.entries@.take(p.entries@.len() as int) == p.entries@);
        assert(perms@.take(i + 1).drop_last() == perms@.take(i as int));
        assert(perms@.take(i + 1).last() == *p);
        assert(out@.map_values(|s: String| s@) =~= permission_texts(perms@.take(i + 1)));
        i = i + 1;
    }
    assert(perms@.take(perms@.len() as int) == perms@);
    out
}

} // verus!
