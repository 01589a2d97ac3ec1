//! The keyboard: which key does what, depending on the modal dialog and the
//! pane with the focus.

use vstd::prelude::*;
use crate::app::mode::{ConfirmAction, Focus, Modal, Mode, Tab};
use crate::app::tabs::apps::{matching_apps, AppsTab};
use crate::app::tabs::{cursor_after_move, move_index, TabState};
use crate::app::tabs::history::HistoryTab;
use crate::app::tabs::install::InstallTab;
use crate::app::tabs::remotes::RemotesTab;
use crate::app::tabs::runtimes::RuntimesTab;
use crate::app::{
    install_args, install_description, install_ref, first_remote, start_app_detail_refresh,
    start_install, start_permission_reset, permission_reset_args, permission_reset_description,
    start_remote_toggle, start_tab_refresh, remote_toggle_args,
    remote_toggle_description, tab_refresh_started, start_search, hit_first_remote, hit_install_ref, start_uninstall, start_update, started_job,
    texts, uninstall_args, uninstall_description, update_args, update_description, Action, App,
};
use crate::flatpak_service::job::JobId;
use crate::flatpak_service::types::{installation_name, AppRef, Installation, Remote, SearchHit};
use crate::text::{chars_of, push_char};

verus! {

/// The keys the application tells apart.
#[derive(Debug, Clone, Copy, PartialEq, Eq, Structural)]
pub enum KeyCode {
    Char(char),
    Tab,
    BackTab,
    Esc,
    Enter,
    Up,
    Down,
    Backspace,
    /// Any other key.
    Other,
}

/// Whether a key went down, repeats, or went up.
#[derive(Debug, Clone, Copy, PartialEq, Eq, Structural)]
pub enum KeyEventKind {
    Press,
    Repeat,
    Release,
}

/// A key and what happened to it.
#[derive(Debug, Clone, Copy, PartialEq, Eq, Structural)]
pub struct KeyEvent {
    pub code: KeyCode,
    pub kind: KeyEventKind,
}

/// A terminal event: a key, or anything else (mouse, resize, focus, paste).
#[derive(Debug, Clone, Copy, PartialEq, Eq, Structural)]
pub enum Event {
    Key(KeyEvent),
    Other,
}

/// The app under the cursor, if any.
pub open spec fn app_under_cursor(a: App) -> Option<AppRef> {
    if a.apps.cursor < a.apps.items@.len() {
        Some(a.apps.items@[a.apps.cursor as int])
    } else {
        None
    }
}

/// Keys on the tab bar: quit, help, jobs, the tab number keys, and Tab to the list.
pub open spec fn tab_bar_next(a: App, key: KeyCode) -> App {
    match key {
        KeyCode::Char('q') => App { should_quit: true, ..a },
        KeyCode::Char('?') => App { mode: Mode::Modal(Modal::Help), ..a },
        KeyCode::Char('J') => App { mode: Mode::Modal(Modal::Jobs), ..a },
        KeyCode::Char('1') => App { tab: Tab::Apps, ..a },
        KeyCode::Char('2') => App { tab: Tab::Runtimes, ..a },
        KeyCode::Char('3') => App { tab: Tab::Remotes, ..a },
        KeyCode::Char('4') => App { tab: Tab::History, ..a },
        KeyCode::Char('5') => App { tab: Tab::Install, ..a },
        KeyCode::Tab => App { focus: Focus::List, ..a },
        _ => a,
    }
}

/// The tab a number key jumps to: `1` to `5` in tab-bar order.
pub open spec fn tab_key(key: KeyCode) -> Option<Tab> {
    match key {
        KeyCode::Char('1') => Some(Tab::Apps),
        KeyCode::Char('2') => Some(Tab::Runtimes),
        KeyCode::Char('3') => Some(Tab::Remotes),
        KeyCode::Char('4') => Some(Tab::History),
        KeyCode::Char('5') => Some(Tab::Install),
        _ => None,
    }
}

/// Keys on the detail pane: the global keys (quit, help, jobs, the tab
/// number keys), and Tab, Shift+Tab or Esc back to the tab bar.
pub open spec fn detail_next(a: App, key: KeyCode) -> App {
    match tab_key(key) {
        Some(t) => App { tab: t, ..a },
        None => match key {
            KeyCode::Char('q') => App { should_quit: true, ..a },
            KeyCode::Char('?') => App { mode: Mode::Modal(Modal::Help), ..a },
            KeyCode::Char('J') => App { mode: Mode::Modal(Modal::Jobs), ..a },
            KeyCode::Tab | KeyCode::BackTab | KeyCode::Esc => App { focus: Focus::Tabs, ..a },
            _ => a,
        },
    }
}

/// A cursor move by `delta` over the shown apps, then a request for the details
/// of the app at the new cursor (when the full list has one there).
pub open spec fn cursor_moved(a: App, b: App, delta: isize, r: Option<Action>) -> bool {
    let c = cursor_after_move(a.apps.cursor, delta, a.apps.shown().len());
    let a1 = App { apps: AppsTab { cursor: c, ..a.apps }, ..a };
    if c < a.apps.items@.len() {
        &&& b == App { apps: AppsTab { detail_loading: true, ..a1.apps }, ..a1 }
        &&& r == Some(Action::RefreshAppDetail(a.apps.items@[c as int]))
    } else {
        b == a1 && r is None
    }
}

/// The remote under the cursor of the Remotes tab, if any.
pub open spec fn remote_under_cursor(a: App) -> Option<Remote> {
    if a.remotes.cursor < a.remotes.items@.len() {
        Some(a.remotes.items@[a.remotes.cursor as int])
    } else {
        None
    }
}

/// A move by `delta` over the list of the current tab: over the shown apps
/// (asking for the details at the new cursor) on the Apps tab, over the
/// tab's entries on the others.
pub open spec fn list_moved(a: App, b: App, delta: isize, r: Option<Action>) -> bool {
    match a.tab {
        Tab::Apps => cursor_moved(a, b, delta, r),
        Tab::Runtimes => r is None && b == App {
            runtimes: RuntimesTab {
                cursor: cursor_after_move(a.runtimes.cursor, delta, a.runtimes.items@.len()),
                ..a.runtimes
            },
            ..a
        },
        Tab::Remotes => r is None && b == App {
            remotes: RemotesTab {
                cursor: cursor_after_move(a.remotes.cursor, delta, a.remotes.items@.len()),
                ..a.remotes
            },
            ..a
        },
        Tab::History => r is None && b == App {
            history: HistoryTab {
                cursor: cursor_after_move(a.history.cursor, delta, a.history.items@.len()),
                ..a.history
            },
            ..a
        },
        Tab::Install => r is None && b == App {
            install: InstallTab {
                cursor: cursor_after_move(a.install.cursor, delta, a.install.results@.len()),
                ..a.install
            },
            ..a
        },
    }
}

/// Keys on the list pane: quit, help, jobs, the tab number keys, refresh of
/// the current tab, moves, update one or all, uninstall (after
/// confirmation), the permissions of the app under the cursor, enabling or
/// disabling the remote under the cursor, the search field of the Install
/// tab, and pane changes.
pub open spec fn list_input_effect(a: App, b: App, key: KeyCode, r: Option<Action>) -> bool {
    match tab_key(key) {
        Some(t) => b == App { tab: t, ..a } && r is None,
        None => list_key_effect(a, b, key, r),
    }
}

/// The keys of the apps list other than the tab number keys.
pub open spec fn list_key_effect(a: App, b: App, key: KeyCode, r: Option<Action>) -> bool {
    match key {
        KeyCode::Char('q') => b == App { should_quit: true, ..a } && r is None,
        KeyCode::Char('?') => b == App { mode: Mode::Modal(Modal::Help), ..a } && r is None,
        KeyCode::Char('J') => b == App { mode: Mode::Modal(Modal::Jobs), ..a } && r is None,
        KeyCode::Char('r') => tab_refresh_started(a, b, r),
        KeyCode::Char('j') | KeyCode::Down => list_moved(a, b, 1isize, r),
        KeyCode::Char('k') | KeyCode::Up => list_moved(a, b, -1isize, r),
        KeyCode::Char('e') => match (if a.tab == Tab::Remotes {
            remote_under_cursor(a)
        } else {
            None
        }) {
            Some(m) => r is Some && started_job(
                a,
                b,
                r->0,
                remote_toggle_description(m.name@, m.disabled),
                remote_toggle_args(m.name@, m.installation, m.disabled),
            ),
            None => b == a && r is None,
        },
        KeyCode::Char('u') => match app_under_cursor(a) {
            Some(s) => r is Some && started_job(
                a,
                b,
                r->0,
                update_description(Some(s.ref_@), s.installation),
                update_args(Some(s.ref_@), s.installation),
            ),
            None => b == a && r is None,
        },
        KeyCode::Char('U') => {
            let inst = match app_under_cursor(a) {
                Some(s) => s.installation,
                None => Installation::System,
            };
            r is Some && started_job(
                a,
                b,
                r->0,
                update_description(None, inst),
                update_args(None, inst),
            )
        },
        KeyCode::Char('d') => r is None && match app_under_cursor(a) {
            Some(s) => b == App {
                mode: Mode::Modal(
                    Modal::Confirm(ConfirmAction::Uninstall { ref_: s.ref_, inst: s.installation }),
                ),
                ..a
            },
            None => b == a,
        },
        KeyCode::Char('p') => match app_under_cursor(a) {
            Some(s) => {
                &&& b == App {
                    mode: Mode::Modal(Modal::Permissions { id: s.id }),
                    apps: AppsTab { permissions: b.apps.permissions, ..a.apps },
                    ..a
                }
                &&& b.apps.permissions@.len() == 0
                &&& r == Some(Action::RefreshPermissions(s.id))
            },
            None => b == a && r is None,
        },
        KeyCode::Char('/') => r is None && if a.tab == Tab::Install {
            b == App { focus: Focus::Search, ..a }
        } else {
            b == a
        },
        KeyCode::Tab => b == App { focus: Focus::Detail, ..a } && r is None,
        KeyCode::BackTab | KeyCode::Esc => b == App { focus: Focus::Tabs, ..a } && r is None,
        _ => b == a && r is None,
    }
}

/// Keys while a modal is open: Enter confirms an uninstall and any key closes
/// the confirmation; `r` in the permissions dialog resets the app's
/// permissions; the dialogs other than the confirmation close on Esc or `q`.
pub open spec fn modal_input_effect(a: App, b: App, key: KeyCode, r: Option<Action>) -> bool {
    match a.mode {
        Mode::Modal(Modal::Confirm(ConfirmAction::Uninstall { ref_, inst })) => if key
            == KeyCode::Enter {
            r is Some && started_job(
                a,
                App { mode: a.mode, ..b },
                r->0,
                uninstall_description(ref_@),
                uninstall_args(ref_@, inst, false),
            ) && b.mode == Mode::Normal
        } else {
            b == App { mode: Mode::Normal, ..a } && r is None
        },
        Mode::Modal(Modal::Permissions { id }) if key == KeyCode::Char('r') => r is Some
            && started_job(a, b, r->0, permission_reset_description(id@), permission_reset_args(id@)),
        _ => r is None && if key == KeyCode::Esc || key == KeyCode::Char('q') {
            b == App { mode: Mode::Normal, ..a }
        } else {
            b == a
        },
    }
}

/// The query after a key in the search field: a typed character is appended,
/// Backspace removes the last character (if there is one).
pub open spec fn edited_query(q: Seq<char>, key: KeyCode) -> Seq<char> {
    match key {
        KeyCode::Char(c) => q.push(c),
        KeyCode::Backspace => if q.len() == 0 {
            q
        } else {
            q.drop_last()
        },
        _ => q,
    }
}

/// `b` is `a` with the search query `query`, loading under the next token,
/// and `r` asks for the hits of that query under that token.
pub open spec fn search_started(a: App, b: App, query: Seq<char>, r: Option<Action>) -> bool {
    &&& b == App {
        install: InstallTab {
            query: b.install.query,
            loading: true,
            debounce_token: (a.install.debounce_token + 1) as u64,
            ..a.install
        },
        ..a
    }
    &&& b.install.query@ == query
    &&& r matches Some(Action::Search { token, query: q })
    &&& token == b.install.debounce_token
    &&& q@ == query
}

/// The search hit under the cursor, if any.
pub open spec fn hit_under_cursor(a: App) -> Option<SearchHit> {
    if a.install.cursor < a.install.results@.len() {
        Some(a.install.results@[a.install.cursor as int])
    } else {
        None
    }
}

/// Keys in the search field: a character or Backspace edits the query and
/// starts a search for it; Esc goes back to the list; Enter installs the hit
/// under the cursor from its first remote into the system installation.
pub open spec fn search_input_effect(a: App, b: App, key: KeyCode, r: Option<Action>) -> bool {
    match key {
        KeyCode::Char(_) | KeyCode::Backspace => search_started(
            a,
            b,
            edited_query(a.install.query@, key),
            r,
        ),
        KeyCode::Esc => b == App { focus: Focus::List, ..a } && r is None,
        KeyCode::Enter => match hit_under_cursor(a) {
            Some(h) => r is Some && started_job(
                a,
                b,
                r->0,
                install_description(install_ref(h), first_remote(h)),
                install_args(first_remote(h), install_ref(h), Installation::System),
            ),
            None => b == a && r is None,
        },
        _ => b == a && r is None,
    }
}

/// Whether a key in the search field starts a search: a character or Backspace.
pub open spec fn search_key_starts_search(key: KeyCode) -> bool {
    key is Char || key is Backspace
}

/// Whether a key, in this state, starts a search.
pub open spec fn starts_search(a: App, key: KeyCode) -> bool {
    a.mode is Normal && a.focus == Focus::Search && search_key_starts_search(key)
}

/// Whether a key on the list pane starts a job: `U`, `u` with an app under
/// the cursor, or `e` on the Remotes tab with a remote under the cursor.
pub open spec fn list_key_starts_job(a: App, key: KeyCode) -> bool {
    ||| key == KeyCode::Char('U')
    ||| (key == KeyCode::Char('u') && app_under_cursor(a) is Some)
    ||| (key == KeyCode::Char('e') && a.tab == Tab::Remotes && remote_under_cursor(a) is Some)
}

/// Whether a key in a modal dialog starts a job: Enter on a confirmation, `r`
/// in the permissions dialog.
pub open spec fn modal_key_starts_job(a: App, key: KeyCode) -> bool {
    ||| a.mode matches Mode::Modal(Modal::Confirm(_)) && key == KeyCode::Enter
    ||| a.mode matches Mode::Modal(Modal::Permissions { .. }) && key == KeyCode::Char('r')
}

/// Whether a key, in this state, starts a job.
pub open spec fn starts_job(a: App, key: KeyCode) -> bool {
    match a.mode {
        Mode::Modal(_) => modal_key_starts_job(a, key),
        Mode::Normal => match a.focus {
            Focus::List => list_key_starts_job(a, key),
            Focus::Search => key == KeyCode::Enter && hit_under_cursor(a) is Some,
            _ => false,
        },
    }
}

/// The whole effect of an event: non-key events and key releases or repeats
/// change nothing; otherwise the open modal, or else the focused pane, decides.
pub open spec fn input_effect(a: App, b: App, event: Event, r: Option<Action>) -> bool {
    match event {
        Event::Key(k) => if k.kind != KeyEventKind::Press {
            b == a && r is None
        } else if a.mode is Modal {
            modal_input_effect(a, b, k.code, r)
        } else {
            match a.focus {
                Focus::Tabs => b == tab_bar_next(a, k.code) && r is None,
                Focus::List => list_input_effect(a, b, k.code, r),
                Focus::Detail => b == detail_next(a, k.code) && r is None,
                Focus::Search => search_input_effect(a, b, k.code, r),
            }
        },
        Event::Other => b == a && r is None,
    }
}

/// Only these keys start jobs: `u` (with an app under the cursor) and `U` on
/// the list, `e` on the Remotes tab with a remote under the cursor, Enter on a
/// search hit, Enter on a confirmation, and `r` in the permissions dialog.
/// Every other event leaves the job list as it was.
pub proof fn law_only_job_keys_start_jobs(a: App, b: App, event: Event, r: Option<Action>)
    requires
        input_effect(a, b, event, r),
        !(event matches Event::Key(k) && k.kind == KeyEventKind::Press && starts_job(a, k.code)),
    ensures
        b.jobs == a.jobs,
        !(r matches Some(Action::RunJob { .. })),
{
}

/// The quit key ends the application from the tab bar, the list and the details.
pub proof fn law_quit_key(a: App, b: App, r: Option<Action>)
    requires
        a.mode == Mode::Normal,
        a.focus != Focus::Search,
        input_effect(a, b, Event::Key(KeyEvent { code: KeyCode::Char('q'), kind: KeyEventKind::Press }), r),
    ensures
        b.should_quit,
        r is None,
{
}

/// Esc closes any dialog, and otherwise brings the focus back to the tab bar
/// from everywhere but the search field (which it leaves for the list).
pub proof fn law_escape(a: App, b: App, r: Option<Action>)
    requires
        input_effect(a, b, Event::Key(KeyEvent { code: KeyCode::Esc, kind: KeyEventKind::Press }), r),
    ensures
        r is None,
        a.mode is Modal ==> b.mode == Mode::Normal,
        a.mode is Normal && a.focus != Focus::Search ==> b.focus == Focus::Tabs,
        a.mode is Normal && a.focus == Focus::Search ==> b.focus == Focus::List,
{
}

/// Tab cycles the focus: tab bar, list, details, and back to the tab bar.
pub proof fn law_tab_cycles_focus(a: App, b: App, r: Option<Action>)
    requires
        a.mode is Normal,
        a.focus != Focus::Search,
        input_effect(a, b, Event::Key(KeyEvent { code: KeyCode::Tab, kind: KeyEventKind::Press }), r),
    ensures
        r is None,
        b.focus == match a.focus {
            Focus::Tabs => Focus::List,
            Focus::List => Focus::Detail,
            _ => Focus::Tabs,
        },
        b.tab == a.tab,
        b.mode == a.mode,
{
}

/// The help and jobs keys open their dialogs from the tab bar, the list and the details.
pub proof fn law_global_dialog_keys(a: App, b: App, c: char, r: Option<Action>)
    requires
        a.mode is Normal,
        a.focus != Focus::Search,
        c == '?' || c == 'J',
        input_effect(a, b, Event::Key(KeyEvent { code: KeyCode::Char(c), kind: KeyEventKind::Press }), r),
    ensures
        r is None,
        b.mode == Mode::Modal(if c == '?' { Modal::Help } else { Modal::Jobs }),
{
}

/// The number keys switch to their tab from the tab bar, the list and the
/// details, and change nothing else.
pub proof fn law_number_keys(a: App, b: App, key: KeyCode, r: Option<Action>)
    requires
        a.mode is Normal,
        a.focus != Focus::Search,
        tab_key(key) is Some,
        input_effect(a, b, Event::Key(KeyEvent { code: key, kind: KeyEventKind::Press }), r),
    ensures
        r is None,
        b == (App { tab: tab_key(key)->0, ..a }),
{
}

/// `u` on the list updates the app under the cursor in its own
/// installation: the command is `update -y --<its installation> <its ref>`,
/// registered as the next job.
pub proof fn law_update_key_uses_app_installation(a: App, b: App, r: Option<Action>)
    requires
        a.mode is Normal,
        a.focus == Focus::List,
        app_under_cursor(a) is Some,
        input_effect(a, b, Event::Key(KeyEvent { code: KeyCode::Char('u'), kind: KeyEventKind::Press }), r),
    ensures
        r matches Some(Action::RunJob { id, description, args }) && id == JobId(a.jobs@.next_id)
            && texts(args@) == seq![
            "update"@,
            "-y"@,
            "--"@ + installation_name(app_under_cursor(a)->0.installation),
            app_under_cursor(a)->0.ref_@,
        ] && description@ == "update "@ + app_under_cursor(a)->0.ref_@,
{
}

/// `e` on the Remotes tab disables an enabled remote and enables a disabled
/// one, in the remote's own installation: `remote-modify --<its
/// installation> --disable|--enable <its name>`.
pub proof fn law_toggle_key_uses_remote_installation(a: App, b: App, r: Option<Action>)
    requires
        a.mode is Normal,
        a.focus == Focus::List,
        a.tab == Tab::Remotes,
        remote_under_cursor(a) is Some,
        input_effect(a, b, Event::Key(KeyEvent { code: KeyCode::Char('e'), kind: KeyEventKind::Press }), r),
    ensures
        r matches Some(Action::RunJob { id, args, .. }) && id == JobId(a.jobs@.next_id) && texts(args@)
            == seq![
            "remote-modify"@,
            "--"@ + installation_name(remote_under_cursor(a)->0.installation),
            if remote_under_cursor(a)->0.disabled { "--enable"@ } else { "--disable"@ },
            remote_under_cursor(a)->0.name@,
        ],
{
}

/// Confirming an uninstall removes the ref that was asked about from the
/// installation it was asked about: `uninstall -y --<installation> <ref>`.
pub proof fn law_uninstall_uses_confirmed_installation(a: App, b: App, r: Option<Action>)
    requires
        a.mode matches Mode::Modal(Modal::Confirm(_)),
        input_effect(a, b, Event::Key(KeyEvent { code: KeyCode::Enter, kind: KeyEventKind::Press }), r),
    ensures
        b.mode == Mode::Normal,
        a.mode matches Mode::Modal(Modal::Confirm(ConfirmAction::Uninstall { ref_, inst })) && r matches Some(
            Action::RunJob { args, .. },
        ) && texts(args@) == seq!["uninstall"@, "-y"@, "--"@ + installation_name(inst), ref_@],
{
}

proof fn lemma_matching_apps_len(items: Seq<AppRef>, inst: Option<Installation>, filter: Seq<char>)
    ensures
        matching_apps(items, inst, filter).len() <= items.len(),
    decreases items.len(),
{
    if items.len() > 0 {
        lemma_matching_apps_len(items.drop_last(), inst, filter);
    }
}

/// Handles a key on the tab bar.
pub fn handle_tab_bar_input(app: &mut App, key: KeyEvent)
    ensures
        *final(app) == tab_bar_next(*old(app), key.code),
{
    match key.code {
        KeyCode::Char('q') => app.should_quit = true,
        KeyCode::Char('?') => app.mode = Mode::Modal(Modal::Help),
        KeyCode::Char('J') => app.mode = Mode::Modal(Modal::Jobs),
        KeyCode::Char('1') => app.tab = Tab::Apps,
        KeyCode::Char('2') => app.tab = Tab::Runtimes,
        KeyCode::Char('3') => app.tab = Tab::Remotes,
        KeyCode::Char('4') => app.tab = Tab::History,
        KeyCode::Char('5') => app.tab = Tab::Install,
        KeyCode::Tab => app.focus = Focus::List,
        _ => {},
    }
}

fn key_tab(key: KeyCode) -> (r: Option<Tab>)
    ensures
        r == tab_key(key),
{
    match key {
        KeyCode::Char('1') => Some(Tab::Apps),
        KeyCode::Char('2') => Some(Tab::Runtimes),
        KeyCode::Char('3') => Some(Tab::Remotes),
        KeyCode::Char('4') => Some(Tab::History),
        KeyCode::Char('5') => Some(Tab::Install),
        _ => None,
    }
}

fn move_and_refresh(app: &mut App, delta: isize) -> (r: Option<Action>)
    requires
        old(app).well_formed(),
        delta == 1 || delta == -1,
    ensures
        cursor_moved(*old(app), *final(app), delta, r),
        final(app).well_formed(),
{
    proof {
        lemma_matching_apps_len(app.apps.items@, app.apps.filter_inst, app.apps.filter_text@);
    }
    app.apps.move_cursor(delta);
    match app.apps.selected_ref() {
        Some(a) => {
            let s = a.clone();
            Some(start_app_detail_refresh(app, s))
        },
        None => None,
    }
}

fn move_in_list(app: &mut App, delta: isize) -> (r: Option<Action>)
    requires
        old(app).well_formed(),
        delta == 1 || delta == -1,
    ensures
        list_moved(*old(app), *final(app), delta, r),
        final(app).well_formed(),
{
    match app.tab {
        Tab::Apps => move_and_refresh(app, delta),
        Tab::Runtimes => {
            app.runtimes.cursor = move_index(app.runtimes.cursor, delta, app.runtimes.items.len());
            None
        },
        Tab::Remotes => {
            app.remotes.cursor = move_index(app.remotes.cursor, delta, app.remotes.items.len());
            None
        },
        Tab::History => {
            app.history.cursor = move_index(app.history.cursor, delta, app.history.items.len());
            None
        },
        Tab::Install => {
            app.install.cursor = move_index(app.install.cursor, delta, app.install.results.len());
            None
        },
    }
}

/// Handles a key on the list pane.
pub fn handle_list_input(app: &mut App, key: KeyEvent) -> (r: Option<Action>)
    requires
        old(app).well_formed(),
        list_key_starts_job(*old(app), key.code) ==> old(app).jobs@.next_id < u64::MAX,
    ensures
        list_input_effect(*old(app), *final(app), key.code, r),
        final(app).well_formed(),
{
    if let Some(t) = key_tab(key.code) {
        app.tab = t;
        return None;
    }
    match key.code {
        KeyCode::Char('q') => {
            app.should_quit = true;
            None
        },
        KeyCode::Char('?') => {
            app.mode = Mode::Modal(Modal::Help);
            None
        },
        KeyCode::Char('J') => {
            app.mode = Mode::Modal(Modal::Jobs);
            None
        },
        KeyCode::Char('r') => Some(start_tab_refresh(app)),
        KeyCode::Char('j') | KeyCode::Down => move_in_list(app, 1),
        KeyCode::Char('k') | KeyCode::Up => move_in_list(app, -1),
        KeyCode::Char('e') => {
            if app.tab == Tab::Remotes && app.remotes.cursor < app.remotes.items.len() {
                let m = &app.remotes.items[app.remotes.cursor];
                let name = m.name.clone();
                let inst = m.installation;
                let enable = m.disabled;
                Some(start_remote_toggle(app, name, inst, enable))
            } else {
                None
            }
        },
        KeyCode::Char('u') => {
            match app.apps.selected_ref() {
                Some(a) => {
                    let ref_ = a.ref_.clone();
                    let inst = a.installation;
                    Some(start_update(app, Some(ref_), inst))
                },
                None => None,
            }
        },
        KeyCode::Char('U') => {
            let inst = match app.apps.selected_ref() {
                Some(a) => a.installation,
                None => Installation::System,
            };
            Some(start_update(app, None, inst))
        },
        KeyCode::Char('d') => {
            match app.apps.selected_ref() {
                Some(a) => {
                    let ref_ = a.ref_.clone();
                    let inst = a.installation;
                    app.mode = Mode::Modal(Modal::Confirm(ConfirmAction::Uninstall { ref_, inst }));
                },
                None => {},
            }
            None
        },
        KeyCode::Char('p') => {
            match app.apps.selected_ref() {
                Some(a) => {
                    let id = a.id.clone();
                    app.mode = Mode::Modal(Modal::Permissions { id: id.clone() });
                    app.apps.permissions = Vec::new();
                    Some(Action::RefreshPermissions(id))
                },
                None => None,
            }
        },
        KeyCode::Char('/') => {
            if app.tab == Tab::Install {
                app.focus = Focus::Search;
            }
            None
        },
        KeyCode::Tab => {
            app.focus = Focus::Detail;
            None
        },
        KeyCode::BackTab | KeyCode::Esc => {
            app.focus = Focus::Tabs;
            None
        },
        _ => None,
    }
}

/// Handles a key on the detail pane.
pub fn handle_detail_input(app: &mut App, key: KeyEvent)
    ensures
        *final(app) == detail_next(*old(app), key.code),
{
    if let Some(t) = key_tab(key.code) {
        app.tab = t;
        return;
    }
    match key.code {
        KeyCode::Char('q') => app.should_quit = true,
        KeyCode::Char('?') => app.mode = Mode::Modal(Modal::Help),
        KeyCode::Char('J') => app.mode = Mode::Modal(Modal::Jobs),
        KeyCode::Tab | KeyCode::BackTab | KeyCode::Esc => app.focus = Focus::Tabs,
        _ => {},
    }
}

/// The text without its last character, as `String::pop` leaves it (an
/// empty text stays empty).
pub fn without_last_char(s: &str) -> (r: String)
    ensures
        r@ == (if s@.len() == 0 {
            s@
        } else {
            s@.drop_last()
        }),
{
    let v = chars_of(s);
    let n: usize = if v.len() == 0 { 0 } else { v.len() - 1 };
    let mut out = String::new();
    let mut i: usize = 0;
    while i < n
        invariant
            i <= n,
            v@ == s@,
            n == (if v@.len() == 0 { 0 } else { v@.len() - 1 }),
            out@ == s@.take(i as int),
        decreases n - i,
    {
        push_char(&mut out, v[i]);
        assert(s@.take(i + 1) =~= s@.take(i as int).push(s@[i as int]));
        i = i + 1;
    }
    assert(s@.len() > 0 ==> s@.take(n as int) =~= s@.drop_last());
    assert(s@.len() == 0 ==> s@.take(n as int) =~= s@);
    out
}

/// Handles a key in the search field of the Install tab.
pub fn handle_search_input(app: &mut App, key: KeyEvent) -> (r: Option<Action>)
    requires
        old(app).well_formed(),
        search_key_starts_search(key.code) ==> old(app).install.debounce_token < u64::MAX,
        key.code == KeyCode::Enter && hit_under_cursor(*old(app)) is Some
            ==> old(app).jobs@.next_id < u64::MAX,
    ensures
        search_input_effect(*old(app), *final(app), key.code, r),
        final(app).well_formed(),
{
    match key.code {
        KeyCode::Char(c) => {
            push_char(&mut app.install.query, c);
            Some(start_search(app))
        },
        KeyCode::Backspace => {
            let q = without_last_char(app.install.query.as_str());
            app.install.query = q;
            Some(start_search(app))
        },
        KeyCode::Esc => {
            app.focus = Focus::List;
            None
        },
        KeyCode::Enter => {
            if app.install.cursor < app.install.results.len() {
                let hit = &app.install.results[app.install.cursor];
                let remote = hit_first_remote(hit);
                let ref_ = hit_install_ref(hit);
                Some(start_install(app, remote, ref_, Installation::System))
            } else {
                None
            }
        },
        _ => None,
    }
}

/// Handles a key while a modal dialog is open.
pub fn handle_modal_input(app: &mut App, key: KeyEvent) -> (r: Option<Action>)
    requires
        old(app).well_formed(),
        modal_key_starts_job(*old(app), key.code) ==> old(app).jobs@.next_id < u64::MAX,
    ensures
        modal_input_effect(*old(app), *final(app), key.code, r),
        final(app).well_formed(),
{
    let confirmed = match &app.mode {
        Mode::Modal(Modal::Confirm(ConfirmAction::Uninstall { ref_, inst })) => {
            if key.code == KeyCode::Enter {
                Some((ref_.clone(), *inst))
            } else {
                None
            }
        },
        Mode::Modal(Modal::Permissions { id }) if key.code == KeyCode::Char('r') => {
            let id = id.clone();
            return Some(start_permission_reset(app, id));
        },
        _ => {
            if key.code == KeyCode::Esc || key.code == KeyCode::Char('q') {
                app.mode = Mode::Normal;
            }
            return None;
        },
    };
    let r = match confirmed {
        Some((ref_, inst)) => Some(start_uninstall(app, ref_, inst, false)),
        None => None,
    };
    app.mode = Mode::Normal;
    r
}

/// Handles a terminal event.
pub fn handle_input(app: &mut App, event: Event) -> (r: Option<Action>)
    requires
        old(app).well_formed(),
        event matches Event::Key(k) && k.kind == KeyEventKind::Press && starts_job(*old(app), k.code)
            ==> old(app).jobs@.next_id < u64::MAX,
        event matches Event::Key(k) && k.kind == KeyEventKind::Press && starts_search(*old(app), k.code)
            ==> old(app).install.debounce_token < u64::MAX,
    ensures
        input_effect(*old(app), *final(app), event, r),
        final(app).well_formed(),
{
    match event {
        Event::Key(key) => {
            if key.kind != KeyEventKind::Press {
                return None;
            }
            if matches!(app.mode, Mode::Modal(_)) {
                return handle_modal_input(app, key);
            }
            match app.focus {
                Focus::Tabs => {
                    handle_tab_bar_input(app, key);
                    None
                },
                Focus::List => handle_list_input(app, key),
                Focus::Detail => {
                    handle_detail_input(app, key);
                    None
                },
                Focus::Search => handle_search_input(app, key),
            }
        },
        Event::Other => None,
    }
}

/// Whether an event, in this state, starts a job (and so needs a fresh job id).
pub fn would_start_job(app: &App, event: &Event) -> (r: bool)
    ensures
        r == (*event matches Event::Key(k) && k.kind == KeyEventKind::Press && starts_job(*app, k.code)),
{
    let key = match event {
        Event::Key(k) => {
            if k.kind != KeyEventKind::Press {
                return false;
            }
            k.code
        },
        Event::Other => {
            return false;
        },
    };
    match &app.mode {
        Mode::Modal(Modal::Confirm(_)) => key == KeyCode::Enter,
        Mode::Modal(Modal::Permissions { .. }) => key == KeyCode::Char('r'),
        Mode::Modal(_) => false,
        Mode::Normal => match app.focus {
            Focus::List => key == KeyCode::Char('U') || (key == KeyCode::Char('u')
                && app.apps.cursor < app.apps.items.len()) || (key == KeyCode::Char('e') && app.tab
                == Tab::Remotes && app.remotes.cursor < app.remotes.items.len()),
            Focus::Search => key == KeyCode::Enter && app.install.cursor < app.install.results.len(),
            _ => false,
        },
    }
}

/// Whether an event, in this state, starts a search (and so needs a fresh token).
pub fn would_start_search(app: &App, event: &Event) -> (r: bool)
    ensures
        r == (*event matches Event::Key(k) && k.kind == KeyEventKind::Press && starts_search(*app, k.code)),
{
    match event {
        Event::Key(k) => k.kind == KeyEventKind::Press && matches!(app.mode, Mode::Normal) && app.focus
            == Focus::Search && (matches!(k.code, KeyCode::Char(_)) || k.code == KeyCode::Backspace),
        Event::Other => false,
    }
}

} // verus!
