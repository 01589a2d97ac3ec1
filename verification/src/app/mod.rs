//! The application state and the rules by which keys, query results and job
//! events change it. What the rules ask the outside world to do (list the
//! apps, fetch details, run a `flatpak` command) comes back as an `Action`.

pub mod input;
pub mod mode;
pub mod tabs;

use vstd::prelude::*;
use crate::app::mode::{Focus, Modal, Mode, Tab};
use crate::app::tabs::apps::AppsTab;
use crate::app::tabs::history::HistoryTab;
use crate::app::tabs::install::InstallTab;
use crate::app::tabs::remotes::RemotesTab;
use crate::app::tabs::runtimes::RuntimesTab;
use crate::flatpak_service::error::error_text;
use crate::flatpak_service::job::{jobs_wf, registered, applied, JobEvent, JobId, JobManager};
use crate::flatpak_service::types::{
    installation_name, AppDetail, AppRef, HistoryEntry, Installation, Permission, Remote, SearchHit,
};
use crate::text::{contains_seq, contains_str, dec, push_decimal, push_str};

verus! {

/// Query results that arrive from background tasks.
#[derive(Debug)]
pub enum RefreshMsg {
    Apps(Vec<AppRef>),
    AppDetail { app_ref: AppRef, detail: crate::flatpak_service::Result<AppDetail> },
    Runtimes(Vec<AppRef>),
    Remotes(Vec<Remote>),
    History(Vec<HistoryEntry>),
    SearchResults { token: u64, results: crate::flatpak_service::Result<Vec<SearchHit>> },
    Permissions { id: String, perms: crate::flatpak_service::Result<Vec<Permission>> },
}

/// A short message shown over the main window.
#[derive(Debug, Clone)]
pub enum Toast {
    Info(String),
    Error(String),
}

/// Work the state machine hands to the outside world.
#[derive(Debug, Clone)]
pub enum Action {
    /// List the installed apps and answer with `RefreshMsg::Apps`.
    RefreshApps,
    /// List the installed runtimes and answer with `RefreshMsg::Runtimes`.
    RefreshRuntimes,
    /// List the configured remotes and answer with `RefreshMsg::Remotes`.
    RefreshRemotes,
    /// List the history and answer with `RefreshMsg::History`.
    RefreshHistory,
    /// Fetch the details of a ref and answer with `RefreshMsg::AppDetail`.
    RefreshAppDetail(AppRef),
    /// Run `flatpak` with these arguments as the job `id` and report its events.
    RunJob { id: JobId, description: String, args: Vec<String> },
    /// After a short pause, search the remotes for `query` and answer with
    /// `RefreshMsg::SearchResults` carrying `token`.
    Search { token: u64, query: String },
    /// Fetch the permissions of an app id and answer with `RefreshMsg::Permissions`.
    RefreshPermissions(String),
}

/// The texts of a run of strings.
pub open spec fn texts(v: Seq<String>) -> Seq<Seq<char>> {
    v.map_values(|s: String| s@)
}

/// The whole state of the application.
pub struct App {
    pub mode: Mode,
    pub tab: Tab,
    pub focus: Focus,
    pub apps: AppsTab,
    pub runtimes: RuntimesTab,
    pub remotes: RemotesTab,
    pub history: HistoryTab,
    pub install: InstallTab,
    pub jobs: JobManager,
    /// The toast shown and the time, in milliseconds on the caller's clock, it was set.
    pub toast: Option<(Toast, u64)>,
    pub should_quit: bool,
    pub last_width: u16,
    pub last_height: u16,
}

/// How long a toast stays up: it goes once more than five whole seconds have passed.
pub open spec fn toast_expired(set_at: u64, now: u64) -> bool {
    (if now >= set_at { now - set_at } else { 0 }) / 1000 > 5
}

/// A toast stays up for the first six seconds and goes from then on.
pub proof fn law_toast_lifetime(set_at: u64, now: u64)
    ensures
        now < set_at + 6000 ==> !toast_expired(set_at, now),
        now >= set_at + 6000 ==> toast_expired(set_at, now),
{
}

impl App {
    /// The state the rules keep: a well-formed job list, and lists and
    /// cursors small enough for cursor arithmetic in `isize`.
    pub open spec fn well_formed(&self) -> bool {
        &&& jobs_wf(self.jobs@)
        &&& self.apps.cursor < isize::MAX
        &&& self.apps.items@.len() <= isize::MAX
        &&& self.runtimes.cursor < isize::MAX
        &&& self.runtimes.items@.len() <= isize::MAX
        &&& self.remotes.cursor < isize::MAX
        &&& self.remotes.items@.len() <= isize::MAX
        &&& self.history.cursor < isize::MAX
        &&& self.history.items@.len() <= isize::MAX
        &&& self.install.cursor < isize::MAX
        &&& self.install.results@.len() <= isize::MAX
    }

    /// The starting state: the Apps tab with the focus on its list, no jobs, no toast.
    pub fn new() -> (app: Self)
        ensures
            app.mode == Mode::Normal,
            app.tab == Tab::Apps,
            app.focus == Focus::List,
            app.apps.items@.len() == 0 && app.apps.cursor == 0 && app.apps.detail is None,
            !app.apps.loading && !app.apps.detail_loading && app.apps.filter_inst is None,
            app.apps.filter_text@.len() == 0 && app.apps.permissions@.len() == 0,
            app.runtimes.items@.len() == 0 && app.runtimes.cursor == 0 && !app.runtimes.loading,
            app.remotes.items@.len() == 0 && app.remotes.cursor == 0 && !app.remotes.loading,
            app.history.items@.len() == 0 && app.history.cursor == 0 && !app.history.loading,
            app.install.results@.len() == 0 && app.install.cursor == 0 && !app.install.loading,
            app.install.query@.len() == 0 && app.install.debounce_token == 0,
            app.jobs@.next_id == 1 && app.jobs@.jobs.len() == 0,
            app.toast is None,
            !app.should_quit,
            app.last_width == 0 && app.last_height == 0,
            app.well_formed(),
    {
        App {
            mode: Mode::Normal,
            tab: Tab::Apps,
            focus: Focus::List,
            apps: AppsTab::default(),
            runtimes: RuntimesTab::default(),
            remotes: RemotesTab::default(),
            history: HistoryTab::default(),
            install: InstallTab::default(),
            jobs: JobManager::new(),
            toast: None,
            should_quit: false,
            last_width: 0,
            last_height: 0,
        }
    }

    /// Shows a toast, stamped with the current time `now` (milliseconds).
    pub fn set_toast(&mut self, toast: Toast, now: u64)
        ensures
            *final(self) == (App { toast: Some((toast, now)), ..*old(self) }),
    {
        self.toast = Some((toast, now));
    }

    /// Removes the toast once it has expired at time `now` (milliseconds).
    pub fn clear_expired_toast(&mut self, now: u64)
        ensures
            *final(self) == (match old(self).toast {
                Some((_, t)) => if toast_expired(t, now) {
                    App { toast: None, ..*old(self) }
                } else {
                    *old(self)
                },
                None => *old(self),
            }),
    {
        let expired = match &self.toast {
            Some((_, t)) => {
                let elapsed = if now >= *t { now - *t } else { 0 };
                elapsed / 1000 > 5
            },
            None => false,
        };
        if expired {
            self.toast = None;
        }
    }
}

/// Marks the apps list as loading and asks for it to be listed.
pub fn start_apps_refresh(app: &mut App) -> (r: Action)
    ensures
        *final(app) == (App { apps: AppsTab { loading: true, ..old(app).apps }, ..*old(app) }),
        r == Action::RefreshApps,
{
    app.apps.loading = true;
    Action::RefreshApps
}

/// What `r` does on a tab: the list of the current tab is marked as loading
/// and asked for; on the Apps and Install tabs that is the apps list.
pub open spec fn tab_refresh_started(a: App, b: App, r: Option<Action>) -> bool {
    match a.tab {
        Tab::Runtimes => {
            &&& b == App { runtimes: RuntimesTab { loading: true, ..a.runtimes }, ..a }
            &&& r == Some(Action::RefreshRuntimes)
        },
        Tab::Remotes => {
            &&& b == App { remotes: RemotesTab { loading: true, ..a.remotes }, ..a }
            &&& r == Some(Action::RefreshRemotes)
        },
        Tab::History => {
            &&& b == App { history: HistoryTab { loading: true, ..a.history }, ..a }
            &&& r == Some(Action::RefreshHistory)
        },
        _ => {
            &&& b == App { apps: AppsTab { loading: true, ..a.apps }, ..a }
            &&& r == Some(Action::RefreshApps)
        },
    }
}

/// Marks the list of the current tab as loading and asks for it.
pub fn start_tab_refresh(app: &mut App) -> (r: Action)
    ensures
        tab_refresh_started(*old(app), *final(app), Some(r)),
{
    match app.tab {
        Tab::Runtimes => {
            app.runtimes.loading = true;
            Action::RefreshRuntimes
        },
        Tab::Remotes => {
            app.remotes.loading = true;
            Action::RefreshRemotes
        },
        Tab::History => {
            app.history.loading = true;
            Action::RefreshHistory
        },
        _ => start_apps_refresh(app),
    }
}

/// Marks the details as loading and asks for those of `app_ref`.
pub fn start_app_detail_refresh(app: &mut App, app_ref: AppRef) -> (r: Action)
    ensures
        *final(app) == (App { apps: AppsTab { detail_loading: true, ..old(app).apps }, ..*old(app) }),
        r == Action::RefreshAppDetail(app_ref),
{
    app.apps.detail_loading = true;
    Action::RefreshAppDetail(app_ref)
}

/// The description of an update job: of one ref, or of all refs of an installation.
pub open spec fn update_description(ref_: Option<Seq<char>>, inst: Installation) -> Seq<char> {
    match ref_ {
        Some(r) => "update "@ + r,
        None => "update all ("@ + installation_name(inst) + ")"@,
    }
}

/// The `flatpak` arguments of an update job.
pub open spec fn update_args(ref_: Option<Seq<char>>, inst: Installation) -> Seq<Seq<char>> {
    let base = seq!["update"@, "-y"@, "--"@ + installation_name(inst)];
    match ref_ {
        Some(r) => base.push(r),
        None => base,
    }
}

/// The description of an uninstall job.
pub open spec fn uninstall_description(ref_: Seq<char>) -> Seq<char> {
    "uninstall "@ + ref_
}

/// The `flatpak` arguments of an uninstall job.
pub open spec fn uninstall_args(ref_: Seq<char>, inst: Installation, delete_data: bool) -> Seq<Seq<char>> {
    let base = seq!["uninstall"@, "-y"@, "--"@ + installation_name(inst), ref_];
    if delete_data {
        base.push("--delete-data"@)
    } else {
        base
    }
}

/// `b` is `a` with one more job, registered with this description, and `r`
/// asks to run it with these arguments.
pub open spec fn started_job(
    a: App,
    b: App,
    r: Action,
    description: Seq<char>,
    args: Seq<Seq<char>>,
) -> bool {
    &&& b.jobs@ == registered(a.jobs@, description)
    &&& b == App { jobs: b.jobs, ..a }
    &&& r matches Action::RunJob { id, description: d, args: g }
    &&& id == JobId(a.jobs@.next_id)
    &&& d@ == description
    &&& texts(g@) == args
}

fn push_installation_flag(v: &mut Vec<String>, inst: Installation)
    ensures
        texts(final(v)@) == texts(old(v)@).push("--"@ + installation_name(inst)),
{
    let mut flag = String::from_str("--");
    let name = inst.to_string();
    push_str(&mut flag, name.as_str());
    v.push(flag);
    assert(texts(v@) =~= texts(old(v)@).push("--"@ + installation_name(inst)));
}

fn push_text(v: &mut Vec<String>, t: &str)
    ensures
        texts(final(v)@) == texts(old(v)@).push(t@),
{
    v.push(String::from_str(t));
    assert(texts(v@) =~= texts(old(v)@).push(t@));
}

/// Registers an update job, of one ref or of every ref of an installation.
pub fn start_update(app: &mut App, ref_: Option<String>, inst: Installation) -> (r: Action)
    requires
        jobs_wf(old(app).jobs@),
        old(app).jobs@.next_id < u64::MAX,
    ensures
        started_job(
            *old(app),
            *final(app),
            r,
            update_description(
                match ref_ {
                    Some(s) => Some(s@),
                    None => None,
                },
                inst,
            ),
            update_args(
                match ref_ {
                    Some(s) => Some(s@),
                    None => None,
                },
                inst,
            ),
        ),
        jobs_wf(final(app).jobs@),
{
    let mut args: Vec<String> = Vec::new();
    push_text(&mut args, "update");
    push_text(&mut args, "-y");
    push_installation_flag(&mut args, inst);
    let mut description = String::new();
    match &ref_ {
        Some(r) => {
            push_str(&mut description, "update ");
            push_str(&mut description, r.as_str());
            let ghost before = texts(args@);
            args.push(r.clone());
            assert(texts(args@) =~= before.push(r@));
        },
        None => {
            push_str(&mut description, "update all (");
            let name = inst.to_string();
            push_str(&mut description, name.as_str());
            push_str(&mut description, ")");
        },
    }
    proof {
        let ro = match ref_ {
            Some(s) => Some(s@),
            None => None,
        };
        assert(description@ =~= update_description(ro, inst));
        assert(texts(args@) =~= update_args(ro, inst));
    }
    let id = app.jobs.register(description.clone());
    Action::RunJob { id, description, args }
}

/// The ref an install of a search hit asks for: a runtime when its id names
/// one (holds `.Runtime`), else an app, of the hit's id and branch, for x86_64.
pub open spec fn install_ref(h: SearchHit) -> Seq<char> {
    (if contains_seq(h.id@, ".Runtime"@) {
        "runtime"@
    } else {
        "app"@
    }) + "/"@ + h.id@ + "/x86_64/"@ + h.branch@
}

/// The remote an install of a search hit takes it from: the first one listed,
/// or an empty name when none is.
pub open spec fn first_remote(h: SearchHit) -> Seq<char> {
    if h.remotes@.len() > 0 {
        h.remotes@[0]@
    } else {
        seq![]
    }
}

/// The description of an install job.
pub open spec fn install_description(ref_: Seq<char>, remote: Seq<char>) -> Seq<char> {
    "install "@ + ref_ + " from "@ + remote
}

/// The `flatpak` arguments of an install job.
pub open spec fn install_args(remote: Seq<char>, ref_: Seq<char>, inst: Installation) -> Seq<Seq<char>> {
    seq!["install"@, "-y"@, "--"@ + installation_name(inst), remote, ref_]
}

/// Builds the ref an install of a search hit asks for.
pub fn hit_install_ref(h: &SearchHit) -> (r: String)
    ensures
        r@ == install_ref(*h),
{
    let mut s = String::new();
    if contains_str(h.id.as_str(), ".Runtime") {
        push_str(&mut s, "runtime");
    } else {
        push_str(&mut s, "app");
    }
    push_str(&mut s, "/");
    push_str(&mut s, h.id.as_str());
    push_str(&mut s, "/x86_64/");
    push_str(&mut s, h.branch.as_str());
    assert(s@ =~= install_ref(*h));
    s
}

/// The remote an install of a search hit takes it from.
pub fn hit_first_remote(h: &SearchHit) -> (r: String)
    ensures
        r@ == first_remote(*h),
{
    if h.remotes.len() > 0 {
        h.remotes[0].clone()
    } else {
        String::new()
    }
}

/// Registers an install job of a ref from a remote.
pub fn start_install(app: &mut App, remote: String, ref_: String, inst: Installation) -> (r: Action)
    requires
        jobs_wf(old(app).jobs@),
        old(app).jobs@.next_id < u64::MAX,
    ensures
        started_job(
            *old(app),
            *final(app),
            r,
            install_description(ref_@, remote@),
            install_args(remote@, ref_@, inst),
        ),
        jobs_wf(final(app).jobs@),
{
    let mut args: Vec<String> = Vec::new();
    push_text(&mut args, "install");
    push_text(&mut args, "-y");
    push_installation_flag(&mut args, inst);
    let ghost before = texts(args@);
    args.push(remote.clone());
    assert(texts(args@) =~= before.push(remote@));
    let ghost before2 = texts(args@);
    args.push(ref_.clone());
    assert(texts(args@) =~= before2.push(ref_@));
    let mut description = String::new();
    push_str(&mut description, "install ");
    push_str(&mut description, ref_.as_str());
    push_str(&mut description, " from ");
    push_str(&mut description, remote.as_str());
    proof {
        assert(description@ =~= install_description(ref_@, remote@));
        assert(texts(args@) =~= install_args(remote@, ref_@, inst));
    }
    let id = app.jobs.register(description.clone());
    Action::RunJob { id, description, args }
}

/// Marks the Install tab as loading under a new token and asks for the hits
/// of its query under that token; answers to older tokens will be dropped.
pub fn start_search(app: &mut App) -> (r: Action)
    requires
        old(app).install.debounce_token < u64::MAX,
    ensures
        *final(app) == (App {
            install: InstallTab {
                loading: true,
                debounce_token: (old(app).install.debounce_token + 1) as u64,
                ..old(app).install
            },
            ..*old(app)
        }),
        r matches Action::Search { token, query } && token == final(app).install.debounce_token
            && query@ == old(app).install.query@,
{
    app.install.loading = true;
    app.install.debounce_token = app.install.debounce_token + 1;
    Action::Search { token: app.install.debounce_token, query: app.install.query.clone() }
}

/// The description of a job that enables or disables a remote.
pub open spec fn remote_toggle_description(name: Seq<char>, enable: bool) -> Seq<char> {
    (if enable {
        "enable remote "@
    } else {
        "disable remote "@
    }) + name
}

/// The `flatpak` arguments of a job that enables or disables a remote.
pub open spec fn remote_toggle_args(name: Seq<char>, inst: Installation, enable: bool) -> Seq<Seq<char>> {
    seq![
        "remote-modify"@,
        "--"@ + installation_name(inst),
        if enable {
            "--enable"@
        } else {
            "--disable"@
        },
        name,
    ]
}

/// Registers a job that enables (or disables) a remote.
pub fn start_remote_toggle(app: &mut App, name: String, inst: Installation, enable: bool) -> (r: Action)
    requires
        jobs_wf(old(app).jobs@),
        old(app).jobs@.next_id < u64::MAX,
    ensures
        started_job(
            *old(app),
            *final(app),
            r,
            remote_toggle_description(name@, enable),
            remote_toggle_args(name@, inst, enable),
        ),
        jobs_wf(final(app).jobs@),
{
    let mut args: Vec<String> = Vec::new();
    push_text(&mut args, "remote-modify");
    push_installation_flag(&mut args, inst);
    let mut description = String::new();
    if enable {
        push_text(&mut args, "--enable");
        push_str(&mut description, "enable remote ");
    } else {
        push_text(&mut args, "--disable");
        push_str(&mut description, "disable remote ");
    }
    let ghost before = texts(args@);
    args.push(name.clone());
    assert(texts(args@) =~= before.push(name@));
    push_str(&mut description, name.as_str());
    proof {
        assert(description@ =~= remote_toggle_description(name@, enable));
        assert(texts(args@) =~= remote_toggle_args(name@, inst, enable));
    }
    let id = app.jobs.register(description.clone());
    Action::RunJob { id, description, args }
}

/// The description of a job that resets the permissions of an app.
pub open spec fn permission_reset_description(id: Seq<char>) -> Seq<char> {
    "reset permissions of "@ + id
}

/// The `flatpak` arguments of a job that resets the permissions of an app.
pub open spec fn permission_reset_args(id: Seq<char>) -> Seq<Seq<char>> {
    seq!["permission-reset"@, id]
}

/// Registers a job that resets the permissions of an app.
pub fn start_permission_reset(app: &mut App, id: String) -> (r: Action)
    requires
        jobs_wf(old(app).jobs@),
        old(app).jobs@.next_id < u64::MAX,
    ensures
        started_job(*old(app), *final(app), r, permission_reset_description(id@), permission_reset_args(id@)),
        jobs_wf(final(app).jobs@),
{
    let mut args: Vec<String> = Vec::new();
    push_text(&mut args, "permission-reset");
    let ghost before = texts(args@);
    args.push(id.clone());
    assert(texts(args@) =~= before.push(id@));
    let mut description = String::new();
    push_str(&mut description, "reset permissions of ");
    push_str(&mut description, id.as_str());
    proof {
        assert(description@ =~= permission_reset_description(id@));
        assert(texts(args@) =~= permission_reset_args(id@));
    }
    let id = app.jobs.register(description.clone());
    Action::RunJob { id, description, args }
}

/// Every job command names the installation it works on with `--system` or
/// `--user`, right after the verb (and `-y`), followed by what it works on:
/// the ref of an update or uninstall, the remote and ref of an install, the
/// remote's name for enabling or disabling it. Commands for two different
/// installations never carry the same flag.
pub proof fn law_job_commands_name_installation(
    one: Option<Seq<char>>,
    r: Seq<char>,
    remote: Seq<char>,
    inst: Installation,
    other: Installation,
    delete_data: bool,
    enable: bool,
)
    ensures
        update_args(one, inst).take(3) == seq!["update"@, "-y"@, "--"@ + installation_name(inst)],
        one is None ==> update_args(one, inst).len() == 3,
        one matches Some(x) ==> update_args(one, inst).len() == 4 && update_args(one, inst)[3] == x,
        uninstall_args(r, inst, delete_data).take(4) == seq![
            "uninstall"@,
            "-y"@,
            "--"@ + installation_name(inst),
            r,
        ],
        uninstall_args(r, inst, delete_data).len() == if delete_data { 5int } else { 4int },
        delete_data ==> uninstall_args(r, inst, delete_data)[4] == "--delete-data"@,
        install_args(remote, r, inst) == seq![
            "install"@,
            "-y"@,
            "--"@ + installation_name(inst),
            remote,
            r,
        ],
        remote_toggle_args(remote, inst, enable) == seq![
            "remote-modify"@,
            "--"@ + installation_name(inst),
            if enable { "--enable"@ } else { "--disable"@ },
            remote,
        ],
        inst != other ==> {
            &&& update_args(one, inst)[2] != update_args(one, other)[2]
            &&& uninstall_args(r, inst, delete_data)[2] != uninstall_args(r, other, delete_data)[2]
            &&& install_args(remote, r, inst)[2] != install_args(remote, r, other)[2]
            &&& remote_toggle_args(remote, inst, enable)[1] != remote_toggle_args(remote, other, enable)[1]
        },
{
    assert(update_args(one, inst).take(3) =~= seq!["update"@, "-y"@, "--"@ + installation_name(inst)]);
    assert(uninstall_args(r, inst, delete_data).take(4) =~= seq![
        "uninstall"@,
        "-y"@,
        "--"@ + installation_name(inst),
        r,
    ]);
    if inst != other {
        let fi = "--"@ + installation_name(inst);
        let fo = "--"@ + installation_name(other);
        assert(installation_name(inst).len() != installation_name(other).len());
        assert(fi.len() != fo.len());
        assert(update_args(one, inst)[2] == fi);
        assert(update_args(one, other)[2] == fo);
        assert(uninstall_args(r, inst, delete_data)[2] == fi);
        assert(uninstall_args(r, other, delete_data)[2] == fo);
    }
}

/// Registers an uninstall job for a ref.
pub fn start_uninstall(app: &mut App, ref_: String, inst: Installation, delete_data: bool) -> (r: Action)
    requires
        jobs_wf(old(app).jobs@),
        old(app).jobs@.next_id < u64::MAX,
    ensures
        started_job(
            *old(app),
            *final(app),
            r,
            uninstall_description(ref_@),
            uninstall_args(ref_@, inst, delete_data),
        ),
        jobs_wf(final(app).jobs@),
{
    let mut args: Vec<String> = Vec::new();
    push_text(&mut args, "uninstall");
    push_text(&mut args, "-y");
    push_installation_flag(&mut args, inst);
    let ghost before = texts(args@);
    args.push(ref_.clone());
    assert(texts(args@) =~= before.push(ref_@));
    if delete_data {
        push_text(&mut args, "--delete-data");
    }
    let mut description = String::new();
    push_str(&mut description, "uninstall ");
    push_str(&mut description, ref_.as_str());
    proof {
        assert(description@ =~= uninstall_description(ref_@));
        assert(texts(args@) =~= uninstall_args(ref_@, inst, delete_data));
    }
    let id = app.jobs.register(description.clone());
    Action::RunJob { id, description, args }
}


/// `b` shows an error toast with this text, stamped `now`.
pub open spec fn shows_error(b: App, text: Seq<char>, now: u64) -> bool {
    b.toast matches Some((Toast::Error(m), t)) && m@ == text && t == now
}

/// What a query result does to the state: a new apps list resets the cursor
/// and, when it is not empty, asks for the details of its first app; details
/// are kept (or their error shown) only when they are for the app under the
/// cursor; runtimes, remotes and history replace their lists; search results
/// count only when they answer the latest query; permissions count only while
/// the permissions dialog of their app is open.
pub open spec fn refresh_applied(a: App, b: App, msg: RefreshMsg, now: u64, r: Option<Action>) -> bool {
    match msg {
        RefreshMsg::Apps(items) => {
            let a1 = App { apps: AppsTab { items, loading: false, cursor: 0, ..a.apps }, ..a };
            if items@.len() > 0 {
                &&& b == App { apps: AppsTab { detail_loading: true, ..a1.apps }, ..a1 }
                &&& r == Some(Action::RefreshAppDetail(items@[0]))
            } else {
                b == a1 && r is None
            }
        },
        RefreshMsg::AppDetail { app_ref, detail } => {
            &&& r is None
            &&& if a.apps.cursor < a.apps.items@.len() && a.apps.items@[a.apps.cursor as int].ref_@
                == app_ref.ref_@ {
                match detail {
                    Ok(d) => b == App {
                        apps: AppsTab { detail: Some(d), detail_loading: false, ..a.apps },
                        ..a
                    },
                    Err(e) => {
                        &&& shows_error(b, error_text(e), now)
                        &&& b == App {
                            apps: AppsTab { detail_loading: false, ..a.apps },
                            toast: b.toast,
                            ..a
                        }
                    },
                }
            } else {
                b == a
            }
        },
        RefreshMsg::Runtimes(items) => {
            &&& b == App {
                runtimes: RuntimesTab { items, loading: false, cursor: 0, ..a.runtimes },
                ..a
            }
            &&& r is None
        },
        RefreshMsg::Remotes(items) => {
            &&& b == App {
                remotes: RemotesTab { items, loading: false, cursor: 0, ..a.remotes },
                ..a
            }
            &&& r is None
        },
        RefreshMsg::History(items) => {
            &&& b == App {
                history: HistoryTab { items, loading: false, cursor: 0, ..a.history },
                ..a
            }
            &&& r is None
        },
        RefreshMsg::SearchResults { token, results } => {
            &&& r is None
            &&& if token == a.install.debounce_token {
                match results {
                    Ok(items) => b == App {
                        install: InstallTab { results: items, loading: false, ..a.install },
                        ..a
                    },
                    Err(e) => {
                        &&& shows_error(b, error_text(e), now)
                        &&& b == App {
                            install: InstallTab { loading: false, ..a.install },
                            toast: b.toast,
                            ..a
                        }
                    },
                }
            } else {
                b == a
            }
        },
        RefreshMsg::Permissions { id, perms } => {
            &&& r is None
            &&& if a.mode matches Mode::Modal(Modal::Permissions { id: shown }) && shown@ == id@ {
                match perms {
                    Ok(p) => b == App { apps: AppsTab { permissions: p, ..a.apps }, ..a },
                    Err(e) => shows_error(b, error_text(e), now) && b == App { toast: b.toast, ..a },
                }
            } else {
                b == a
            }
        },
    }
}

/// A list that arrives replaces the list of its tab, which stops loading and
/// puts its cursor on the first entry; the other tabs and the jobs stay as
/// they were. Search hits for the latest query replace the hits; permissions
/// for the open dialog's app replace the permissions; details for the app
/// under the cursor replace the details.
pub proof fn law_lists_replaced(a: App, b: App, msg: RefreshMsg, now: u64, r: Option<Action>)
    requires
        refresh_applied(a, b, msg, now, r),
    ensures
        b.jobs == a.jobs,
        msg matches RefreshMsg::Apps(items) ==> b.apps.items@ == items@ && b.apps.cursor == 0
            && !b.apps.loading && b.runtimes == a.runtimes && b.remotes == a.remotes && b.history
            == a.history && b.install == a.install,
        msg matches RefreshMsg::Runtimes(items) ==> b.runtimes.items@ == items@ && b.runtimes.cursor
            == 0 && !b.runtimes.loading && b.apps == a.apps && b.remotes == a.remotes && b.history
            == a.history && b.install == a.install,
        msg matches RefreshMsg::Remotes(items) ==> b.remotes.items@ == items@ && b.remotes.cursor
            == 0 && !b.remotes.loading && b.apps == a.apps && b.runtimes == a.runtimes && b.history
            == a.history && b.install == a.install,
        msg matches RefreshMsg::History(items) ==> b.history.items@ == items@ && b.history.cursor
            == 0 && !b.history.loading && b.apps == a.apps && b.runtimes == a.runtimes && b.remotes
            == a.remotes && b.install == a.install,
        msg matches RefreshMsg::SearchResults { token, results: Ok(items) } ==> (token
            == a.install.debounce_token ==> b.install.results@ == items@ && !b.install.loading),
        msg matches RefreshMsg::Permissions { id, perms: Ok(p) } ==> (a.mode matches Mode::Modal(
            Modal::Permissions { id: shown },
        ) ==> (shown@ == id@ ==> b.apps.permissions@ == p@)),
        msg matches RefreshMsg::AppDetail { app_ref, detail: Ok(d) } ==> (app_under_cursor_ref(a)
            == Some(app_ref.ref_@) ==> b.apps.detail == Some(d) && !b.apps.detail_loading),
{
}

/// The ref of the app under the cursor of the apps list, if any.
pub open spec fn app_under_cursor_ref(a: App) -> Option<Seq<char>> {
    if a.apps.cursor < a.apps.items@.len() {
        Some(a.apps.items@[a.apps.cursor as int].ref_@)
    } else {
        None
    }
}

/// Details that arrive for an app other than the one under the cursor are
/// dropped: the state does not change.
pub proof fn law_stale_detail_dropped(a: App, b: App, msg: RefreshMsg, now: u64, r: Option<Action>)
    requires
        refresh_applied(a, b, msg, now, r),
        msg is AppDetail,
        !(a.apps.cursor < a.apps.items@.len() && a.apps.items@[a.apps.cursor as int].ref_@
            == msg->AppDetail_app_ref.ref_@),
    ensures
        b == a,
        r is None,
{
}

/// Search results that do not answer the latest query are dropped.
pub proof fn law_stale_search_dropped(a: App, b: App, msg: RefreshMsg, now: u64, r: Option<Action>)
    requires
        refresh_applied(a, b, msg, now, r),
        msg is SearchResults,
        msg->SearchResults_token != a.install.debounce_token,
    ensures
        b == a,
        r is None,
{
}

/// Applies a query result at time `now` (milliseconds).
pub fn apply_refresh(app: &mut App, msg: RefreshMsg, now: u64) -> (r: Option<Action>)
    requires
        old(app).well_formed(),
        msg matches RefreshMsg::Apps(items) ==> items@.len() <= isize::MAX,
        msg matches RefreshMsg::Runtimes(items) ==> items@.len() <= isize::MAX,
        msg matches RefreshMsg::Remotes(items) ==> items@.len() <= isize::MAX,
        msg matches RefreshMsg::History(items) ==> items@.len() <= isize::MAX,
        msg matches RefreshMsg::SearchResults { results: Ok(items), .. } ==> items@.len() <= isize::MAX,
    ensures
        refresh_applied(*old(app), *final(app), msg, now, r),
        final(app).well_formed(),
{
    match msg {
        RefreshMsg::Apps(items) => {
            app.apps.items = items;
            app.apps.loading = false;
            app.apps.cursor = 0;
            match app.apps.selected_ref() {
                Some(a) => {
                    let first = a.clone();
                    Some(start_app_detail_refresh(app, first))
                },
                None => None,
            }
        },
        RefreshMsg::AppDetail { app_ref, detail } => {
            let same = match app.apps.selected_ref() {
                Some(a) => a.ref_ == app_ref.ref_,
                None => false,
            };
            if same {
                match detail {
                    Ok(d) => app.apps.detail = Some(d),
                    Err(e) => app.set_toast(Toast::Error(e.to_string()), now),
                }
                app.apps.detail_loading = false;
            }
            None
        },
        RefreshMsg::Runtimes(items) => {
            app.runtimes.items = items;
            app.runtimes.loading = false;
            app.runtimes.cursor = 0;
            None
        },
        RefreshMsg::Remotes(items) => {
            app.remotes.items = items;
            app.remotes.loading = false;
            app.remotes.cursor = 0;
            None
        },
        RefreshMsg::History(items) => {
            app.history.items = items;
            app.history.loading = false;
            app.history.cursor = 0;
            None
        },
        RefreshMsg::SearchResults { token, results } => {
            if token == app.install.debounce_token {
                match results {
                    Ok(items) => app.install.results = items,
                    Err(e) => app.set_toast(Toast::Error(e.to_string()), now),
                }
                app.install.loading = false;
            }
            None
        },
        RefreshMsg::Permissions { id, perms } => {
            let open = match &app.mode {
                Mode::Modal(Modal::Permissions { id: shown }) => *shown == id,
                _ => false,
            };
            if open {
                match perms {
                    Ok(p) => app.apps.permissions = p,
                    Err(e) => app.set_toast(Toast::Error(e.to_string()), now),
                }
            }
            None
        },
    }
}

/// The toast text of a failed job.
pub open spec fn job_failure_text(id: u64, msg: Seq<char>) -> Seq<char> {
    "Job JobId("@ + dec(id as nat) + ") failed: "@ + msg
}

/// The toast text of a finished job.
pub open spec fn job_finished_text(id: u64) -> Seq<char> {
    "Job JobId("@ + dec(id as nat) + ") finished"@
}

/// `b` shows an information toast with this text, stamped `now`.
pub open spec fn shows_info(b: App, text: Seq<char>, now: u64) -> bool {
    b.toast matches Some((Toast::Info(m), t)) && m@ == text && t == now
}

/// What a job event does to the state: the job list takes it in; a finished
/// or failed job also reloads the apps and says so in a toast, with the
/// message of a failed one.
pub open spec fn job_event_applied(a: App, b: App, e: JobEvent, now: u64, r: Option<Action>) -> bool {
    &&& b.jobs@ == applied(a.jobs@, e@)
    &&& match e {
        JobEvent::Finished { id } => {
            &&& shows_info(b, job_finished_text(id.0), now)
            &&& b == App { apps: AppsTab { loading: true, ..a.apps }, jobs: b.jobs, toast: b.toast, ..a }
            &&& r == Some(Action::RefreshApps)
        },
        JobEvent::Failed { id, msg } => {
            &&& shows_error(b, job_failure_text(id.0, msg@), now)
            &&& b == App { apps: AppsTab { loading: true, ..a.apps }, jobs: b.jobs, toast: b.toast, ..a }
            &&& r == Some(Action::RefreshApps)
        },
        _ => b == App { jobs: b.jobs, ..a } && r is None,
    }
}

/// Applies an event of a background job at time `now` (milliseconds).
pub fn apply_job_event(app: &mut App, event: JobEvent, now: u64) -> (r: Option<Action>)
    requires
        old(app).well_formed(),
    ensures
        job_event_applied(*old(app), *final(app), event, now, r),
        final(app).well_formed(),
{
    app.jobs.apply(&event);
    match &event {
        JobEvent::Finished { id } => {
            let mut text = String::from_str("Job JobId(");
            push_decimal(&mut text, id.0);
            push_str(&mut text, ") finished");
            assert(text@ =~= job_finished_text(id.0));
            app.set_toast(Toast::Info(text), now);
            Some(start_apps_refresh(app))
        },
        JobEvent::Failed { id, msg } => {
            let mut text = String::from_str("Job JobId(");
            push_decimal(&mut text, id.0);
            push_str(&mut text, ") failed: ");
            push_str(&mut text, msg.as_str());
            assert(text@ =~= job_failure_text(id.0, msg@));
            app.set_toast(Toast::Error(text), now);
            Some(start_apps_refresh(app))
        },
        _ => None,
    }
}

} // verus!
