use flatpakmgr::app::input::{handle_input, Event, KeyCode, KeyEvent, KeyEventKind};
use flatpakmgr::app::mode::{ConfirmAction, Focus, Modal, Mode, Tab};
use flatpakmgr::app::tabs::TabState;
use flatpakmgr::app::{apply_job_event, apply_refresh, Action, App, RefreshMsg, Toast};
use flatpakmgr::flatpak_service::job::{JobEvent, JobId, JobStatus};
use flatpakmgr::flatpak_service::types::{AppDetail, AppRef, Installation, Kind, Permission, SearchHit};
use flatpakmgr::flatpak_service::FlatpakError;

fn press(c: KeyCode) -> Event {
    Event::Key(KeyEvent { code: c, kind: KeyEventKind::Press })
}

fn app_ref(name: &str, inst: Installation) -> AppRef {
    AppRef {
        name: name.to_string(),
        description: String::new(),
        id: format!("org.example.{}", name),
        version: "1.0".to_string(),
        branch: "stable".to_string(),
        arch: "x86_64".to_string(),
        origin: "flathub".to_string(),
        installation: inst,
        size_bytes: 0,
        ref_: format!("app/org.example.{}/x86_64/stable", name),
        kind: Kind::App,
    }
}

fn detail_for(r: &AppRef) -> AppDetail {
    AppDetail {
        basic: r.clone(),
        runtime: Some("org.gnome.Platform/x86_64/47".to_string()),
        sdk: None,
        license: None,
        installed_size: 0,
        commit: "abc".to_string(),
        subject: String::new(),
        date: None,
        permissions: Vec::new(),
    }
}

fn loaded_app() -> App {
    let mut app = App::new();
    let r = apply_refresh(
        &mut app,
        RefreshMsg::Apps(vec![app_ref("Zen", Installation::System), app_ref("Foo", Installation::User)]),
        0,
    );
    match r {
        Some(Action::RefreshAppDetail(a)) => assert_eq!(a.name, "Zen"),
        other => panic!("unexpected {:?}", other),
    }
    assert!(app.apps.detail_loading);
    app
}

#[test]
fn quit_from_each_pane() {
    for focus in [Focus::Tabs, Focus::List, Focus::Detail] {
        let mut app = App::new();
        app.focus = focus;
        assert!(handle_input(&mut app, press(KeyCode::Char('q'))).is_none());
        assert!(app.should_quit);
    }
}

#[test]
fn releases_and_other_events_are_ignored() {
    let mut app = App::new();
    handle_input(&mut app, Event::Key(KeyEvent { code: KeyCode::Char('q'), kind: KeyEventKind::Release }));
    handle_input(&mut app, Event::Other);
    assert!(!app.should_quit);
}

#[test]
fn tab_bar_keys() {
    let mut app = App::new();
    app.focus = Focus::Tabs;
    handle_input(&mut app, press(KeyCode::Char('4')));
    assert_eq!(app.tab, Tab::History);
    handle_input(&mut app, press(KeyCode::Char('2')));
    assert_eq!(app.tab, Tab::Runtimes);
    handle_input(&mut app, press(KeyCode::Tab));
    assert_eq!(app.focus, Focus::List);
    handle_input(&mut app, press(KeyCode::Esc));
    assert_eq!(app.focus, Focus::Tabs);
    handle_input(&mut app, press(KeyCode::Char('?')));
    assert_eq!(app.mode, Mode::Modal(Modal::Help));
    handle_input(&mut app, press(KeyCode::Char('x')));
    assert_eq!(app.mode, Mode::Modal(Modal::Help));
    handle_input(&mut app, press(KeyCode::Esc));
    assert_eq!(app.mode, Mode::Normal);
}

#[test]
fn cursor_moves_and_asks_for_details() {
    let mut app = loaded_app();
    let r = handle_input(&mut app, press(KeyCode::Char('j')));
    assert_eq!(app.apps.cursor, 1);
    match r {
        Some(Action::RefreshAppDetail(a)) => assert_eq!(a.name, "Foo"),
        other => panic!("unexpected {:?}", other),
    }
    handle_input(&mut app, press(KeyCode::Down));
    assert_eq!(app.apps.cursor, 1);
    handle_input(&mut app, press(KeyCode::Up));
    handle_input(&mut app, press(KeyCode::Char('k')));
    assert_eq!(app.apps.cursor, 0);
}

#[test]
fn update_keys_start_jobs() {
    let mut app = loaded_app();
    match handle_input(&mut app, press(KeyCode::Char('u'))) {
        Some(Action::RunJob { id, description, args }) => {
            assert_eq!(id, JobId(1));
            assert_eq!(description, "update app/org.example.Zen/x86_64/stable");
            assert_eq!(args, vec!["update", "-y", "--system", "app/org.example.Zen/x86_64/stable"]);
        }
        other => panic!("unexpected {:?}", other),
    }
    match handle_input(&mut app, press(KeyCode::Char('U'))) {
        Some(Action::RunJob { id, description, args }) => {
            assert_eq!(id, JobId(2));
            assert_eq!(description, "update all (system)");
            assert_eq!(args, vec!["update", "-y", "--system"]);
        }
        other => panic!("unexpected {:?}", other),
    }
    assert_eq!(app.jobs.handles().len(), 2);
    assert!(app.jobs.any_running());
}

#[test]
fn update_all_without_apps_uses_system() {
    let mut app = App::new();
    assert!(handle_input(&mut app, press(KeyCode::Char('u'))).is_none());
    match handle_input(&mut app, press(KeyCode::Char('U'))) {
        Some(Action::RunJob { args, .. }) => assert_eq!(args, vec!["update", "-y", "--system"]),
        other => panic!("unexpected {:?}", other),
    }
}

#[test]
fn uninstall_asks_then_runs() {
    let mut app = loaded_app();
    handle_input(&mut app, press(KeyCode::Char('j')));
    assert!(handle_input(&mut app, press(KeyCode::Char('d'))).is_none());
    assert_eq!(
        app.mode,
        Mode::Modal(Modal::Confirm(ConfirmAction::Uninstall {
            ref_: "app/org.example.Foo/x86_64/stable".to_string(),
            inst: Installation::User,
        }))
    );
    match handle_input(&mut app, press(KeyCode::Enter)) {
        Some(Action::RunJob { description, args, .. }) => {
            assert_eq!(description, "uninstall app/org.example.Foo/x86_64/stable");
            assert_eq!(args, vec!["uninstall", "-y", "--user", "app/org.example.Foo/x86_64/stable"]);
        }
        other => panic!("unexpected {:?}", other),
    }
    assert_eq!(app.mode, Mode::Normal);
}

#[test]
fn uninstall_cancelled_by_any_other_key() {
    let mut app = loaded_app();
    handle_input(&mut app, press(KeyCode::Char('d')));
    assert!(handle_input(&mut app, press(KeyCode::Char('y'))).is_none());
    assert_eq!(app.mode, Mode::Normal);
    assert!(app.jobs.handles().is_empty());
}

#[test]
fn refresh_key_marks_loading() {
    let mut app = App::new();
    match handle_input(&mut app, press(KeyCode::Char('r'))) {
        Some(Action::RefreshApps) => {}
        other => panic!("unexpected {:?}", other),
    }
    assert!(app.apps.loading);
}

#[test]
fn details_only_for_the_selected_app() {
    let mut app = loaded_app();
    let foo = app_ref("Foo", Installation::User);
    let zen = app_ref("Zen", Installation::System);
    apply_refresh(&mut app, RefreshMsg::AppDetail { app_ref: foo.clone(), detail: Ok(detail_for(&foo)) }, 1);
    assert!(app.apps.detail.is_none());
    assert!(app.apps.detail_loading);
    apply_refresh(&mut app, RefreshMsg::AppDetail { app_ref: zen.clone(), detail: Ok(detail_for(&zen)) }, 2);
    assert_eq!(app.apps.detail.as_ref().unwrap().commit, "abc");
    assert!(!app.apps.detail_loading);
    apply_refresh(
        &mut app,
        RefreshMsg::AppDetail { app_ref: zen, detail: Err(FlatpakError::NotFound("zen".into())) },
        3,
    );
    match &app.toast {
        Some((Toast::Error(m), t)) => {
            assert_eq!(m, "not found: zen");
            assert_eq!(*t, 3);
        }
        other => panic!("unexpected {:?}", other),
    }
}

#[test]
fn stale_search_results_are_dropped() {
    let mut app = App::new();
    app.install.debounce_token = 5;
    app.install.loading = true;
    let hit = SearchHit {
        name: "Zen".into(),
        id: "app.zen_browser.zen".into(),
        description: String::new(),
        version: "1".into(),
        branch: "stable".into(),
        remotes: vec!["flathub".into()],
    };
    apply_refresh(&mut app, RefreshMsg::SearchResults { token: 4, results: Ok(vec![hit.clone()]) }, 0);
    assert!(app.install.results.is_empty());
    assert!(app.install.loading);
    apply_refresh(&mut app, RefreshMsg::SearchResults { token: 5, results: Ok(vec![hit]) }, 0);
    assert_eq!(app.install.results.len(), 1);
    assert!(!app.install.loading);
    assert_eq!(app.install.list_items(), vec!["Zen  app.zen_browser.zen".to_string()]);
}

#[test]
fn job_events_reload_and_report_failures() {
    let mut app = App::new();
    let id = app.jobs.register("update zen".into());
    assert!(apply_job_event(&mut app, JobEvent::Progress { id, pct: Some(10), line: "[#] 10%".into() }, 0).is_none());
    match apply_job_event(&mut app, JobEvent::Failed { id, msg: "exit code 1".into() }, 42) {
        Some(Action::RefreshApps) => {}
        other => panic!("unexpected {:?}", other),
    }
    assert!(app.apps.loading);
    assert_eq!(app.jobs.handles()[0].status, JobStatus::Failed);
    match &app.toast {
        Some((Toast::Error(m), 42)) => assert_eq!(m, "Job JobId(1) failed: exit code 1"),
        other => panic!("unexpected {:?}", other),
    }
}

#[test]
fn toast_expires_after_more_than_five_seconds() {
    let mut app = App::new();
    app.set_toast(Toast::Info("hi".into()), 1000);
    app.clear_expired_toast(6999);
    assert!(app.toast.is_some());
    app.clear_expired_toast(7000);
    assert!(app.toast.is_none());
}

#[test]
fn filter_by_text_and_installation() {
    let mut app = loaded_app();
    app.apps.filter_text = "ZEN".into();
    let shown: Vec<String> = app.apps.filtered().iter().map(|a| a.name.clone()).collect();
    assert_eq!(shown, vec!["Zen".to_string()]);
    app.apps.filter_text = String::new();
    app.apps.filter_inst = Some(Installation::User);
    let shown: Vec<String> = app.apps.filtered().iter().map(|a| a.name.clone()).collect();
    assert_eq!(shown, vec!["Foo".to_string()]);
    assert_eq!(app.apps.list_items(), vec!["Foo  1.0".to_string()]);
    assert_eq!(app.apps.selected(), Some(0));
}

#[test]
fn tabs_move_and_select_within_bounds() {
    let mut app = loaded_app();
    app.apps.move_cursor(10);
    assert_eq!(app.apps.cursor, 1);
    app.apps.move_cursor(-10);
    assert_eq!(app.apps.cursor, 0);
    app.apps.select(7);
    assert_eq!(app.apps.cursor, 1);
    app.remotes.move_cursor(3);
    assert_eq!(app.remotes.cursor, 0);
    assert_eq!(app.remotes.selected(), None);
    assert!(app.remotes.selected_remote().is_none());
    app.history.set_loading(true);
    assert!(app.history.loading());
    assert_eq!(app.history.title(), "History");
}

#[test]
fn tab_titles() {
    let titles: Vec<&str> = Tab::all().iter().map(|t| t.title()).collect();
    assert_eq!(titles, vec!["1.Apps", "2.Runtimes", "3.Remotes", "4.History", "5.Install"]);
}

#[test]
fn permissions_key_opens_dialog_and_fetches() {
    let mut app = loaded_app();
    app.apps.permissions = vec![Permission { table: "old".into(), entries: vec![] }];
    match handle_input(&mut app, press(KeyCode::Char('p'))) {
        Some(Action::RefreshPermissions(id)) => assert_eq!(id, "org.example.Zen"),
        other => panic!("unexpected {:?}", other),
    }
    assert_eq!(app.mode, Mode::Modal(Modal::Permissions { id: "org.example.Zen".to_string() }));
    assert!(app.apps.permissions.is_empty());
    let perms = vec![Permission { table: "shared".into(), entries: vec!["network".into()] }];
    apply_refresh(&mut app, RefreshMsg::Permissions { id: "org.other".into(), perms: Ok(perms.clone()) }, 0);
    assert!(app.apps.permissions.is_empty());
    apply_refresh(&mut app, RefreshMsg::Permissions { id: "org.example.Zen".into(), perms: Ok(perms.clone()) }, 0);
    assert_eq!(app.apps.permissions, perms);
    apply_refresh(
        &mut app,
        RefreshMsg::Permissions { id: "org.example.Zen".into(), perms: Err(FlatpakError::Io("gone".into())) },
        9,
    );
    match &app.toast {
        Some((Toast::Error(m), 9)) => assert_eq!(m, "io error: gone"),
        other => panic!("unexpected {:?}", other),
    }
    handle_input(&mut app, press(KeyCode::Esc));
    assert_eq!(app.mode, Mode::Normal);
}

#[test]
fn permissions_key_without_apps_does_nothing() {
    let mut app = App::new();
    assert!(handle_input(&mut app, press(KeyCode::Char('p'))).is_none());
    assert_eq!(app.mode, Mode::Normal);
}

#[test]
fn global_keys_from_detail_pane() {
    let mut app = App::new();
    app.focus = Focus::Detail;
    handle_input(&mut app, press(KeyCode::Char('?')));
    assert_eq!(app.mode, Mode::Modal(Modal::Help));
    handle_input(&mut app, press(KeyCode::Esc));
    handle_input(&mut app, press(KeyCode::Char('J')));
    assert_eq!(app.mode, Mode::Modal(Modal::Jobs));
    handle_input(&mut app, press(KeyCode::Char('q')));
    assert_eq!(app.mode, Mode::Normal);
    assert!(!app.should_quit);
    handle_input(&mut app, press(KeyCode::Char('3')));
    assert_eq!(app.tab, Tab::Remotes);
    assert_eq!(app.focus, Focus::Detail);
    handle_input(&mut app, press(KeyCode::Tab));
    assert_eq!(app.focus, Focus::Tabs);
    for k in [KeyCode::Esc, KeyCode::BackTab] {
        app.focus = Focus::Detail;
        handle_input(&mut app, press(k));
        assert_eq!(app.focus, Focus::Tabs);
    }
}

#[test]
fn focus_cycles_tabs_list_detail() {
    let mut app = App::new();
    app.focus = Focus::Tabs;
    handle_input(&mut app, press(KeyCode::Tab));
    assert_eq!(app.focus, Focus::List);
    handle_input(&mut app, press(KeyCode::Tab));
    assert_eq!(app.focus, Focus::Detail);
    handle_input(&mut app, press(KeyCode::Tab));
    assert_eq!(app.focus, Focus::Tabs);
}

#[test]
fn number_keys_switch_tabs_from_list() {
    let mut app = App::new();
    handle_input(&mut app, press(KeyCode::Char('5')));
    assert_eq!(app.tab, Tab::Install);
    assert_eq!(app.focus, Focus::List);
    handle_input(&mut app, press(KeyCode::Char('1')));
    assert_eq!(app.tab, Tab::Apps);
}

fn hit(id: &str, remotes: &[&str]) -> SearchHit {
    SearchHit {
        name: "Name".into(),
        id: id.into(),
        description: String::new(),
        version: "1".into(),
        branch: "stable".into(),
        remotes: remotes.iter().map(|r| r.to_string()).collect(),
    }
}

#[test]
fn typing_in_search_starts_debounced_searches() {
    let mut app = App::new();
    handle_input(&mut app, press(KeyCode::Char('/')));
    assert_eq!(app.focus, Focus::List);
    app.tab = Tab::Install;
    handle_input(&mut app, press(KeyCode::Char('/')));
    assert_eq!(app.focus, Focus::Search);
    match handle_input(&mut app, press(KeyCode::Char('z'))) {
        Some(Action::Search { token, query }) => {
            assert_eq!(token, 1);
            assert_eq!(query, "z");
        }
        other => panic!("unexpected {:?}", other),
    }
    match handle_input(&mut app, press(KeyCode::Char('q'))) {
        Some(Action::Search { token, query }) => {
            assert_eq!(token, 2);
            assert_eq!(query, "zq");
        }
        other => panic!("unexpected {:?}", other),
    }
    assert!(!app.should_quit);
    assert!(app.install.loading);
    match handle_input(&mut app, press(KeyCode::Backspace)) {
        Some(Action::Search { token, query }) => {
            assert_eq!(token, 3);
            assert_eq!(query, "z");
        }
        other => panic!("unexpected {:?}", other),
    }
    handle_input(&mut app, press(KeyCode::Backspace));
    match handle_input(&mut app, press(KeyCode::Backspace)) {
        Some(Action::Search { token, query }) => {
            assert_eq!(token, 5);
            assert_eq!(query, "");
        }
        other => panic!("unexpected {:?}", other),
    }
    assert!(handle_input(&mut app, press(KeyCode::Enter)).is_none());
    handle_input(&mut app, press(KeyCode::Esc));
    assert_eq!(app.focus, Focus::List);
}

#[test]
fn enter_in_search_installs_hit() {
    let mut app = App::new();
    app.tab = Tab::Install;
    app.focus = Focus::Search;
    app.install.results = vec![hit("org.example.App", &["flathub", "other"]), hit("org.gnome.Platform.Runtime", &[])];
    match handle_input(&mut app, press(KeyCode::Enter)) {
        Some(Action::RunJob { id, description, args }) => {
            assert_eq!(id, JobId(1));
            assert_eq!(description, "install app/org.example.App/x86_64/stable from flathub");
            assert_eq!(args, vec!["install", "-y", "--system", "flathub", "app/org.example.App/x86_64/stable"]);
        }
        other => panic!("unexpected {:?}", other),
    }
    app.install.cursor = 1;
    match handle_input(&mut app, press(KeyCode::Enter)) {
        Some(Action::RunJob { description, args, .. }) => {
            assert_eq!(description, "install runtime/org.gnome.Platform.Runtime/x86_64/stable from ");
            assert_eq!(args[3], "");
            assert_eq!(args[4], "runtime/org.gnome.Platform.Runtime/x86_64/stable");
        }
        other => panic!("unexpected {:?}", other),
    }
    assert_eq!(app.jobs.handles().len(), 2);
}

#[test]
fn finished_job_shows_info_toast() {
    let mut app = App::new();
    let id = app.jobs.register("update zen".into());
    match apply_job_event(&mut app, JobEvent::Finished { id }, 77) {
        Some(Action::RefreshApps) => {}
        other => panic!("unexpected {:?}", other),
    }
    assert_eq!(app.jobs.handles()[0].status, JobStatus::Finished);
    match &app.toast {
        Some((Toast::Info(m), 77)) => assert_eq!(m, "Job JobId(1) finished"),
        other => panic!("unexpected {:?}", other),
    }
}

#[test]
fn empty_filter_shows_every_app() {
    let app = loaded_app();
    assert_eq!(app.apps.filtered().len(), app.apps.items.len());
}

#[test]
fn new_manager_numbers_jobs_from_one() {
    let mut app = App::new();
    for k in 1..=4u64 {
        assert_eq!(app.jobs.register(format!("job {}", k)), JobId(k));
    }
    assert_eq!(app.jobs.next_job_id(), 5);
}

fn remote(name: &str, disabled: bool) -> flatpakmgr::flatpak_service::types::Remote {
    flatpakmgr::flatpak_service::types::Remote {
        name: name.into(),
        title: String::new(),
        url: "https://example.org".into(),
        installation: Installation::User,
        disabled,
        priority: 1,
    }
}

#[test]
fn refresh_key_refreshes_current_tab() {
    let mut app = App::new();
    app.tab = Tab::Remotes;
    match handle_input(&mut app, press(KeyCode::Char('r'))) {
        Some(Action::RefreshRemotes) => {}
        other => panic!("unexpected {:?}", other),
    }
    assert!(app.remotes.loading);
    assert!(!app.apps.loading);
    app.tab = Tab::Runtimes;
    assert!(matches!(handle_input(&mut app, press(KeyCode::Char('r'))), Some(Action::RefreshRuntimes)));
    assert!(app.runtimes.loading);
    app.tab = Tab::History;
    assert!(matches!(handle_input(&mut app, press(KeyCode::Char('r'))), Some(Action::RefreshHistory)));
    assert!(app.history.loading);
    app.tab = Tab::Install;
    assert!(matches!(handle_input(&mut app, press(KeyCode::Char('r'))), Some(Action::RefreshApps)));
}

#[test]
fn moves_follow_the_current_tab() {
    let mut app = loaded_app();
    app.tab = Tab::Remotes;
    apply_refresh(&mut app, RefreshMsg::Remotes(vec![remote("flathub", false), remote("beta", true)]), 0);
    assert!(handle_input(&mut app, press(KeyCode::Char('j'))).is_none());
    assert_eq!(app.remotes.cursor, 1);
    assert_eq!(app.apps.cursor, 0);
    handle_input(&mut app, press(KeyCode::Down));
    assert_eq!(app.remotes.cursor, 1);
    handle_input(&mut app, press(KeyCode::Up));
    assert_eq!(app.remotes.cursor, 0);
}

#[test]
fn e_toggles_the_remote_under_the_cursor() {
    let mut app = App::new();
    assert!(handle_input(&mut app, press(KeyCode::Char('e'))).is_none());
    app.tab = Tab::Remotes;
    assert!(handle_input(&mut app, press(KeyCode::Char('e'))).is_none());
    apply_refresh(&mut app, RefreshMsg::Remotes(vec![remote("flathub", false), remote("beta", true)]), 0);
    match handle_input(&mut app, press(KeyCode::Char('e'))) {
        Some(Action::RunJob { id, description, args }) => {
            assert_eq!(id, JobId(1));
            assert_eq!(description, "disable remote flathub");
            assert_eq!(args, vec!["remote-modify", "--user", "--disable", "flathub"]);
        }
        other => panic!("unexpected {:?}", other),
    }
    handle_input(&mut app, press(KeyCode::Char('j')));
    match handle_input(&mut app, press(KeyCode::Char('e'))) {
        Some(Action::RunJob { description, args, .. }) => {
            assert_eq!(description, "enable remote beta");
            assert_eq!(args, vec!["remote-modify", "--user", "--enable", "beta"]);
        }
        other => panic!("unexpected {:?}", other),
    }
}

#[test]
fn r_in_permissions_dialog_resets_them() {
    let mut app = loaded_app();
    handle_input(&mut app, press(KeyCode::Char('p')));
    match handle_input(&mut app, press(KeyCode::Char('r'))) {
        Some(Action::RunJob { id, description, args }) => {
            assert_eq!(id, JobId(1));
            assert_eq!(description, "reset permissions of org.example.Zen");
            assert_eq!(args, vec!["permission-reset", "org.example.Zen"]);
        }
        other => panic!("unexpected {:?}", other),
    }
    assert_eq!(app.mode, Mode::Modal(Modal::Permissions { id: "org.example.Zen".to_string() }));
    handle_input(&mut app, press(KeyCode::Char('q')));
    assert_eq!(app.mode, Mode::Normal);
}
