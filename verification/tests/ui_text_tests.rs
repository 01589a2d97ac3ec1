use flatpakmgr::app::mode::{ConfirmAction, Tab};
use flatpakmgr::app::tabs::history::{history_time, HistoryTab};
use flatpakmgr::app::tabs::TabState;
use flatpakmgr::config::Config;
use flatpakmgr::app::App;
use flatpakmgr::flatpak_service::job::{JobEvent, JobHandle, JobId, JobStatus};
use flatpakmgr::flatpak_service::types::{
    AppDetail, AppRef, HistoryEntry, Installation, Kind, Permission, Remote, SearchHit,
};
use flatpakmgr::flatpak_service::{FlatpakError, FlatpakService};
use flatpakmgr::ui::{
    apps_split_view, center, confirm_message, detail_lines, inner_height, job_label, job_progress, pad_left,
    pad_right, permission_lines, remote_status, scroll_offset, status_line, visible_cursor,
    visible_end,
};

fn job(status: JobStatus, log: &[&str]) -> JobHandle {
    JobHandle {
        id: JobId(1),
        description: "update zen".into(),
        status,
        log: log.iter().map(|s| s.to_string()).collect(),
    }
}

#[test]
fn padding() {
    assert_eq!(pad_right("ab", 5), "ab   ");
    assert_eq!(pad_right("abcdef", 3), "abcdef");
    assert_eq!(pad_left("ab", 4), "  ab");
    assert_eq!(center("ab", 7), "  ab   ");
    assert_eq!(center("é", 3), " é ");
    assert_eq!(pad_right("ab", 5), format!("{:<5}", "ab"));
    assert_eq!(center("abc", 8), format!("{:^8}", "abc"));
}

#[test]
fn status_line_layout() {
    let mut app = App::new();
    let a = app.jobs.register("update zen".into());
    app.jobs.register("install foo".into());
    app.jobs.apply(&JobEvent::Finished { id: a });
    app.install.results = vec![
        SearchHit {
            name: "Foo".into(),
            id: "org.foo".into(),
            description: String::new(),
            version: "1".into(),
            branch: "stable".into(),
            remotes: vec![],
        };
        3
    ];
    app.tab = Tab::Install;
    let line = status_line(&app, 60);
    let expected = format!("{:<24}{:^width$}{:>16}", "3 results", "⚙ install foo", "? help  q quit", width = 20);
    assert_eq!(line, expected);
    let idle = status_line(&App::new(), 10);
    assert_eq!(idle, format!("{:<24}{:>16}", "0 apps", "? help  q quit"));
    app.tab = Tab::History;
    assert!(status_line(&app, 60).starts_with("0 entries "));
}

#[test]
fn job_labels() {
    assert_eq!(job_label(&job(JobStatus::Running, &[])), "update zen (working)");
    let j = job(JobStatus::Running, &["[##] 40%", "Installing...", "[#] 7%", "done?"]);
    assert_eq!(job_progress(&j), Some(7));
    assert_eq!(job_label(&j), "update zen (7%)");
    assert_eq!(job_label(&job(JobStatus::Finished, &[])), "update zen - done");
    assert_eq!(job_label(&job(JobStatus::Failed, &[])), "update zen - failed");
}

#[test]
fn scrolling_keeps_cursor_visible() {
    assert_eq!(scroll_offset(2, 5, 10), 2);
    assert_eq!(scroll_offset(20, 5, 10), 11);
    assert_eq!(scroll_offset(7, 5, 10), 5);
    assert_eq!(scroll_offset(3, 0, 0), 4);
    assert_eq!(inner_height(1), 0);
    assert_eq!(inner_height(12), 10);
    assert_eq!(visible_cursor(3, 5), 0);
    assert_eq!(visible_cursor(13, 5), 8);
    assert_eq!(visible_end(5, 10, 12), 12);
    assert_eq!(visible_end(0, 10, 12), 10);
}

#[test]
fn pane_texts() {
    assert!(apps_split_view(100));
    assert!(!apps_split_view(99));
    let a = ConfirmAction::Uninstall { ref_: "app/x".into(), inst: Installation::User };
    assert_eq!(confirm_message(&a), "Uninstall app/x?");
    let r = Remote {
        name: "flathub".into(),
        title: "Flathub".into(),
        url: "https://dl.flathub.org/repo/".into(),
        installation: Installation::System,
        disabled: true,
        priority: 1,
    };
    assert_eq!(remote_status(&r), "[disabled]");
}

#[test]
fn detail_and_permission_lines() {
    let basic = AppRef {
        name: "Zen".into(),
        description: "".into(),
        id: "app.zen_browser.zen".into(),
        version: "1.21.3b".into(),
        branch: "stable".into(),
        arch: "x86_64".into(),
        origin: "flathub".into(),
        installation: Installation::System,
        size_bytes: 0,
        ref_: "app/app.zen_browser.zen/x86_64/stable".into(),
        kind: Kind::App,
    };
    let d = AppDetail {
        basic,
        runtime: Some("org.freedesktop.Platform/x86_64/24.08".into()),
        sdk: None,
        license: None,
        installed_size: 1536,
        commit: "abc123".into(),
        subject: "Update to 1.21.3b".into(),
        date: Some(1_700_000_000),
        permissions: vec![],
    };
    assert_eq!(
        detail_lines(&d),
        vec![
            "ID:     app.zen_browser.zen",
            "Ref:     app/app.zen_browser.zen/x86_64/stable",
            "Version: 1.21.3b",
            "Branch:  stable",
            "Origin:  flathub (system)",
            "Runtime: org.freedesktop.Platform/x86_64/24.08",
            "License: -",
            "Size:    1536 bytes",
            "Commit:  abc123",
            "Subject: Update to 1.21.3b",
            "Date:    2023-11-14 22:13",
        ]
    );
    let undated = AppDetail { date: None, ..d.clone() };
    assert_eq!(detail_lines(&undated).last().unwrap(), "Date:    -");
    let perms = vec![
        Permission { table: "shared".into(), entries: vec!["network".into(), "ipc".into()] },
        Permission { table: "devices".into(), entries: vec![] },
    ];
    assert_eq!(permission_lines(&perms), vec!["[shared]", "  network", "  ipc", "", "[devices]", ""]);
}

#[test]
fn history_rows_use_utc_minutes() {
    assert_eq!(history_time(0), "1970-01-01 00:00");
    assert_eq!(history_time(1_700_000_000), "2023-11-14 22:13");
    assert_eq!(history_time(i64::MAX), "");
    let tab = HistoryTab {
        items: vec![HistoryEntry {
            time: 86_400,
            ref_: "app/x".into(),
            operation: "install".into(),
            user: "root".into(),
        }],
        cursor: 0,
        loading: false,
    };
    assert_eq!(tab.list_items(), vec!["1970-01-02 00:00  app/x".to_string()]);
}

#[test]
fn error_messages() {
    let e = FlatpakError::Cli { code: -1, stderr: "boom".into() };
    assert_eq!(e.to_string(), "flatpak exited with code -1: boom");
    let e = FlatpakError::Parse { line: "x".into(), msg: "bad".into() };
    assert_eq!(e.to_string(), "failed to parse line: bad\n  line: x");
    assert_eq!(FlatpakError::Io("gone".into()).to_string(), "io error: gone");
    assert_eq!(Installation::User.to_string(), "user");
    assert_eq!(Installation::System.to_string(), "system");
}

#[test]
fn service_and_config_construct() {
    let _svc = FlatpakService::new();
    let _cfg: Config = Config::load().unwrap();
}
