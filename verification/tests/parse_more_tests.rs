use flatpakmgr::flatpak_service::parse::{parse_i32, parse_remote_line};
use flatpakmgr::flatpak_service::types::{AppRef, Installation, Kind};
use flatpakmgr::flatpak_service::{
    parse_history, parse_info, parse_permissions, parse_remotes, parse_search, FlatpakError,
};

fn zen() -> AppRef {
    AppRef {
        name: "Zen".into(),
        description: "".into(),
        id: "app.zen_browser.zen".into(),
        version: "1.21.3b".into(),
        branch: "stable".into(),
        arch: "x86_64".into(),
        origin: "flathub".into(),
        installation: Installation::System,
        size_bytes: 0,
        ref_: "app/app.zen_browser.zen/x86_64/stable".into(),
        kind: Kind::App,
    }
}

#[test]
fn remotes_are_read_in_order() {
    let text = "flathub\tFlathub\thttps://dl.flathub.org/repo/\tsystem\tfalse\t1\n\nbeta\tFlathub beta\thttps://dl.flathub.org/beta-repo/\tuser\tTrue\t-5\n";
    let rs = parse_remotes(text).unwrap();
    assert_eq!(rs.len(), 2);
    assert_eq!(rs[0].name, "flathub");
    assert_eq!(rs[0].title, "Flathub");
    assert!(!rs[0].disabled);
    assert_eq!(rs[0].priority, 1);
    assert_eq!(rs[1].installation, Installation::User);
    assert!(rs[1].disabled);
    assert_eq!(rs[1].priority, -5);
}

#[test]
fn remote_errors() {
    match parse_remote_line("a\tb\tc") {
        Err(FlatpakError::Parse { msg, line }) => {
            assert_eq!(msg, "expected 6 columns, got 3");
            assert_eq!(line, "a\tb\tc");
        }
        other => panic!("unexpected {:?}", other),
    }
    match parse_remotes("a\tb\tc\tnowhere\tfalse\tx") {
        Err(FlatpakError::Parse { msg, .. }) => assert_eq!(msg, "cannot parse priority"),
        other => panic!("unexpected {:?}", other),
    }
    match parse_remotes("a\tb\tc\tnowhere\tfalse\t2") {
        Err(FlatpakError::Parse { msg, line }) => {
            assert_eq!(msg, "expected 'system' or 'user'");
            assert_eq!(line, "nowhere");
        }
        other => panic!("unexpected {:?}", other),
    }
}

#[test]
fn i32_reading_matches_std() {
    for s in ["0", "+7", "-7", "2147483647", "-2147483648", "2147483648", "-2147483649", "", "-", "+", "1 ", "0x1", "00012"] {
        assert_eq!(parse_i32(s), s.parse::<i32>().ok(), "{:?}", s);
    }
}

#[test]
fn history_is_read_with_utc_times() {
    let text = "2024-05-01 12:30:00 +0200\tapp/org.x/x86_64/stable\tinstall\troot\n";
    let h = parse_history(text).unwrap();
    assert_eq!(h.len(), 1);
    assert_eq!(h[0].time, 1714559400);
    assert_eq!(h[0].ref_, "app/org.x/x86_64/stable");
    assert_eq!(h[0].operation, "install");
    assert_eq!(h[0].user, "root");
    match parse_history("yesterday\tapp/x\tinstall\troot") {
        Err(FlatpakError::Parse { line, .. }) => assert_eq!(line, "yesterday"),
        other => panic!("unexpected {:?}", other),
    }
    match parse_history("a\tb") {
        Err(FlatpakError::Parse { msg, .. }) => assert_eq!(msg, "expected 4 columns, got 2"),
        other => panic!("unexpected {:?}", other),
    }
}

#[test]
fn info_keys_fill_the_detail() {
    let text = "\nZen - Experience tranquillity\n\n          ID: app.zen_browser.zen\n         Ref: app/app.zen_browser.zen/x86_64/stable\n     Runtime: org.freedesktop.Platform/x86_64/24.08\n         Sdk: org.freedesktop.Sdk/x86_64/24.08\n     License: MPL-2.0\n   Installed: 388.0 MB\n      Commit: 4d5c1b6e7f8a\n     Subject: Update to 1.21.3b\n        Date: 2025-01-02 03:04:05 +0000\n";
    let d = parse_info(text, zen()).unwrap();
    assert_eq!(d.basic, zen());
    assert_eq!(d.runtime.as_deref(), Some("org.freedesktop.Platform/x86_64/24.08"));
    assert_eq!(d.sdk.as_deref(), Some("org.freedesktop.Sdk/x86_64/24.08"));
    assert_eq!(d.license.as_deref(), Some("MPL-2.0"));
    assert_eq!(d.installed_size, 406847488);
    assert_eq!(d.commit, "4d5c1b6e7f8a");
    assert_eq!(d.subject, "Update to 1.21.3b");
    assert_eq!(d.date, Some(1735787045));
    assert!(d.permissions.is_empty());
}

#[test]
fn info_unreadable_values_fall_back() {
    let d = parse_info("Installed: lots\nDate: soon\nCommit: a:b\nCommit: c\n", zen()).unwrap();
    assert_eq!(d.installed_size, 0);
    assert_eq!(d.date, None);
    assert_eq!(d.commit, "c");
    assert_eq!(d.runtime, None);
}

#[test]
fn permissions_tables_and_words() {
    let text = "  shared\tnetwork ipc  \n\nno tab here\ndevices\t dri\tall \n";
    let ps = parse_permissions(text);
    assert_eq!(ps.len(), 2);
    assert_eq!(ps[0].table, "shared");
    assert_eq!(ps[0].entries, vec!["network".to_string(), "ipc".to_string()]);
    assert_eq!(ps[1].table, "devices");
    assert_eq!(ps[1].entries, vec!["dri".to_string(), "all".to_string()]);
}

#[test]
fn search_lines_become_hits() {
    let text = "Zen\tA browser\tapp.zen_browser.zen\t1.21\tstable\tflathub,beta\n\
\n\
too\tfew\tcolumns\n\
Mesa\tGL\torg.freedesktop.Platform.GL.default\t25.0\t24.08\tflathub\n";
    let hits = parse_search(text);
    assert_eq!(hits.len(), 2);
    assert_eq!(hits[0].name, "Zen");
    assert_eq!(hits[0].description, "A browser");
    assert_eq!(hits[0].id, "app.zen_browser.zen");
    assert_eq!(hits[0].version, "1.21");
    assert_eq!(hits[0].branch, "stable");
    assert_eq!(hits[0].remotes, vec!["flathub".to_string(), "beta".to_string()]);
    assert_eq!(hits[1].remotes, vec!["flathub".to_string()]);
    assert!(parse_search("").is_empty());
}
