use flatpakmgr::flatpak_service::parse::{parse_installation, parse_list, parse_list_line, parse_size};
use flatpakmgr::flatpak_service::types::{Installation, Kind};
use flatpakmgr::flatpak_service::FlatpakError;

const LIST_APPS: &str = "Zen\tExperience tranquillity while browsing the web\tapp.zen_browser.zen\t1.21.3b\tstable\tx86_64\tflathub\tsystem\t388.0 MB\tapp/app.zen_browser.zen/x86_64/stable\t4d5c1b6e7f8a\n\
Flatseal\tManage Flatpak permissions\tcom.github.tchx84.Flatseal\t2.3.0\tstable\tx86_64\tflathub\tuser\t1.3 MB\tapp/com.github.tchx84.Flatseal/x86_64/stable\t0a1b2c3d4e5f\n";

const LIST_RUNTIMES: &str = "Freedesktop Platform\torg.freedesktop.Platform\t24.08.15\t24.08\tx86_64\tflathub\tsystem\t571.6 MB\truntime/org.freedesktop.Platform/x86_64/24.08\tabcdef123456\n\
Mesa\torg.freedesktop.Platform.GL.default\t25.0.7\t24.08\tx86_64\tflathub\tsystem\t469.7 MB\truntime/org.freedesktop.Platform.GL.default/x86_64/24.08\t123456abcdef\n";

#[test]
fn parse_list_apps_ok() {
    let text = LIST_APPS.to_string();
    let apps = parse_list(&text, Kind::App).expect("parse apps");
    assert!(!apps.is_empty(), "expected at least one app");
    assert!(apps.iter().all(|a| matches!(a.kind, Kind::App)));
    assert_eq!(apps[0].name, "Zen");
    assert_eq!(apps[0].id, "app.zen_browser.zen");
    assert_eq!(apps[0].installation, flatpakmgr::flatpak_service::types::Installation::System);
    assert!(apps[0].size_bytes > 0);
}

#[test]
fn parse_list_runtimes_ok() {
    let text = LIST_RUNTIMES.to_string();
    let runtimes = parse_list(&text, Kind::Runtime).expect("parse runtimes");
    assert!(!runtimes.is_empty(), "expected at least one runtime");
    assert!(runtimes.iter().all(|r| matches!(r.kind, Kind::Runtime)));
    assert_eq!(runtimes[0].name, "Freedesktop Platform");
    assert_eq!(runtimes[0].id, "org.freedesktop.Platform");
}

#[test]
fn parse_list_empty_input() {
    let apps = parse_list("", Kind::App).expect("empty input");
    assert!(apps.is_empty());
}

#[test]
fn parse_list_bad_column_count() {
    let err = parse_list("too\tfew", Kind::App).unwrap_err();
    match err {
        flatpakmgr::flatpak_service::FlatpakError::Parse { msg, .. } => {
            assert!(msg.contains("expected 10 or 11 columns"));
        }
        other => panic!("unexpected error: {:?}", other),
    }
}

#[test]
fn parse_list_fields_in_order() {
    let apps = parse_list(LIST_APPS, Kind::App).unwrap();
    assert_eq!(apps.len(), 2);
    let zen = &apps[0];
    assert_eq!(zen.description, "Experience tranquillity while browsing the web");
    assert_eq!(zen.version, "1.21.3b");
    assert_eq!(zen.branch, "stable");
    assert_eq!(zen.arch, "x86_64");
    assert_eq!(zen.origin, "flathub");
    assert_eq!(zen.size_bytes, 388 * 1024 * 1024);
    assert_eq!(zen.ref_, "app/app.zen_browser.zen/x86_64/stable");
    assert_eq!(apps[1].installation, Installation::User);
    assert_eq!(apps[1].size_bytes, 1363148);
}

#[test]
fn parse_list_ten_columns_have_no_description() {
    let rts = parse_list(LIST_RUNTIMES, Kind::Runtime).unwrap();
    assert_eq!(rts.len(), 2);
    assert_eq!(rts[0].description, "");
    assert_eq!(rts[0].version, "24.08.15");
    assert_eq!(rts[0].ref_, "runtime/org.freedesktop.Platform/x86_64/24.08");
    assert_eq!(rts[1].name, "Mesa");
}

#[test]
fn parse_list_skips_blank_lines_and_carriage_returns() {
    let text = "\r\n\na\tb\tc\td\te\tf\tuser\t0 bytes\tapp/c\tz\r\n\n";
    let v = parse_list(text, Kind::App).unwrap();
    assert_eq!(v.len(), 1);
    assert_eq!(v[0].name, "a");
    assert_eq!(v[0].ref_, "app/c");
}

#[test]
fn parse_list_bad_installation_names_the_column() {
    let err = parse_list("a\tb\tc\td\te\tf\tg\teverywhere\t1 MB\tapp/c\tz", Kind::App).unwrap_err();
    match err {
        FlatpakError::Parse { line, msg } => {
            assert_eq!(line, "everywhere");
            assert_eq!(msg, "expected 'system' or 'user'");
        }
        other => panic!("unexpected error: {:?}", other),
    }
}

#[test]
fn parse_list_bad_size_names_the_column() {
    let err = parse_list("a\tb\tc\td\te\tf\tg\tsystem\tlots\tapp/c\tz", Kind::App).unwrap_err();
    match err {
        FlatpakError::Parse { line, msg } => {
            assert_eq!(line, "lots");
            assert_eq!(msg, "cannot parse size");
        }
        other => panic!("unexpected error: {:?}", other),
    }
}

#[test]
fn parse_list_column_count_message_is_exact() {
    let err = parse_list("ok\n\na\tb\tc", Kind::App).unwrap_err();
    match err {
        FlatpakError::Parse { line, msg } => {
            assert_eq!(line, "ok");
            assert_eq!(msg, "expected 10 or 11 columns, got 1");
        }
        other => panic!("unexpected error: {:?}", other),
    }
}

#[test]
fn parse_list_line_reads_one_line() {
    let a = parse_list_line("n\tid\tv\tb\tx86_64\to\tuser\t2 kB\truntime/id\tq", Kind::Runtime).unwrap();
    assert_eq!(a.id, "id");
    assert_eq!(a.size_bytes, 2048);
    assert_eq!(a.kind, Kind::Runtime);
}

#[test]
fn installation_names() {
    assert_eq!(parse_installation("system").unwrap(), Installation::System);
    assert_eq!(parse_installation("user").unwrap(), Installation::User);
    assert!(parse_installation("System").is_err());
    assert!(parse_installation(" user").is_err());
}

#[test]
fn sizes() {
    assert_eq!(parse_size("0 bytes").unwrap(), 0);
    assert_eq!(parse_size("   ").unwrap(), 0);
    assert_eq!(parse_size("").unwrap(), 0);
    assert_eq!(parse_size("12 bytes").unwrap(), 12);
    assert_eq!(parse_size(" 1.5 kB ").unwrap(), 1536);
    assert_eq!(parse_size("388.0 MB").unwrap(), 406847488);
    assert_eq!(parse_size("1.3 MB").unwrap(), 1363148);
    assert_eq!(parse_size("2 GB").unwrap(), 2147483648);
    assert_eq!(parse_size(".5 kB").unwrap(), 512);
    assert_eq!(parse_size("7.").unwrap(), 7);
    assert_eq!(parse_size("99999999999999999999999 GB").unwrap(), u64::MAX);
    assert_eq!(parse_size("18446744073709551615 bytes").unwrap(), u64::MAX);
}

#[test]
fn size_errors() {
    for bad in ["MB", ". MB", "1.2.3 MB", "abc"] {
        match parse_size(bad) {
            Err(FlatpakError::Parse { line, msg }) => {
                assert_eq!(line, bad);
                assert_eq!(msg, "cannot parse size");
            }
            other => panic!("unexpected: {:?}", other),
        }
    }
}

/// The size computed the way flatpak sizes were computed with floating point.
fn float_size(s: &str) -> u64 {
    let trimmed = s.trim();
    let numeric: String = trimmed.chars().filter(|c| c.is_ascii_digit() || *c == '.').collect();
    let value: f64 = numeric.parse().unwrap();
    if trimmed.contains("GB") {
        (value * 1024.0 * 1024.0 * 1024.0) as u64
    } else if trimmed.contains("MB") {
        (value * 1024.0 * 1024.0) as u64
    } else if trimmed.contains("kB") {
        (value * 1024.0) as u64
    } else {
        value as u64
    }
}

#[test]
fn sizes_agree_with_float_arithmetic_on_printed_sizes() {
    for unit in ["bytes", "kB", "MB", "GB"] {
        for whole in [0u32, 1, 2, 9, 10, 42, 99, 388, 571, 999, 1023] {
            for tenth in 0..10u32 {
                let s = format!("{}.{} {}", whole, tenth, unit);
                assert_eq!(parse_size(&s).unwrap(), float_size(&s), "{}", s);
            }
        }
    }
}

#[test]
fn listing_cut_at_a_line_break_reads_as_its_parts() {
    let mut lines = LIST_APPS.lines();
    let a = lines.next().unwrap();
    let b = lines.next().unwrap();
    let whole = parse_list(&format!("{}\n{}", a, b), Kind::App).unwrap();
    let mut parts = parse_list(a, Kind::App).unwrap();
    parts.extend(parse_list(b, Kind::App).unwrap());
    assert_eq!(whole, parts);
    let bad = "just one column";
    let e1 = parse_list(&format!("{}\n{}", bad, a), Kind::App).unwrap_err();
    let e2 = parse_list(bad, Kind::App).unwrap_err();
    assert_eq!(e1.to_string(), e2.to_string());
    let e3 = parse_list(&format!("{}\n{}", a, bad), Kind::App).unwrap_err();
    assert_eq!(e3.to_string(), e2.to_string());
}

#[test]
fn sizes_grow_with_number_and_unit() {
    let units = ["bytes", "kB", "MB", "GB"];
    let mut last = 0u64;
    for u in units {
        let v = parse_size(&format!("1.5 {}", u)).unwrap();
        assert!(v >= last);
        last = v;
        assert!(parse_size(&format!("1.49 {}", u)).unwrap() <= v);
        assert!(parse_size(&format!("10 {}", u)).unwrap() >= v);
    }
    assert_eq!(parse_size("99999999999999999999 GB").unwrap(), u64::MAX);
}
