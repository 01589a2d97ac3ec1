use flatpakmgr::flatpak_service::parse::{parse_progress_line, progress_line_cuts_char};

#[test]
fn parse_full_progress() {
    let line =
        "[####################] 100% Downloading: 198.2 MB/198.2 MB (12.3 MB/s)";
    assert_eq!(parse_progress_line(line), Some(100));
}

#[test]
fn parse_partial_progress() {
    let line =
        "[##########          ]  50% Downloading: 42.3 MB/84.6 MB (8.1 MB/s)";
    assert_eq!(parse_progress_line(line), Some(50));
}

#[test]
fn parse_no_progress() {
    let line = "Installing: app.zen_browser.zen/x86_64/stable from flathub";
    assert_eq!(parse_progress_line(line), None);
}

#[test]
fn progress_without_percent_sign_ends_at_first_other_char() {
    assert_eq!(parse_progress_line("[###   ]  42 of 100"), Some(42));
}

#[test]
fn progress_needs_closing_bracket() {
    assert_eq!(parse_progress_line("[####  50%"), None);
}

#[test]
fn progress_without_digits_is_none() {
    assert_eq!(parse_progress_line("[####] % done"), None);
}

#[test]
fn progress_above_u16_is_none() {
    assert_eq!(parse_progress_line("[#] 70000%"), None);
    assert_eq!(parse_progress_line("[#] 65535%"), Some(65535));
}

#[test]
fn progress_digits_with_points_are_joined() {
    assert_eq!(parse_progress_line("[#] 4.5%"), Some(45));
}

#[test]
fn progress_brackets_search_from_first_open() {
    assert_eq!(parse_progress_line("x] [##] 7%"), Some(7));
}

#[test]
fn progress_no_number_end_is_none() {
    assert_eq!(parse_progress_line("[##]  12 "), None);
}

#[test]
fn progress_cut_inside_non_ascii_char_is_detected() {
    assert!(progress_line_cuts_char("[##] 12é"));
    assert!(!progress_line_cuts_char("[##] 12x"));
    assert!(!progress_line_cuts_char("[##] 12é%"));
    assert!(!progress_line_cuts_char("no bar here é"));
    assert_eq!(parse_progress_line("[##] 12é"), None);
    assert_eq!(parse_progress_line("[##] 12é%"), Some(12));
    assert_eq!(parse_progress_line("[##] 12x"), Some(12));
}
