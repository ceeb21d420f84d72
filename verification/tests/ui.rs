use yt_download_tui::app::{App, DirectoryEntry, DirectoryListing, DirectoryPicker};
use yt_download_tui::types::{Focus, PlaylistProgress, Screen};
use yt_download_tui::ui::{
    button_line, done_summary, form_lines, form_value_width, format_field_value, help_text,
    log_window_start, picker_rows, queue_label, scroll_start, truncate_middle, wrap_value,
    FieldKind,
};

#[test]
fn truncates_in_the_middle() {
    assert_eq!(truncate_middle("abcdef", 10), "abcdef");
    assert_eq!(truncate_middle("abcdefghij", 7), "ab...ij");
    assert_eq!(truncate_middle("abcdefghij", 8), "ab...hij");
    assert_eq!(truncate_middle("abcdef", 3), "...");
    assert_eq!(truncate_middle("abcdef", 2), "..");
    assert_eq!(truncate_middle("abcdef", 0), "");
    assert_eq!(truncate_middle("héllo wörld", 7).chars().count(), 7);
}

#[test]
fn wraps_values_within_width() {
    assert_eq!(wrap_value("value", "< ", " >", 20), "< value >");
    assert_eq!(wrap_value("abcdefghij", "[", "]", 9), "[ab...ij]");
    assert_eq!(wrap_value("abc", "[", "]", 2), "..");
    for w in 0..15 {
        assert!(wrap_value("some long value", "( ", " )", w).chars().count() <= w);
    }
}

#[test]
fn field_decorations() {
    assert_eq!(format_field_value("u", FieldKind::Text, true, 20), "[u_]");
    assert_eq!(format_field_value("u", FieldKind::Text, false, 20), "[u]");
    assert_eq!(format_field_value("mp4", FieldKind::Choice, false, 20), "< mp4 >");
    assert_eq!(format_field_value("on", FieldKind::Toggle(true), false, 20), "[x] on");
    assert_eq!(format_field_value("on", FieldKind::Toggle(false), false, 20), "[ ] on");
    assert_eq!(format_field_value("x", FieldKind::ReadOnly, false, 20), "( x )");
}

#[test]
fn scrolls_to_keep_selection_visible() {
    assert_eq!(scroll_start(0, 5, 3), 0);
    assert_eq!(scroll_start(7, 5, 20), 3);
    assert_eq!(scroll_start(19, 5, 20), 15);
    assert_eq!(scroll_start(2, 0, 20), 0);
    for sel in 0..20 {
        let s = scroll_start(sel, 5, 20);
        assert!(s <= sel && sel < s + 5 && s + 5 <= 20);
    }
}

#[test]
fn help_and_labels() {
    assert_eq!(help_text(Screen::Done), "Enter/n new download  o open folder  q/Esc quit");
    assert_eq!(
        queue_label(Some(PlaylistProgress { current: 3, total: 12 })),
        "Playlist item 3 of 12"
    );
    assert_eq!(queue_label(None), "Single video or playlist queue pending");
    assert_eq!(log_window_start(10, 4), 6);
    assert_eq!(log_window_start(3, 4), 0);
    assert_eq!(form_value_width(40), 22);
    assert_eq!(form_value_width(10), 0);
    assert_eq!(button_line(true, "Start Download"), ("> ".to_string(), "[ Start Download ]".to_string()));
}

#[test]
fn form_rows_follow_state() {
    let app: App<f64> = App::default_for(Some("/h"), true);
    let lines = form_lines(&app, 40);
    assert_eq!(lines.len(), 8);
    assert_eq!(lines[0].marker, "> ");
    assert_eq!(lines[0].label, "URL           ");
    assert_eq!(lines[0].value, "[paste video or playlist URL_]");
    assert_eq!(lines[1].value, "< Auto best (press f to load) >");
    assert_eq!(lines[2].value, "< Best >");
    assert_eq!(lines[3].value, "< mp4 >");
    assert_eq!(lines[4].value, "[x] enabled");
    assert_eq!(lines[5].value, "< Fast Apple Hardware >");
    assert_eq!(lines[6].label, "Delete original");
    assert_eq!(lines[6].value, "[ ] disabled");
    assert_eq!(lines[7].value, "[/h/Downloads/youtube_downloads]");
    assert_eq!(app.focus, Focus::Url);
}

#[test]
fn result_summary() {
    let app: App<f64> = App::default_for(None, false);
    let s = done_summary(&app);
    assert!(!s.success);
    assert_eq!(s.title, "Failed");
    assert_eq!(s.saved_to, "Saved to: youtube_downloads");
}

#[test]
fn picker_sorts_and_shows_rows() {
    let e = |n: &str| DirectoryEntry { name: n.to_string(), path: format!("/r/{n}") };
    let picker = DirectoryPicker::from_listing(
        "/r".to_string(),
        DirectoryListing {
            entries: vec![e("beta"), e("Alpha"), e("alpha"), e("Gamma")],
            entry_error: None,
            read_error: None,
        },
    );
    let names: Vec<&str> = picker.entries.iter().map(|x| x.name.as_str()).collect();
    assert_eq!(names, vec!["Alpha", "alpha", "beta", "Gamma"]);
    assert_eq!(picker.selected_entry_path().as_deref(), Some("/r/Alpha"));
    let rows = picker_rows(&picker, 2);
    assert_eq!(rows.len(), 2);
    assert_eq!(rows[0].marker, "> ");
    assert_eq!(rows[0].text, "Alpha/");
    assert_eq!(rows[1].text, "alpha/");
    let failed = DirectoryPicker::from_listing(
        "/x".to_string(),
        DirectoryListing { entries: vec![], entry_error: None, read_error: Some("denied".to_string()) },
    );
    assert_eq!(failed.error.as_deref(), Some("Could not read folder: denied"));
    assert!(failed.selected_entry_path().is_none());
}
