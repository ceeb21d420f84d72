use yt_download_tui::formats::{format_le_exec, format_list, selectable_formats, sort_formats, YtDlpDoc};
use yt_download_tui::media::{available_format_rows, FormatRecord};

fn record(id: &str, ext: &str, height: Option<u64>, fps: Option<&str>) -> FormatRecord {
    FormatRecord {
        format_id: Some(id.to_string()),
        ext: Some(ext.to_string()),
        vcodec: Some("avc1.64002a".to_string()),
        acodec: Some("none".to_string()),
        height,
        fps_label: fps.map(str::to_string),
        size_label: None,
    }
}

fn ids(doc: &YtDlpDoc) -> Vec<String> {
    selectable_formats(doc)
        .expect("formats should load")
        .into_iter()
        .map(|f| f.id)
        .collect()
}

#[test]
fn top_level_list_comes_first() {
    let doc = YtDlpDoc {
        formats: Some(vec![record("a", "mp4", Some(360), None)]),
        entries: Some(vec![Some(vec![record("b", "mp4", Some(720), None)])]),
    };
    assert_eq!(format_list(&doc).map(|l| l[0].format_id.clone()), Some(Some("a".to_string())));
}

#[test]
fn playlist_uses_first_entry_with_a_list() {
    let doc = YtDlpDoc {
        formats: None,
        entries: Some(vec![None, Some(vec![record("b", "mp4", Some(720), None)]), Some(vec![])]),
    };
    assert_eq!(ids(&doc), vec!["b".to_string()]);
}

#[test]
fn missing_format_list_is_an_error() {
    let doc = YtDlpDoc { formats: None, entries: Some(vec![None, None]) };
    assert!(format_list(&doc).is_none());
    assert_eq!(
        selectable_formats(&doc).err(),
        Some("yt-dlp did not return a format list for this URL.".to_string())
    );
    let doc = YtDlpDoc { formats: None, entries: None };
    assert!(selectable_formats(&doc).is_err());
}

#[test]
fn list_without_video_is_an_error() {
    let mut audio = record("140", "m4a", None, None);
    audio.vcodec = Some("none".to_string());
    let doc = YtDlpDoc { formats: Some(vec![audio]), entries: None };
    assert_eq!(
        selectable_formats(&doc).err(),
        Some("No selectable video formats were found.".to_string())
    );
}

#[test]
fn formats_sort_best_first() {
    let doc = YtDlpDoc {
        formats: Some(vec![
            record("nh", "mp4", None, Some("60")),
            record("h720", "mp4", Some(720), Some("30")),
            record("h1080-30", "webm", Some(1080), Some("30")),
            record("h1080-60", "webm", Some(1080), Some("60")),
            record("h1080-59", "mp4", Some(1080), Some("59.94")),
            record("b", "mp4", Some(1080), Some("30")),
            record("a", "mp4", Some(1080), Some("30.00")),
            record("z", "mp4", Some(720), None),
        ]),
        entries: None,
    };
    assert_eq!(
        ids(&doc),
        vec!["h1080-60", "h1080-59", "a", "b", "h1080-30", "h720", "z", "nh"]
    );
}

#[test]
fn fps_labels_compare_as_decimals() {
    let rows = available_format_rows(&vec![
        record("x", "mp4", Some(480), Some("9.50")),
        record("y", "mp4", Some(480), Some("10")),
        record("w", "mp4", Some(480), Some("not a number")),
        record("n", "mp4", Some(480), Some("-30")),
        record("big", "mp4", Some(480), Some("123456789012345678901234567890")),
        record("z", "mp4", Some(480), Some("-0")),
    ]);
    assert!(format_le_exec(&rows[1], &rows[0]));
    assert!(!format_le_exec(&rows[0], &rows[1]));
    // An unreadable label counts as zero, above a negative one.
    assert!(format_le_exec(&rows[0], &rows[2]));
    assert!(format_le_exec(&rows[2], &rows[3]));
    assert!(!format_le_exec(&rows[3], &rows[2]));
    let sorted: Vec<String> = sort_formats(rows).into_iter().map(|f| f.id).collect();
    assert_eq!(sorted, vec!["big", "y", "x", "w", "z", "n"]);
}

#[test]
fn negative_fps_sorts_below_a_missing_one() {
    let doc = YtDlpDoc {
        formats: Some(vec![
            record("neg", "mp4", Some(720), Some("-30")),
            record("none", "webm", Some(720), None),
        ]),
        entries: None,
    };
    assert_eq!(ids(&doc), vec!["none", "neg"]);
}

#[test]
fn equal_rows_keep_their_order() {
    let rows = available_format_rows(&vec![
        record("same", "mp4", Some(480), Some("30")),
        record("same", "mp4", Some(480), Some("30")),
    ]);
    let mut first = rows.clone();
    first[0].label = "first".to_string();
    let sorted = sort_formats(first);
    assert_eq!(sorted[0].label, "first");
}
