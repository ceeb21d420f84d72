use yt_download_tui::media::{
    available_format_rows, clock_parts, compact_download_detail, effective_encoder_mode,
    fixed_mp4_path, fixed_mp4_path_from, format_clock, format_selector, looks_like_playlist_only_url,
    new_downloaded_files, out_time_field, parse_available_format, parse_percent_text,
    parse_ytdlp_progress, percent_slice_on_char_boundary, require_selectable_formats,
    selected_format_container_error, selected_format_selector, short_codec, video_encoder_args,
    FileCandidate, FolderEntry, snapshot_files, eq_ignore_ascii_case_exec, FormatRecord, OutTimeField, classify_ytdlp_line, ytdlp_line_slices_inside_char, YtDlpLine,
};
use yt_download_tui::text::parse_usize_digits;
use yt_download_tui::types::{AvailableFormat, EncoderMode};

fn record(id: &str, ext: &str, vcodec: &str, acodec: &str, height: u64, fps: &str) -> FormatRecord {
    FormatRecord {
        format_id: Some(id.to_string()),
        ext: Some(ext.to_string()),
        vcodec: Some(vcodec.to_string()),
        acodec: Some(acodec.to_string()),
        height: Some(height),
        fps_label: Some(fps.to_string()),
        size_label: None,
    }
}

#[test]
fn parses_ytdlp_percent() {
    let text = parse_percent_text("[download]  42.5% of 10.00MiB at 1.00MiB/s ETA 00:05");
    assert_eq!(text.as_deref(), Some("42.5"));
    assert_eq!(text.and_then(|t| t.parse::<f64>().ok()), Some(42.5));
}

#[test]
fn percent_needs_a_number() {
    assert_eq!(parse_percent_text("no percent here"), None);
    assert_eq!(parse_percent_text("[download] .% done"), None);
    assert_eq!(parse_percent_text("[download] 1.2.3% done"), None);
    assert_eq!(parse_percent_text("100%"), Some("100".to_string()));
    assert_eq!(parse_percent_text("x.5%"), Some(".5".to_string()));
}

#[test]
fn percent_slice_boundary() {
    assert!(percent_slice_on_char_boundary("[download]  42.5%"));
    assert!(!percent_slice_on_char_boundary("[download] é42%"));
    assert!(percent_slice_on_char_boundary("no percent é"));
}

#[test]
fn ytdlp_progress_line_parts() {
    let line = "[download]  42.5% of 10.00MiB at 1.00MiB/s ETA 00:05";
    let p = parse_ytdlp_progress(line).expect("progress line");
    assert_eq!(p.stage, "Downloading");
    assert_eq!(p.percent, "42.5");
    assert_eq!(p.detail, "1.00MiB/s ETA 00:05");
    assert!(parse_ytdlp_progress("[info] 42% of something").is_none());
    assert!(parse_ytdlp_progress("[download] Destination: a.mp4").is_none());
}

#[test]
fn compacts_download_detail() {
    assert_eq!(compact_download_detail("  [download] 1% at 2MiB/s  "), "2MiB/s");
    assert_eq!(compact_download_detail("  plain line "), "plain line");
}

#[test]
fn parses_ffmpeg_out_time() {
    let seconds = |line: &str| -> Option<f64> {
        match out_time_field(line)? {
            OutTimeField::Clock(v) => {
                let (h, m, s) = clock_parts(&v)?;
                Some(h.parse::<f64>().ok()? * 3600.0 + m.parse::<f64>().ok()? * 60.0 + s.parse::<f64>().ok()?)
            }
            OutTimeField::Microseconds(v) => Some(v.trim().parse::<f64>().ok()? / 1_000_000.0),
        }
    };
    assert_eq!(seconds("out_time=00:01:02.500000"), Some(62.5));
    assert_eq!(seconds("out_time_us=2500000"), Some(2.5));
}

#[test]
fn out_time_fields() {
    assert!(matches!(out_time_field("out_time=00:00:01.0"), Some(OutTimeField::Clock(v)) if v == "00:00:01.0"));
    assert!(matches!(out_time_field("out_time_ms=12"), Some(OutTimeField::Microseconds(v)) if v == "12"));
    assert!(out_time_field("frame=10").is_none());
    assert_eq!(clock_parts(" 1:2:3 "), Some(("1".to_string(), "2".to_string(), "3".to_string())));
    assert_eq!(clock_parts("1:2"), None);
    assert_eq!(clock_parts("1:2:3:4"), None);
}

#[test]
fn formats_duration() {
    assert_eq!(format_clock((62.4f64).max(0.0).round() as u64), "1:02");
    assert_eq!(format_clock((3661.0f64).max(0.0).round() as u64), "1:01:01");
    assert_eq!(format_clock(0), "0:00");
    assert_eq!(format_clock(59), "0:59");
}

#[test]
fn parses_selectable_video_format() {
    let mut r = record("299", "mp4", "avc1.64002a", "none", 1080, "60");
    r.size_label = Some("~10.0MiB".to_string());
    let format = parse_available_format(&r).expect("format should parse");
    assert_eq!(format.id, "299");
    assert_eq!(format.height, Some(1080));
    assert_eq!(format.fps_label.as_deref(), Some("60"));
    assert!(!format.has_audio);
    assert_eq!(format.label, "1080p60 mp4 avc1 video-only id=299 ~10.0MiB");
    assert_eq!(selected_format_selector(&format), "299+bestaudio/best");
}

#[test]
fn keeps_combined_format_selector_simple() {
    let r = record("18", "mp4", "avc1.42001E", "mp4a.40.2", 360, "30");
    let format = parse_available_format(&r).expect("format should parse");
    assert!(format.has_audio);
    assert_eq!(selected_format_selector(&format), "18/best");
}

#[test]
fn skips_audio_only_and_unnamed_formats() {
    let audio = record("140", "m4a", "none", "mp4a.40.2", 0, "1");
    assert!(parse_available_format(&audio).is_none());
    let mut unnamed = record("x", "mp4", "avc1", "none", 1, "1");
    unnamed.format_id = None;
    assert!(parse_available_format(&unnamed).is_none());
    let rows = available_format_rows(&vec![audio, record("22", "mp4", "avc1", "mp4a", 720, "30")]);
    assert_eq!(rows.len(), 1);
    assert_eq!(rows[0].id, "22");
}

#[test]
fn format_label_fallbacks() {
    let r = FormatRecord {
        format_id: Some("7".to_string()),
        ext: None,
        vcodec: Some("vp9".to_string()),
        acodec: None,
        height: Some(1u64 << 40),
        fps_label: None,
        size_label: None,
    };
    let f = parse_available_format(&r).unwrap();
    assert_eq!(f.label, "unknown unknown vp9 video-only id=7");
    assert_eq!(f.height, None);
    let mut g = r;
    g.fps_label = Some("29.97".to_string());
    assert_eq!(parse_available_format(&g).unwrap().label, "29.97fps unknown vp9 video-only id=7");
}

#[test]
fn empty_format_list_is_an_error() {
    assert_eq!(
        require_selectable_formats(Vec::new()).err().as_deref(),
        Some("No selectable video formats were found.")
    );
}

#[test]
fn selectors() {
    assert_eq!(format_selector("mp4", "Best"), "bestvideo+bestaudio/best");
    assert_eq!(
        format_selector("mp4", "720"),
        "bestvideo[height<=720]+bestaudio/best[height<=720]"
    );
}

#[test]
fn short_codec_family() {
    assert_eq!(short_codec("avc1.64002a"), "avc1");
    assert_eq!(short_codec("vp9"), "vp9");
    assert_eq!(short_codec(".x"), "");
}

#[test]
fn encoder_choice_and_arguments() {
    assert_eq!(effective_encoder_mode(EncoderMode::AppleHardware, false), EncoderMode::CpuX264);
    assert_eq!(effective_encoder_mode(EncoderMode::AppleHardware, true), EncoderMode::AppleHardware);
    assert_eq!(effective_encoder_mode(EncoderMode::CpuX264, true), EncoderMode::CpuX264);
    assert_eq!(
        video_encoder_args(EncoderMode::CpuX264),
        vec!["-c:v", "libx264", "-preset", "fast", "-crf", "23", "-pix_fmt", "yuv420p"]
    );
    assert_eq!(
        video_encoder_args(EncoderMode::AppleHardware),
        vec!["-c:v", "h264_videotoolbox", "-b:v", "6000k", "-pix_fmt", "yuv420p"]
    );
}

#[test]
fn playlist_only_urls() {
    assert!(looks_like_playlist_only_url("https://www.youtube.com/playlist?list=PL123"));
    assert!(!looks_like_playlist_only_url("https://www.youtube.com/watch?v=abc&list=PL123"));
    assert!(!looks_like_playlist_only_url("https://youtu.be/abc?list=PL123"));
    assert!(!looks_like_playlist_only_url("https://www.youtube.com/watch?v=abc"));
}

#[test]
fn container_compatibility() {
    let f = AvailableFormat {
        id: "248".to_string(),
        label: String::new(),
        ext: "webm".to_string(),
        vcodec: "vp9".to_string(),
        acodec: "none".to_string(),
        height: Some(1080),
        fps_label: None,
        has_audio: false,
    };
    assert_eq!(
        selected_format_container_error(&f, "mp4").as_deref(),
        Some("Source format 248 (webm) cannot be saved as mp4. Choose mkv or a compatible source format.")
    );
    assert!(selected_format_container_error(&f, "mkv").is_none());
    assert!(selected_format_container_error(&f, "webm").is_none());
}

#[test]
fn picks_new_files_sorted() {
    let c = |p: &str, in_snapshot: bool, modified: bool| FileCandidate {
        path: p.to_string(),
        in_snapshot,
        modified_since_start: modified,
    };
    let files = new_downloaded_files(&vec![
        c("/d/b.mp4", false, false),
        c("/d/old.mp4", true, false),
        c("/d/a.mp4", true, true),
        c("/d/C.mp4", false, false),
    ]);
    assert_eq!(files, vec!["/d/C.mp4", "/d/a.mp4", "/d/b.mp4"]);
}

#[test]
fn converted_file_name() {
    assert_eq!(fixed_mp4_path("/d/My Video [id].webm"), "/d/fixed-My Video [id].mp4");
    assert_eq!(fixed_mp4_path("clip.mkv"), "fixed-clip.mp4");
    assert_eq!(fixed_mp4_path("/"), "./fixed-video.mp4");
    assert_eq!(fixed_mp4_path_from(Some("/d"), Some("x")), "/d/fixed-x.mp4");
    assert_eq!(fixed_mp4_path_from(None, None), "./fixed-video.mp4");
}

#[test]
fn reads_ytdlp_reports() {
    assert!(matches!(classify_ytdlp_line("   "), YtDlpLine::Blank));
    assert!(matches!(
        classify_ytdlp_line("[queue] 3 of 12"),
        YtDlpLine::Queue(p) if p.current == 3 && p.total == 12
    ));
    assert!(matches!(classify_ytdlp_line("[queue] NA of NA"), YtDlpLine::Other));
    assert!(matches!(
        classify_ytdlp_line("[file] /out/T [id].mp4"),
        YtDlpLine::File(p) if p == "/out/T [id].mp4"
    ));
    assert!(matches!(classify_ytdlp_line("[file] "), YtDlpLine::Other));
    assert!(matches!(
        classify_ytdlp_line("[download]  10.0% of 5MiB at 1MiB/s"),
        YtDlpLine::Progress(d) if d.percent == "10.0" && d.detail == "1MiB/s"
    ));
    assert!(matches!(classify_ytdlp_line("[youtube] Extracting URL"), YtDlpLine::Other));
    assert!(ytdlp_line_slices_inside_char("[download] é42% of 1MiB"));
    assert!(!ytdlp_line_slices_inside_char("[file] /x/[download] é42%.mp4"));
}

#[test]
fn parses_decimal_counts() {
    assert_eq!(parse_usize_digits("0"), Some(0));
    assert_eq!(parse_usize_digits("0042"), Some(42));
    assert_eq!(parse_usize_digits(""), None);
    assert_eq!(parse_usize_digits("4a"), None);
    assert_eq!(parse_usize_digits("-1"), None);
    assert_eq!(parse_usize_digits(&usize::MAX.to_string()), Some(usize::MAX));
    assert_eq!(parse_usize_digits("99999999999999999999999"), None);
}

#[test]
fn snapshot_keeps_files_with_the_extension() {
    let entry = |path: &str, is_file: bool| FolderEntry { path: path.to_string(), is_file };
    let files = snapshot_files(
        &vec![
            entry("/d/a.mp4", true),
            entry("/d/b.MP4", true),
            entry("/d/c.webm", true),
            entry("/d/dir.mp4", false),
            entry("/d/mp4", true),
            entry("/d/e.mp4.part", true),
        ],
        "mp4",
    );
    assert_eq!(files, vec!["/d/a.mp4".to_string(), "/d/b.MP4".to_string()]);
    assert!(eq_ignore_ascii_case_exec("WebM", "webm"));
    assert!(!eq_ignore_ascii_case_exec("webm", "web"));
    assert!(!eq_ignore_ascii_case_exec("é", "É"));
}
