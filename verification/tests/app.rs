use std::collections::VecDeque;
use yt_download_tui::app::{
    App, DirectoryEntry, DirectoryListing, DirectoryPicker, Effect, FormatLoadResult, KeyCode,
    KeyInput,
};
use yt_download_tui::config::MAX_LOG_LINES;
use yt_download_tui::types::{AvailableFormat, EncoderMode, Focus, Progress, Screen, WorkerEvent};

fn key(code: KeyCode) -> KeyInput {
    KeyInput { code, ctrl: false }
}

fn new_app() -> App<f64> {
    App::default_for(Some("/home/u"), true)
}

fn type_text(app: &mut App<f64>, text: &str) {
    for c in text.chars() {
        assert!(!app.handle_key(key(KeyCode::Char(c)), Some("/home/u")));
    }
}

fn format(id: &str, ext: &str, audio: bool) -> AvailableFormat {
    AvailableFormat {
        id: id.to_string(),
        label: format!("label {id}"),
        ext: ext.to_string(),
        vcodec: "avc1".to_string(),
        acodec: if audio { "mp4a".to_string() } else { "none".to_string() },
        height: Some(720),
        fps_label: None,
        has_audio: audio,
    }
}

#[test]
fn starts_on_the_form() {
    let app = new_app();
    assert_eq!(app.screen, Screen::Form);
    assert_eq!(app.focus, Focus::Url);
    assert_eq!(app.status, "Paste a video or playlist URL.");
    assert_eq!(app.output_dir_input, "/home/u/Downloads/youtube_downloads");
    assert!(app.convert);
    assert_eq!(app.encoder_mode, EncoderMode::AppleHardware);
    assert_eq!(App::<f64>::default_for(None, false).encoder_mode, EncoderMode::CpuX264);
}

#[test]
fn escape_and_ctrl_c_quit_from_form() {
    let mut app = new_app();
    assert!(app.handle_key(key(KeyCode::Esc), None));
    assert!(app.handle_key(KeyInput { code: KeyCode::Char('c'), ctrl: true }, None));
}

#[test]
fn q_is_typed_into_url_but_quits_elsewhere() {
    let mut app = new_app();
    assert!(!app.handle_key(key(KeyCode::Char('q')), None));
    assert_eq!(app.url, "q");
    app.handle_key(key(KeyCode::Tab), None);
    assert_eq!(app.focus, Focus::SourceFormat);
    assert!(app.handle_key(key(KeyCode::Char('q')), None));
}

#[test]
fn typing_and_backspace_edit_the_url() {
    let mut app = new_app();
    type_text(&mut app, "ab");
    assert_eq!(app.url, "ab");
    app.handle_key(key(KeyCode::Backspace), None);
    assert_eq!(app.url, "a");
    app.handle_key(key(KeyCode::Backspace), None);
    app.handle_key(key(KeyCode::Backspace), None);
    assert_eq!(app.url, "");
}

#[test]
fn focus_cycles_through_fields() {
    let mut app = new_app();
    for _ in 0..9 {
        app.handle_key(key(KeyCode::Down), None);
    }
    assert_eq!(app.focus, Focus::Url);
    app.handle_key(key(KeyCode::Up), None);
    assert_eq!(app.focus, Focus::Start);
    app.handle_key(key(KeyCode::BackTab), None);
    assert_eq!(app.focus, Focus::Output);
}

#[test]
fn left_right_change_choices() {
    let mut app = new_app();
    app.focus = Focus::Resolution;
    app.handle_key(key(KeyCode::Right), None);
    assert_eq!(app.resolution_idx, 1);
    assert_eq!(app.resolution_label(), "1080");
    app.handle_key(key(KeyCode::Left), None);
    app.handle_key(key(KeyCode::Left), None);
    assert_eq!(app.resolution_idx, 3);
    app.focus = Focus::Format;
    app.handle_key(key(KeyCode::Left), None);
    assert_eq!(app.format_idx, 2);
    app.focus = Focus::Encoder;
    app.handle_key(key(KeyCode::Right), None);
    assert_eq!(app.encoder_mode, EncoderMode::CpuX264);
    app.focus = Focus::Convert;
    app.handle_key(key(KeyCode::Char(' ')), None);
    assert!(!app.convert);
    app.handle_key(key(KeyCode::Right), None);
    assert!(app.convert);
}

#[test]
fn start_requires_url() {
    let mut app = new_app();
    app.focus = Focus::Start;
    app.handle_key(key(KeyCode::Enter), None);
    assert_eq!(app.status, "URL is required.");
    assert_eq!(app.screen, Screen::Form);
    assert!(app.take_effects().is_empty());
}

#[test]
fn start_reports_output_dir_errors() {
    let mut app = new_app();
    type_text(&mut app, "https://youtu.be/x");
    app.output_dir_input = "~/v".to_string();
    app.focus = Focus::Start;
    app.handle_key(key(KeyCode::Enter), None);
    assert_eq!(app.status, "Could not expand ~/ because HOME is not set.");
    assert_eq!(app.focus, Focus::Output);
}

#[test]
fn start_download_queues_the_job() {
    let mut app = new_app();
    type_text(&mut app, "  https://youtu.be/x ");
    app.output_dir_input = "~/v".to_string();
    app.focus = Focus::Start;
    assert!(!app.handle_key(key(KeyCode::Enter), Some("/home/u")));
    assert_eq!(app.screen, Screen::Running);
    assert_eq!(app.status, "Download started.");
    assert_eq!(app.output_dir, "/home/u/v");
    assert!(app.worker_running);
    let p = app.progress.as_ref().unwrap();
    assert_eq!(p.stage, "Preparing");
    assert_eq!(p.detail, "Starting yt-dlp...");
    let effects = app.take_effects();
    assert_eq!(effects.len(), 1);
    match &effects[0] {
        Effect::StartDownload(job) => {
            assert_eq!(job.url, "https://youtu.be/x");
            assert_eq!(job.resolution, "Best");
            assert_eq!(job.format, "mp4");
            assert_eq!(job.output_dir, "/home/u/v");
            assert!(job.convert);
            assert!(job.selected_source_format.is_none());
        }
        _ => panic!("expected a job"),
    }
    assert!(app.take_effects().is_empty());
}

#[test]
fn loading_formats_and_choosing_one() {
    let mut app = new_app();
    type_text(&mut app, "https://www.youtube.com/watch?v=abc");
    app.focus = Focus::SourceFormat;
    app.handle_key(key(KeyCode::Enter), None);
    assert!(app.formats_loading);
    assert_eq!(app.source_format_label(), "loading available formats...");
    assert!(matches!(app.take_effects().as_slice(), [Effect::LoadFormats(u)] if u == "https://www.youtube.com/watch?v=abc"));
    app.handle_key(key(KeyCode::Char('f')), None);
    assert_eq!(app.status, "Formats are already loading.");
    app.apply_format_result(FormatLoadResult::Loaded(vec![format("22", "mp4", true), format("248", "webm", false)]));
    assert!(!app.formats_loading);
    assert_eq!(app.status, "Loaded 2 available formats. Use Left/Right on Source Format.");
    assert_eq!(app.source_format_label(), "Auto best");
    app.handle_key(key(KeyCode::Left), None);
    assert_eq!(app.source_format_idx, 2);
    assert_eq!(app.source_format_label(), "label 248");
    assert_eq!(app.resolution_label(), "ignored; source format selected");
    app.focus = Focus::Start;
    app.handle_key(key(KeyCode::Enter), None);
    assert_eq!(app.focus, Focus::SourceFormat);
    assert_eq!(
        app.status,
        "Source format 248 (webm) cannot be saved as mp4. Choose mkv or a compatible source format."
    );
    app.handle_key(key(KeyCode::Left), None);
    app.focus = Focus::Start;
    app.handle_key(key(KeyCode::Enter), Some("/h"));
    assert_eq!(app.screen, Screen::Running);
    match app.take_effects().pop() {
        Some(Effect::StartDownload(job)) => {
            assert_eq!(job.selected_source_format.unwrap().id, "22");
        }
        _ => panic!("expected a job"),
    }
}

#[test]
fn editing_url_drops_loaded_formats() {
    let mut app = new_app();
    type_text(&mut app, "https://youtu.be/a");
    app.apply_format_result(FormatLoadResult::Loaded(vec![format("22", "mp4", true)]));
    app.source_format_idx = 1;
    type_text(&mut app, "b");
    assert!(app.available_formats.is_empty());
    assert_eq!(app.source_format_idx, 0);
    assert_eq!(app.status, "URL changed; load formats again if needed.");
}

#[test]
fn playlist_urls_need_auto_best() {
    let mut app = new_app();
    type_text(&mut app, "https://www.youtube.com/playlist?list=PL1");
    app.focus = Focus::SourceFormat;
    app.handle_key(key(KeyCode::Char('f')), None);
    assert_eq!(
        app.status,
        "Exact source format loading is single-video only. Use Auto best for playlists."
    );
    assert!(app.take_effects().is_empty());
}

#[test]
fn format_loading_failures() {
    let mut app = new_app();
    app.formats_loading = true;
    app.apply_format_result(FormatLoadResult::Failed("boom".to_string()));
    assert_eq!(app.status, "boom");
    app.formats_loading = true;
    app.apply_format_result(FormatLoadResult::Stopped);
    assert_eq!(app.status, "Format loading stopped unexpectedly.");
    assert!(!app.formats_loading);
}

fn running_app() -> App<f64> {
    let mut app = new_app();
    type_text(&mut app, "https://youtu.be/x");
    app.focus = Focus::Start;
    app.handle_key(key(KeyCode::Enter), Some("/h"));
    app.take_effects();
    app
}

#[test]
fn cancelling_a_running_job() {
    let mut app = running_app();
    assert!(!app.handle_key(KeyInput { code: KeyCode::Char('c'), ctrl: true }, None));
    assert!(matches!(app.take_effects().as_slice(), [Effect::CancelWorker]));
    app.progress = Some(Progress { stage: "Downloading".to_string(), ratio: Some(0.5), detail: String::new() });
    app.finish_cancel_request(true);
    assert_eq!(app.status, "Cancellation requested.");
    assert_eq!(app.logs.back().unwrap(), "Cancellation requested. Stopping the active process...");
    let p = app.progress.as_ref().unwrap();
    assert_eq!(p.stage, "Cancelling");
    assert_eq!(p.ratio, Some(0.5));
    app.handle_key(key(KeyCode::Char('q')), None);
    app.finish_cancel_request(false);
    assert_eq!(app.status, "Cancellation already requested.");
}

#[test]
fn cancel_without_job_logs() {
    let mut app = new_app();
    app.screen = Screen::Running;
    app.handle_key(key(KeyCode::Esc), None);
    assert_eq!(app.logs.back().unwrap(), "No running process to cancel.");
    assert!(app.take_effects().is_empty());
}

#[test]
fn worker_events_update_the_run() {
    let mut app = running_app();
    let mut events = VecDeque::new();
    events.push_back(WorkerEvent::Log("line 1".to_string()));
    events.push_back(WorkerEvent::Progress(Progress { stage: "Downloading".to_string(), ratio: Some(0.25), detail: "d".to_string() }));
    events.push_back(WorkerEvent::Playlist(yt_download_tui::types::PlaylistProgress { current: 1, total: 3 }));
    events.push_back(WorkerEvent::Done { success: true, message: "Completed.".to_string() });
    app.drain_worker_events(events, false);
    assert_eq!(app.screen, Screen::Done);
    assert_eq!(app.result_success, Some(true));
    assert_eq!(app.status, "Completed.");
    assert!(!app.worker_running);
    assert_eq!(app.logs.iter().cloned().collect::<Vec<_>>(), vec!["line 1", "Completed."]);
    assert_eq!(app.playlist_progress.unwrap().total, 3);
    assert_eq!(app.progress.as_ref().unwrap().ratio, Some(0.25));
}

#[test]
fn lost_worker_fails_the_run() {
    let mut app = running_app();
    app.drain_worker_events(VecDeque::new(), true);
    assert_eq!(app.screen, Screen::Done);
    assert_eq!(app.result_success, Some(false));
    assert_eq!(app.status, "Worker stopped unexpectedly.");
    let mut done = new_app();
    done.drain_worker_events(VecDeque::new(), true);
    assert_eq!(done.screen, Screen::Form);
}

#[test]
fn log_keeps_the_newest_lines() {
    let mut app = new_app();
    for i in 0..(MAX_LOG_LINES + 5) {
        app.push_log(format!("l{i}"));
    }
    assert_eq!(app.logs.len(), MAX_LOG_LINES);
    assert_eq!(app.logs.front().unwrap(), "l5");
    assert_eq!(app.logs.back().unwrap(), &format!("l{}", MAX_LOG_LINES + 4));
}

#[test]
fn result_screen_keys() {
    let mut app = running_app();
    app.drain_worker_events(VecDeque::from(vec![WorkerEvent::Done { success: false, message: "x".to_string() }]), false);
    assert!(!app.handle_key(key(KeyCode::Char('o')), None));
    assert!(matches!(app.take_effects().as_slice(), [Effect::OpenOutputDir(d)] if d == "/home/u/Downloads/youtube_downloads"));
    app.report_open_folder_error("no opener");
    assert_eq!(app.logs.back().unwrap(), "Could not open folder: no opener");
    assert!(!app.handle_key(key(KeyCode::Char('n')), None));
    assert_eq!(app.screen, Screen::Form);
    assert_eq!(app.status, "Ready for another download.");
    assert!(app.logs.is_empty());
    app.screen = Screen::Done;
    assert!(app.handle_key(key(KeyCode::Char('q')), None));
}

#[test]
fn output_picker_flow() {
    let mut app = new_app();
    app.focus = Focus::Output;
    app.handle_key(key(KeyCode::Enter), None);
    assert!(matches!(app.take_effects().as_slice(), [Effect::OpenOutputPicker]));
    let e = |n: &str| DirectoryEntry { name: n.to_string(), path: format!("/srv/{n}") };
    let picker = DirectoryPicker::from_listing(
        "/srv".to_string(),
        DirectoryListing { entries: vec![e("b"), e("a")], entry_error: None, read_error: None },
    );
    app.show_output_picker(picker);
    assert_eq!(app.screen, Screen::OutputPicker);
    app.handle_key(key(KeyCode::Down), None);
    assert_eq!(app.directory_picker.as_ref().unwrap().selected_idx, 1);
    app.handle_key(key(KeyCode::PageDown), None);
    assert_eq!(app.directory_picker.as_ref().unwrap().selected_idx, 0);
    app.handle_key(key(KeyCode::Enter), None);
    assert!(matches!(app.take_effects().as_slice(), [Effect::ReadDirectory(p)] if p == "/srv/a"));
    app.handle_key(key(KeyCode::Backspace), None);
    assert!(matches!(app.take_effects().as_slice(), [Effect::ReadDirectory(p)] if p == "/"));
    app.handle_key(key(KeyCode::Char('~')), Some("/home/u"));
    assert!(matches!(app.take_effects().as_slice(), [Effect::ReadDirectory(p)] if p == "/home/u"));
    app.handle_key(key(KeyCode::Char('s')), None);
    assert_eq!(app.screen, Screen::Form);
    assert_eq!(app.focus, Focus::Output);
    assert_eq!(app.output_dir_input, "/srv");
    assert_eq!(app.output_dir, "/srv");
    assert_eq!(app.status, "Output directory selected.");
}

#[test]
fn state_stays_well_formed() {
    let mut app = new_app();
    let keys = [
        KeyCode::Tab, KeyCode::Left, KeyCode::Right, KeyCode::Down, KeyCode::Left,
        KeyCode::Down, KeyCode::Left, KeyCode::Left, KeyCode::Char(' '), KeyCode::Enter,
        KeyCode::Backspace, KeyCode::Up, KeyCode::PageDown, KeyCode::Other,
    ];
    for _ in 0..5 {
        for code in keys {
            app.handle_key(key(code), None);
            assert!(app.is_well_formed());
        }
    }
}

#[test]
fn encoder_switch_twice_restores() {
    let mut app = new_app();
    app.focus = Focus::Encoder;
    let before = app.encoder_mode;
    app.handle_key(key(KeyCode::Right), None);
    assert_ne!(app.encoder_mode, before);
    app.handle_key(key(KeyCode::Left), None);
    assert_eq!(app.encoder_mode, before);
}

#[test]
fn exact_format_refuses_playlist_urls() {
    let mut app = new_app();
    type_text(&mut app, "https://www.youtube.com/playlist?list=PL1");
    app.apply_format_result(FormatLoadResult::Loaded(vec![format("22", "mp4", true)]));
    app.source_format_idx = 1;
    app.focus = Focus::Start;
    app.handle_key(key(KeyCode::Enter), Some("/h"));
    assert_eq!(app.screen, Screen::Form);
    assert_eq!(
        app.status,
        "Source Format is single-video only. Use Auto best for playlist URLs."
    );
    assert!(app.take_effects().is_empty());
}
