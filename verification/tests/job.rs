use yt_download_tui::job::{
    classify_ffmpeg_line, conversion_detail, unknown_duration_log, conversion_intro_logs, conversion_stage, conversion_step,
    conversion_time_detail, failure_message, is_blank_line, job_done_message, job_intro_logs,
    ytdlp_args, after_conversion, after_download, ConversionNext, FfmpegProgressLine, JobConfig, JobFailure, JobNext,
};
use yt_download_tui::media::OutTimeField;
use yt_download_tui::process::process_group_target;
use yt_download_tui::types::{AvailableFormat, EncoderMode};

fn config(source: Option<AvailableFormat>, convert: bool) -> JobConfig {
    JobConfig {
        url: "https://youtu.be/x".to_string(),
        resolution: "720".to_string(),
        format: "mkv".to_string(),
        output_dir: "/out".to_string(),
        convert,
        encoder_mode: EncoderMode::CpuX264,
        selected_source_format: source,
    }
}

#[test]
fn ytdlp_command_line_for_auto_best() {
    assert_eq!(
        ytdlp_args(&config(None, false)),
        vec![
            "--newline",
            "--progress",
            "--yes-playlist",
            "--no-simulate",
            "--print",
            "before_dl:[queue] %(playlist_index)s of %(n_entries)s",
            "--print",
            "after_move:[file] %(filepath)s",
            "--merge-output-format",
            "mkv",
            "--remux-video",
            "mkv",
            "-f",
            "bestvideo[height<=720]+bestaudio/best[height<=720]",
            "-o",
            "/out/%(title)s [%(id)s].%(ext)s",
            "https://youtu.be/x",
        ]
    );
}

#[test]
fn ytdlp_command_line_for_exact_format() {
    let f = AvailableFormat {
        id: "299".to_string(),
        label: "1080p60".to_string(),
        ext: "mp4".to_string(),
        vcodec: "avc1".to_string(),
        acodec: "none".to_string(),
        height: Some(1080),
        fps_label: Some("60".to_string()),
        has_audio: false,
    };
    let args = ytdlp_args(&config(Some(f.clone()), true));
    assert_eq!(args[2], "--no-playlist");
    assert_eq!(args[13], "299+bestaudio/best");
    assert_eq!(
        job_intro_logs(&config(Some(f), true)),
        vec![
            "Output: /out",
            "Resolution: 720",
            "Format: mkv",
            "Source format: 1080p60",
            "Encoder: Smaller CPU x264",
        ]
    );
    assert_eq!(job_intro_logs(&config(None, false)).len(), 3);
}

#[test]
fn job_messages() {
    assert_eq!(job_done_message(true), "Completed. Downloaded files were converted for QuickTime.");
    assert_eq!(job_done_message(false), "Completed. Downloaded files were kept in the selected format.");
    assert_eq!(failure_message(JobFailure::YtDlpStatus, "exit status: 1"), "yt-dlp exited with status: exit status: 1");
    assert_eq!(failure_message(JobFailure::CaptureStdout, "ignored"), "Could not capture process stdout.");
    assert_eq!(
        failure_message(JobFailure::NoReportedFile, ""),
        "yt-dlp did not report a downloaded file to convert."
    );
}

#[test]
fn conversion_plan() {
    assert_eq!(
        conversion_intro_logs(0, EncoderMode::CpuX264, true),
        vec!["No new files matched the selected format; skipping conversion."]
    );
    assert_eq!(
        conversion_intro_logs(2, EncoderMode::AppleHardware, false),
        vec![
            "Apple hardware encoding is only available on macOS; using CPU x264 instead.",
            "Converting with Smaller CPU x264",
        ]
    );
    assert_eq!(conversion_stage(0, 3), "Converting 1/3");
    let step = conversion_step("/out/a.webm", 1, 2, EncoderMode::CpuX264);
    assert_eq!(step.output, "/out/fixed-a.mp4");
    assert_eq!(step.stage, "Converting 2/2");
    assert_eq!(step.detail, "a.webm -> fixed-a.mp4");
    assert_eq!(
        step.unknown_duration_log,
        "Could not determine duration for a.webm; conversion progress will update when the file finishes."
    );
    assert_eq!(
        step.ffmpeg_args,
        vec![
            "-y", "-nostats", "-progress", "pipe:1", "-i", "/out/a.webm", "-c:v", "libx264",
            "-preset", "fast", "-crf", "23", "-pix_fmt", "yuv420p", "-c:a", "aac", "-b:a",
            "128k", "-movflags", "+faststart", "/out/fixed-a.mp4",
        ]
    );
    assert_eq!(conversion_time_detail("a -> b", "0:05", "1:00"), "a -> b (0:05/1:00)");
}

#[test]
fn ffmpeg_progress_lines() {
    assert!(matches!(classify_ffmpeg_line("   "), FfmpegProgressLine::Blank));
    assert!(matches!(classify_ffmpeg_line(" progress=end "), FfmpegProgressLine::End));
    assert!(matches!(classify_ffmpeg_line("progress=continue"), FfmpegProgressLine::Other));
    assert!(matches!(
        classify_ffmpeg_line("out_time_us=100 "),
        FfmpegProgressLine::Time(OutTimeField::Microseconds(v)) if v == "100"
    ));
    assert!(is_blank_line(" \t "));
    assert!(!is_blank_line(" x "));
}

#[test]
fn process_group_targets() {
    assert_eq!(process_group_target(1234), Some(-1234));
    assert_eq!(process_group_target(i32::MAX as u32), Some(-i32::MAX));
    assert_eq!(process_group_target(u32::MAX), None);
}

#[test]
fn conversion_names_from_reported_file_names() {
    assert_eq!(conversion_detail(Some("a.webm"), Some("fixed-a.mp4")), "a.webm -> fixed-a.mp4");
    assert_eq!(conversion_detail(None, None), "video -> fixed-video.mp4");
    assert_eq!(
        unknown_duration_log(None),
        "Could not determine duration for video; conversion progress will update when the file finishes."
    );
}

#[test]
fn exact_format_ignores_fallback_resolution() {
    let f = AvailableFormat {
        id: "18".to_string(),
        label: "360p".to_string(),
        ext: "mp4".to_string(),
        vcodec: "avc1".to_string(),
        acodec: "mp4a".to_string(),
        height: Some(360),
        fps_label: None,
        has_audio: true,
    };
    let mut a = config(Some(f.clone()), false);
    let mut b = config(Some(f), false);
    a.resolution = "Best".to_string();
    b.resolution = "480".to_string();
    assert_eq!(ytdlp_args(&a), ytdlp_args(&b));
    assert_eq!(ytdlp_args(&a)[2], "--no-playlist");
}

#[test]
fn failed_download_fails_the_job() {
    let r = after_download(true, false, "exit status: 1", vec!["a.mp4".to_string()]);
    assert_eq!(r.err(), Some("yt-dlp exited with status: exit status: 1".to_string()));
}

#[test]
fn conversion_needs_a_reported_file() {
    let r = after_download(true, true, "exit status: 0", vec![]);
    assert_eq!(r.err(), Some("yt-dlp did not report a downloaded file to convert.".to_string()));
}

#[test]
fn reported_files_are_converted() {
    let files = vec!["/d/A [x].webm".to_string(), "/d/B [y].webm".to_string()];
    match after_download(true, true, "exit status: 0", files.clone()) {
        Ok(JobNext::Convert(f)) => assert_eq!(f, files),
        _ => panic!("expected conversion"),
    }
}

#[test]
fn without_conversion_the_job_is_done() {
    match after_download(false, true, "exit status: 0", vec![]) {
        Ok(JobNext::Finish(m)) => {
            assert_eq!(m, "Completed. Downloaded files were kept in the selected format.")
        }
        _ => panic!("expected to finish"),
    }
}

#[test]
fn conversion_steps_through_the_files() {
    assert!(matches!(after_conversion(0, 3, true, "exit status: 0"), Ok(ConversionNext::NextFile(1))));
    assert!(matches!(after_conversion(2, 3, true, "exit status: 0"), Ok(ConversionNext::AllDone)));
    assert_eq!(
        after_conversion(1, 3, false, "exit status: 1").err(),
        Some("ffmpeg exited with status: exit status: 1".to_string())
    );
}
