//! Download jobs: their settings, the `yt-dlp` and `ffmpeg` command lines, and the
//! messages a job reports.
use vstd::prelude::*;
use crate::types::{AvailableFormat, AvailableFormatView, EncoderMode};
use crate::config::{join_path, join_path_str};
use crate::media::{
    effective_encoder, effective_encoder_mode, fixed_mp4_path, fixed_mp4_path_text,
    format_selector, format_selector_text, out_time_field, selected_format_selector,
    selected_format_selector_text, strings_view, strs_view, video_encoder_arg_texts,
    video_encoder_args, or_text, OutTimeField,
};
use crate::paths::{path_file_name, path_file_name_of};
use crate::text::{
    append_str, decimal, push_decimal, str_eq, to_owned_string, trim, trimmed,
};

verus! {

/// What a download job needs to know.
#[derive(Clone, Debug)]
pub struct JobConfig {
    pub url: String,
    pub resolution: String,
    pub format: String,
    pub output_dir: String,
    pub convert: bool,
    pub encoder_mode: EncoderMode,
    pub selected_source_format: Option<AvailableFormat>,
}

/// The characters held by a [`JobConfig`].
pub struct JobConfigView {
    pub url: Seq<char>,
    pub resolution: Seq<char>,
    pub format: Seq<char>,
    pub output_dir: Seq<char>,
    pub convert: bool,
    pub encoder_mode: EncoderMode,
    pub selected_source_format: Option<AvailableFormatView>,
}

impl View for JobConfig {
    type V = JobConfigView;

    open spec fn view(&self) -> JobConfigView {
        JobConfigView {
            url: self.url@,
            resolution: self.resolution@,
            format: self.format@,
            output_dir: self.output_dir@,
            convert: self.convert,
            encoder_mode: self.encoder_mode,
            selected_source_format: match self.selected_source_format {
                Some(f) => Some(f@),
                None => None,
            },
        }
    }
}

/// The log lines a job starts with: folder, resolution, container, the exact source format
/// when one is chosen, and the encoder when converting.
pub open spec fn job_intro_log_texts(c: JobConfigView) -> Seq<Seq<char>> {
    let base = seq![
        "Output: "@ + c.output_dir,
        "Resolution: "@ + c.resolution,
        "Format: "@ + c.format,
    ];
    let with_source = match c.selected_source_format {
        Some(f) => base.push("Source format: "@ + f.label),
        None => base,
    };
    if c.convert {
        with_source.push("Encoder: "@ + c.encoder_mode.label_text())
    } else {
        with_source
    }
}

fn prefixed(prefix: &str, text: &str) -> (r: String)
    ensures
        r@ == prefix@ + text@,
{
    let mut r = to_owned_string(prefix);
    append_str(&mut r, text);
    r
}

pub fn job_intro_logs(config: &JobConfig) -> (r: Vec<String>)
    ensures
        strings_view(r@) == job_intro_log_texts(config@),
{
    let mut r: Vec<String> = Vec::new();
    r.push(prefixed("Output: ", config.output_dir.as_str()));
    r.push(prefixed("Resolution: ", config.resolution.as_str()));
    r.push(prefixed("Format: ", config.format.as_str()));
    match &config.selected_source_format {
        Some(f) => r.push(prefixed("Source format: ", f.label.as_str())),
        None => {},
    }
    if config.convert {
        r.push(prefixed("Encoder: ", config.encoder_mode.label()));
    }
    assert(strings_view(r@) =~= job_intro_log_texts(config@));
    r
}

/// The `-f` selector of a job.
pub open spec fn job_selector_text(c: JobConfigView) -> Seq<char> {
    match c.selected_source_format {
        Some(f) => selected_format_selector_text(f.id, f.has_audio),
        None => format_selector_text(c.resolution),
    }
}

/// The `--print` template by which `yt-dlp` reports each playlist item before it downloads.
pub open spec fn queue_print_template() -> Seq<char> {
    "before_dl:[queue] %(playlist_index)s of %(n_entries)s"@
}

/// The `--print` template by which `yt-dlp` reports each file once it is in place.
pub open spec fn file_print_template() -> Seq<char> {
    "after_move:[file] %(filepath)s"@
}

/// The output template: title and video id, so that items with one title do not collide.
pub open spec fn output_template() -> Seq<char> {
    "%(title)s [%(id)s].%(ext)s"@
}

/// The `yt-dlp` arguments of a job: line-by-line progress, playlist mode (single video
/// for an exact source format), the playlist item and final file reports, the container for
/// merging and remuxing, the selector, the output template in the output folder, and the
/// URL.
pub open spec fn ytdlp_arg_texts(c: JobConfigView) -> Seq<Seq<char>> {
    seq![
        "--newline"@,
        "--progress"@,
        if c.selected_source_format is Some {
            "--no-playlist"@
        } else {
            "--yes-playlist"@
        },
        "--no-simulate"@,
        "--print"@,
        queue_print_template(),
        "--print"@,
        file_print_template(),
        "--merge-output-format"@,
        c.format,
        "--remux-video"@,
        c.format,
        "-f"@,
        job_selector_text(c),
        "-o"@,
        join_path(c.output_dir, output_template()),
        c.url,
    ]
}

pub fn ytdlp_args(config: &JobConfig) -> (r: Vec<String>)
    ensures
        strings_view(r@) == ytdlp_arg_texts(config@),
        r@.len() == 17,
        r@[16]@ == config.url@,
        r@[2]@ == if config.selected_source_format is Some {
            "--no-playlist"@
        } else {
            "--yes-playlist"@
        },
        r@[8]@ == "--merge-output-format"@ && r@[9]@ == config.format@,
        r@[10]@ == "--remux-video"@ && r@[11]@ == config.format@,
        r@[12]@ == "-f"@ && r@[13]@ == match config.selected_source_format {
            Some(f) => selected_format_selector_text(f.id@, f.has_audio),
            None => format_selector_text(config.resolution@),
        },
        r@[14]@ == "-o"@ && r@[15]@ == join_path(config.output_dir@, "%(title)s [%(id)s].%(ext)s"@),
        r@[6]@ == "--print"@ && r@[7]@ == "after_move:[file] %(filepath)s"@,
{
    let selector = match &config.selected_source_format {
        Some(f) => selected_format_selector(f),
        None => format_selector(config.format.as_str(), config.resolution.as_str()),
    };
    let mut r: Vec<String> = Vec::new();
    r.push(to_owned_string("--newline"));
    r.push(to_owned_string("--progress"));
    r.push(to_owned_string(if config.selected_source_format.is_some() {
        "--no-playlist"
    } else {
        "--yes-playlist"
    }));
    r.push(to_owned_string("--no-simulate"));
    r.push(to_owned_string("--print"));
    r.push(to_owned_string("before_dl:[queue] %(playlist_index)s of %(n_entries)s"));
    r.push(to_owned_string("--print"));
    r.push(to_owned_string("after_move:[file] %(filepath)s"));
    r.push(to_owned_string("--merge-output-format"));
    r.push(config.format.clone());
    r.push(to_owned_string("--remux-video"));
    r.push(config.format.clone());
    r.push(to_owned_string("-f"));
    r.push(selector);
    r.push(to_owned_string("-o"));
    r.push(join_path_str(config.output_dir.as_str(), "%(title)s [%(id)s].%(ext)s"));
    r.push(config.url.clone());
    assert(strings_view(r@) =~= ytdlp_arg_texts(config@));
    proof {
        let v = strings_view(r@);
        assert forall|k: int| 0 <= k < r@.len() implies #[trigger] r@[k]@ == v[k] by {}
        assert(v[13] == job_selector_text(config@));
    }
    r
}

/// The message a successful job ends with.
pub open spec fn job_done_text(convert: bool) -> Seq<char> {
    if convert {
        "Completed. Downloaded files were converted for QuickTime."@
    } else {
        "Completed. Downloaded files were kept in the selected format."@
    }
}

pub fn job_done_message(convert: bool) -> (r: String)
    ensures
        r@ == job_done_text(convert),
{
    to_owned_string(if convert {
        "Completed. Downloaded files were converted for QuickTime."
    } else {
        "Completed. Downloaded files were kept in the selected format."
    })
}

/// What a job does once `yt-dlp` has exited successfully.
pub enum JobNext {
    /// Convert these files, the final paths `yt-dlp` reported, then finish.
    Convert(Vec<String>),
    /// Finish now with this message.
    Finish(String),
}

/// The decision after the download: a failed `yt-dlp` exit fails the job; with conversion
/// on, the reported files are converted, and a download that reported none fails (the
/// output folder is never scanned); with conversion off, the job is done.
pub fn after_download(convert: bool, exit_success: bool, exit_status: &str, reported: Vec<String>) -> (r: Result<JobNext, String>)
    ensures
        !exit_success ==> (r matches Err(e) && e@ == failure_prefix(JobFailure::YtDlpStatus)
            + exit_status@),
        exit_success && convert && reported@.len() == 0 ==> (r matches Err(e) && e@
            == failure_prefix(JobFailure::NoReportedFile)),
        exit_success && convert && reported@.len() > 0 ==> (r matches Ok(JobNext::Convert(f))
            && strings_view(f@) == strings_view(reported@)),
        exit_success && !convert ==> (r matches Ok(JobNext::Finish(m)) && m@ == job_done_text(
            false,
        )),
{
    if !exit_success {
        return Err(failure_message(JobFailure::YtDlpStatus, exit_status));
    }
    if convert {
        if reported.len() == 0 {
            return Err(failure_message(JobFailure::NoReportedFile, ""));
        }
        Ok(JobNext::Convert(reported))
    } else {
        Ok(JobNext::Finish(job_done_message(false)))
    }
}

/// What a conversion does once `ffmpeg` has exited on one file.
pub enum ConversionNext {
    /// Convert the file at this index next.
    NextFile(usize),
    /// Every file is converted.
    AllDone,
}

/// The decision after converting file `index` of `total`: a failed `ffmpeg` exit stops the
/// conversion and fails the job; otherwise the next file follows, until the last.
pub fn after_conversion(index: usize, total: usize, exit_success: bool, exit_status: &str) -> (r: Result<ConversionNext, String>)
    requires
        index < total,
    ensures
        !exit_success ==> (r matches Err(e) && e@ == failure_prefix(JobFailure::FfmpegStatus)
            + exit_status@),
        exit_success && index + 1 < total ==> (r matches Ok(ConversionNext::NextFile(n)) && n
            == index + 1),
        exit_success && index + 1 == total ==> r matches Ok(ConversionNext::AllDone),
{
    if !exit_success {
        return Err(failure_message(JobFailure::FfmpegStatus, exit_status));
    }
    if index + 1 < total {
        Ok(ConversionNext::NextFile(index + 1))
    } else {
        Ok(ConversionNext::AllDone)
    }
}

/// What went wrong in a job.
#[derive(Clone, Copy, Debug, PartialEq, Eq, Structural)]
pub enum JobFailure {
    CreateOutputDir,
    StartYtDlp,
    CaptureStdout,
    CaptureStderr,
    WaitYtDlp,
    YtDlpStatus,
    StartFfmpeg,
    CaptureFfmpegStdout,
    CaptureFfmpegStderr,
    WaitFfmpeg,
    FfmpegStatus,
    NoReportedFile,
}

/// The message of a failure, ahead of its detail (where it takes one).
pub open spec fn failure_prefix(kind: JobFailure) -> Seq<char> {
    match kind {
        JobFailure::CreateOutputDir => "Could not create output directory: "@,
        JobFailure::StartYtDlp => "Could not start yt-dlp: "@,
        JobFailure::CaptureStdout => "Could not capture process stdout."@,
        JobFailure::CaptureStderr => "Could not capture process stderr."@,
        JobFailure::WaitYtDlp => "yt-dlp failed to finish: "@,
        JobFailure::YtDlpStatus => "yt-dlp exited with status: "@,
        JobFailure::StartFfmpeg => "Could not start ffmpeg: "@,
        JobFailure::CaptureFfmpegStdout => "Could not capture ffmpeg stdout."@,
        JobFailure::CaptureFfmpegStderr => "Could not capture ffmpeg stderr."@,
        JobFailure::WaitFfmpeg => "ffmpeg failed to finish: "@,
        JobFailure::FfmpegStatus => "ffmpeg exited with status: "@,
        JobFailure::NoReportedFile => "yt-dlp did not report a downloaded file to convert."@,
    }
}

/// Whether a failure's message takes a detail (an error or an exit status).
pub open spec fn failure_takes_detail(kind: JobFailure) -> bool {
    !(kind == JobFailure::CaptureStdout || kind == JobFailure::CaptureStderr || kind
        == JobFailure::CaptureFfmpegStdout || kind == JobFailure::CaptureFfmpegStderr || kind
        == JobFailure::NoReportedFile)
}

/// The message a job fails with.
pub fn failure_message(kind: JobFailure, detail: &str) -> (r: String)
    ensures
        r@ == if failure_takes_detail(kind) {
            failure_prefix(kind) + detail@
        } else {
            failure_prefix(kind)
        },
{
    let prefix = match kind {
        JobFailure::CreateOutputDir => "Could not create output directory: ",
        JobFailure::StartYtDlp => "Could not start yt-dlp: ",
        JobFailure::CaptureStdout => "Could not capture process stdout.",
        JobFailure::CaptureStderr => "Could not capture process stderr.",
        JobFailure::WaitYtDlp => "yt-dlp failed to finish: ",
        JobFailure::YtDlpStatus => "yt-dlp exited with status: ",
        JobFailure::StartFfmpeg => "Could not start ffmpeg: ",
        JobFailure::CaptureFfmpegStdout => "Could not capture ffmpeg stdout.",
        JobFailure::CaptureFfmpegStderr => "Could not capture ffmpeg stderr.",
        JobFailure::WaitFfmpeg => "ffmpeg failed to finish: ",
        JobFailure::FfmpegStatus => "ffmpeg exited with status: ",
        JobFailure::NoReportedFile => "yt-dlp did not report a downloaded file to convert.",
    };
    let mut r = to_owned_string(prefix);
    if !(kind == JobFailure::CaptureStdout || kind == JobFailure::CaptureStderr || kind
        == JobFailure::CaptureFfmpegStdout || kind == JobFailure::CaptureFfmpegStderr || kind
        == JobFailure::NoReportedFile) {
        append_str(&mut r, detail);
    }
    r
}

/// The log lines that open a conversion of `file_count` files: a note when there is
/// nothing to convert; else a note when Apple hardware encoding was asked for off macOS,
/// and the encoder used.
pub open spec fn conversion_intro_texts(file_count: nat, requested: EncoderMode, is_macos: bool) -> Seq<Seq<char>> {
    if file_count == 0 {
        seq!["No new files matched the selected format; skipping conversion."@]
    } else {
        let used = effective_encoder(requested, is_macos);
        let notes = if used != requested {
            seq!["Apple hardware encoding is only available on macOS; using CPU x264 instead."@]
        } else {
            Seq::empty()
        };
        notes.push("Converting with "@ + used.label_text())
    }
}

pub fn conversion_intro_logs(file_count: usize, requested: EncoderMode, is_macos: bool) -> (r: Vec<String>)
    ensures
        strings_view(r@) == conversion_intro_texts(file_count as nat, requested, is_macos),
{
    let mut r: Vec<String> = Vec::new();
    if file_count == 0 {
        r.push(to_owned_string("No new files matched the selected format; skipping conversion."));
        assert(strings_view(r@) =~= conversion_intro_texts(file_count as nat, requested, is_macos));
        return r;
    }
    let used = effective_encoder_mode(requested, is_macos);
    if used != requested {
        r.push(to_owned_string("Apple hardware encoding is only available on macOS; using CPU x264 instead."));
    }
    r.push(prefixed("Converting with ", used.label()));
    assert(strings_view(r@) =~= conversion_intro_texts(file_count as nat, requested, is_macos));
    r
}

/// The stage line of the conversion of file `index` (from zero) out of `total`.
pub open spec fn conversion_stage_text(index: nat, total: nat) -> Seq<char> {
    "Converting "@ + decimal(index + 1) + "/"@ + decimal(total)
}

pub fn conversion_stage(index: usize, total: usize) -> (r: String)
    requires
        index < usize::MAX,
    ensures
        r@ == conversion_stage_text(index as nat, total as nat),
{
    let mut r = to_owned_string("Converting ");
    push_decimal(&mut r, (index + 1) as u64);
    append_str(&mut r, "/");
    push_decimal(&mut r, total as u64);
    r
}

/// The `ffmpeg` arguments converting `input` into `output` with an encoder: progress on
/// standard output, the video encoder's settings, AAC audio and a front-loaded index.
pub open spec fn ffmpeg_arg_texts(input: Seq<char>, output: Seq<char>, mode: EncoderMode) -> Seq<Seq<char>> {
    seq!["-y"@, "-nostats"@, "-progress"@, "pipe:1"@, "-i"@, input] + video_encoder_arg_texts(mode)
        + seq!["-c:a"@, "aac"@, "-b:a"@, "128k"@, "-movflags"@, "+faststart"@, output]
}

/// One file to convert: where it goes, what the progress display and log say about it,
/// and the `ffmpeg` command line.
pub struct ConversionStep {
    pub input: String,
    pub output: String,
    pub stage: String,
    /// `<file name> -> <output file name>`.
    pub detail: String,
    /// The log line used when the file's duration is unknown.
    pub unknown_duration_log: String,
    pub ffmpeg_args: Vec<String>,
}

/// The file name shown for a path, `fallback` when it has none.
pub open spec fn display_name(path: Seq<char>, fallback: Seq<char>) -> Seq<char> {
    or_text(path_file_name_of(path), fallback)
}

/// `o`'s text, or `default`.
pub open spec fn str_or(o: Option<&str>, default: Seq<char>) -> Seq<char> {
    match o {
        Some(s) => s@,
        None => default,
    }
}

/// The conversion's detail line, given the file names `Path::file_name` reports for the
/// input and the output.
pub fn conversion_detail(file_name: Option<&str>, output_name: Option<&str>) -> (r: String)
    ensures
        r@ == str_or(file_name, "video"@) + " -> "@ + str_or(output_name, "fixed-video.mp4"@),
{
    let mut r = to_owned_string(match file_name {
        Some(n) => n,
        None => "video",
    });
    append_str(&mut r, " -> ");
    append_str(&mut r, match output_name {
        Some(n) => n,
        None => "fixed-video.mp4",
    });
    r
}

/// The log line for a file whose duration is unknown, given its file name.
pub fn unknown_duration_log(file_name: Option<&str>) -> (r: String)
    ensures
        r@ == "Could not determine duration for "@ + str_or(file_name, "video"@)
            + "; conversion progress will update when the file finishes."@,
{
    let mut r = to_owned_string("Could not determine duration for ");
    append_str(&mut r, match file_name {
        Some(n) => n,
        None => "video",
    });
    append_str(&mut r, "; conversion progress will update when the file finishes.");
    r
}

/// The conversion of file `index` (from zero) of `total` with the encoder `mode` in use.
pub fn conversion_step(file: &str, index: usize, total: usize, mode: EncoderMode) -> (r: ConversionStep)
    requires
        index < usize::MAX,
    ensures
        r.input@ == file@,
        r.output@ == fixed_mp4_path_text(file@),
        r.stage@ == conversion_stage_text(index as nat, total as nat),
        r.detail@ == display_name(file@, "video"@) + " -> "@ + display_name(
            fixed_mp4_path_text(file@),
            "fixed-video.mp4"@,
        ),
        r.unknown_duration_log@ == "Could not determine duration for "@ + display_name(file@, "video"@)
            + "; conversion progress will update when the file finishes."@,
        strings_view(r.ffmpeg_args@) == ffmpeg_arg_texts(file@, fixed_mp4_path_text(file@), mode),
{
    let output = fixed_mp4_path(file);
    let name = path_file_name(file);
    let out_name = path_file_name(output.as_str());
    let name_ref = match &name {
        Some(n) => Some(n.as_str()),
        None => None,
    };
    let out_ref = match &out_name {
        Some(n) => Some(n.as_str()),
        None => None,
    };
    let detail = conversion_detail(name_ref, out_ref);
    let unknown = unknown_duration_log(name_ref);
    let mut args: Vec<String> = Vec::new();
    args.push(to_owned_string("-y"));
    args.push(to_owned_string("-nostats"));
    args.push(to_owned_string("-progress"));
    args.push(to_owned_string("pipe:1"));
    args.push(to_owned_string("-i"));
    args.push(to_owned_string(file));
    let enc = video_encoder_args(mode);
    let ghost head = strings_view(args@);
    assert(head =~= seq!["-y"@, "-nostats"@, "-progress"@, "pipe:1"@, "-i"@, file@]);
    let mut k: usize = 0;
    while k < enc.len()
        invariant
            k <= enc.len(),
            strings_view(args@) == head + strs_view(enc@).take(k as int),
            strs_view(enc@) == video_encoder_arg_texts(mode),
        decreases enc.len() - k,
    {
        let ghost before = strings_view(args@);
        args.push(to_owned_string(enc[k]));
        assert(strings_view(args@) =~= before.push(enc@[k as int]@));
        assert(strs_view(enc@).take(k as int + 1) =~= strs_view(enc@).take(k as int).push(enc@[k as int]@));
        k = k + 1;
    }
    assert(strs_view(enc@).take(enc.len() as int) == strs_view(enc@));
    let ghost mid = strings_view(args@);
    args.push(to_owned_string("-c:a"));
    args.push(to_owned_string("aac"));
    args.push(to_owned_string("-b:a"));
    args.push(to_owned_string("128k"));
    args.push(to_owned_string("-movflags"));
    args.push(to_owned_string("+faststart"));
    args.push(output.clone());
    assert(strings_view(args@) =~= mid + seq!["-c:a"@, "aac"@, "-b:a"@, "128k"@, "-movflags"@, "+faststart"@, output@]);
    ConversionStep {
        input: to_owned_string(file),
        output,
        stage: conversion_stage(index, total),
        detail,
        unknown_duration_log: unknown,
        ffmpeg_args: args,
    }
}

/// What a line of `ffmpeg -progress` output means for the progress display.
pub enum FfmpegProgressLine {
    /// Empty after trimming: ignored.
    Blank,
    /// `progress=end`: the file is done.
    End,
    /// An output time, as `out_time_field` reads it from the trimmed line.
    Time(OutTimeField),
    /// Anything else: ignored.
    Other,
}

/// `(blank, end, time field)` for an `ffmpeg` progress line.
pub open spec fn ffmpeg_line_kind(line: Seq<char>) -> (bool, bool, Option<(bool, Seq<char>)>) {
    let t = trim(line);
    (t.len() == 0, t == "progress=end"@, crate::media::out_time_field_text(t))
}

/// Reads one line of `ffmpeg -progress` output (`spawn_ffmpeg_progress_reader`).
pub fn classify_ffmpeg_line(line: &str) -> (r: FfmpegProgressLine)
    ensures
        ({
            let (blank, end, time) = ffmpeg_line_kind(line@);
            match r {
                FfmpegProgressLine::Blank => blank,
                FfmpegProgressLine::End => !blank && end,
                FfmpegProgressLine::Time(OutTimeField::Clock(v)) => !blank && !end && time == Some((true, v@)),
                FfmpegProgressLine::Time(OutTimeField::Microseconds(v)) => !blank && !end && time == Some((false, v@)),
                FfmpegProgressLine::Other => !blank && !end && time is None,
            }
        }),
{
    let t = trimmed(line);
    if t.as_str().unicode_len() == 0 {
        return FfmpegProgressLine::Blank;
    }
    if str_eq(t.as_str(), "progress=end") {
        return FfmpegProgressLine::End;
    }
    match out_time_field(t.as_str()) {
        Some(f) => FfmpegProgressLine::Time(f),
        None => FfmpegProgressLine::Other,
    }
}

/// The detail line while a file converts: `<detail> (<elapsed>/<total>)`.
pub fn conversion_time_detail(detail: &str, elapsed: &str, total: &str) -> (r: String)
    ensures
        r@ == detail@ + " ("@ + elapsed@ + "/"@ + total@ + ")"@,
{
    let mut r = to_owned_string(detail);
    append_str(&mut r, " (");
    append_str(&mut r, elapsed);
    append_str(&mut r, "/");
    append_str(&mut r, total);
    append_str(&mut r, ")");
    r
}

/// Whether a line of process output is empty after trimming; such lines are not logged.
pub fn is_blank_line(line: &str) -> (b: bool)
    ensures
        b == (trim(line@).len() == 0),
{
    let t = trimmed(line);
    t.as_str().unicode_len() == 0
}

/// With an exact source format, the fallback resolution plays no part in the download:
/// two jobs that differ only in it run the same `yt-dlp` command.
pub proof fn lemma_exact_format_ignores_resolution(c: JobConfigView, resolution: Seq<char>)
    requires
        c.selected_source_format is Some,
    ensures
        ytdlp_arg_texts(c) == ytdlp_arg_texts(JobConfigView { resolution, ..c }),
        ytdlp_arg_texts(c)[2] == "--no-playlist"@,
{
    assert(ytdlp_arg_texts(c) =~= ytdlp_arg_texts(JobConfigView { resolution, ..c }));
}

} // verus!
