//! The application state and how keys, worker events and loaded formats change it.
//!
//! The state decides; the front end acts. Work that leaves the process (starting jobs,
//! loading formats, cancelling, reading folders, opening a folder) is queued as an
//! [`Effect`] for the front end, which reports back through the methods named there.
use vstd::prelude::*;
use std::collections::VecDeque;
use crate::config::{
    cycle_index, cycled, default_output_dir_input, default_output_dir_text, expand_output_dir,
    expanded_output_dir, format_name, format_text, resolution_name, resolution_text,
    FORMAT_COUNT, MAX_LOG_LINES, RESOLUTION_COUNT,
};
use crate::job::{JobConfig, JobConfigView};
use crate::media::{
    container_error_text, is_playlist_only_url, looks_like_playlist_only_url,
    selected_format_container_error,
};
use crate::order::{is_stable_order, keys_view, stable_order};
use crate::paths::{path_parent, path_parent_of};
use crate::text::{
    append_str, ascii_lower, ascii_lower_char, chars_of, decimal, push_char, push_decimal,
    to_owned_string, trim, trimmed,
};
use crate::types::{
    opt_view, AvailableFormat, AvailableFormatView, EncoderMode, Focus, PlaylistProgress,
    Progress, ProgressView, Screen, WorkerEvent, WorkerEventView,
};

verus! {

/// Removes the last character of a `String` (`String::pop`).
#[verifier::external_body]
pub(crate) fn pop_char(s: &mut String) -> (r: Option<char>)
    ensures
        old(s)@.len() == 0 ==> r is None && final(s)@ == old(s)@,
        old(s)@.len() > 0 ==> r == Some(old(s)@.last()) && final(s)@ == old(s)@.drop_last(),
{
    s.pop()
}

/// A key, as the application reads it.
#[derive(Clone, Copy, Debug, PartialEq, Eq, Structural)]
pub enum KeyCode {
    Char(char),
    Esc,
    Tab,
    BackTab,
    Up,
    Down,
    Left,
    Right,
    Enter,
    Backspace,
    PageUp,
    PageDown,
    /// Any other key; it does nothing.
    Other,
}

/// A key press: the key and whether Control was held.
#[derive(Clone, Copy, Debug, PartialEq, Eq, Structural)]
pub struct KeyInput {
    pub code: KeyCode,
    pub ctrl: bool,
}

/// A sub-folder shown by the output folder picker.
#[derive(Clone, Debug)]
pub struct DirectoryEntry {
    pub name: String,
    pub path: String,
}

/// The characters held by a [`DirectoryEntry`].
pub struct DirectoryEntryView {
    pub name: Seq<char>,
    pub path: Seq<char>,
}

impl View for DirectoryEntry {
    type V = DirectoryEntryView;

    open spec fn view(&self) -> DirectoryEntryView {
        DirectoryEntryView { name: self.name@, path: self.path@ }
    }
}

impl DirectoryEntry {
    pub fn duplicate(&self) -> (r: Self)
        ensures
            r@ == self@,
    {
        DirectoryEntry { name: self.name.clone(), path: self.path.clone() }
    }
}

/// The output folder picker: a folder, its sub-folders, the selected one, and what went
/// wrong while reading the folder.
#[derive(Clone, Debug)]
pub struct DirectoryPicker {
    pub current_dir: String,
    pub entries: Vec<DirectoryEntry>,
    pub selected_idx: usize,
    pub error: Option<String>,
}

/// The characters held by a [`DirectoryPicker`].
pub struct DirectoryPickerView {
    pub current_dir: Seq<char>,
    pub entries: Seq<DirectoryEntryView>,
    pub selected_idx: usize,
    pub error: Option<Seq<char>>,
}

/// The views of a vector of folder entries.
pub open spec fn entries_view(v: Seq<DirectoryEntry>) -> Seq<DirectoryEntryView> {
    v.map_values(|e: DirectoryEntry| e@)
}

impl View for DirectoryPicker {
    type V = DirectoryPickerView;

    open spec fn view(&self) -> DirectoryPickerView {
        DirectoryPickerView {
            current_dir: self.current_dir@,
            entries: entries_view(self.entries@),
            selected_idx: self.selected_idx,
            error: opt_view(self.error),
        }
    }
}

/// What reading a folder for the picker gave.
pub struct DirectoryListing {
    /// The sub-folders found, in the order the folder listed them.
    pub entries: Vec<DirectoryEntry>,
    /// The text of the last error met while reading an entry.
    pub entry_error: Option<String>,
    /// The text of the error that kept the folder from being read.
    pub read_error: Option<String>,
}

/// A folder name's sort key: the name in ASCII lower case.
pub open spec fn lower_name(name: Seq<char>) -> Seq<char> {
    name.map_values(|c: char| ascii_lower(c))
}

/// The sort keys of folder entries.
pub open spec fn entry_keys(entries: Seq<DirectoryEntryView>) -> Seq<Seq<char>> {
    entries.map_values(|e: DirectoryEntryView| lower_name(e.name))
}

/// The error line the picker shows for a listing.
pub open spec fn listing_error_text(entry_error: Option<Seq<char>>, read_error: Option<Seq<char>>) -> Option<Seq<char>> {
    match read_error {
        Some(e) => Some("Could not read folder: "@ + e),
        None => match entry_error {
            Some(e) => Some("Could not read folder entry: "@ + e),
            None => None,
        },
    }
}

impl DirectoryPickerView {
    /// The picker is well formed: the selection is on an entry, or at `0` with none.
    pub open spec fn wf(self) -> bool {
        self.selected_idx == 0 || self.selected_idx < self.entries.len()
    }
}

fn lower_chars(v: &Vec<char>) -> (r: Vec<char>)
    ensures
        r@ == lower_name(v@),
{
    let mut r: Vec<char> = Vec::new();
    let mut i: usize = 0;
    while i < v.len()
        invariant
            i <= v.len(),
            r@ == lower_name(v@.take(i as int)),
        decreases v.len() - i,
    {
        r.push(ascii_lower_char(v[i]));
        i = i + 1;
        assert(r@ =~= lower_name(v@.take(i as int)));
    }
    assert(v@.take(v.len() as int) == v@);
    r
}

impl DirectoryPicker {
    /// The picker for a folder, once it has been read: the sub-folders
    /// sorted by name in ASCII lower case, names that compare equal kept in listing order,
    /// the first one selected.
    pub fn from_listing(current_dir: String, listing: DirectoryListing) -> (r: Self)
        ensures
            r@.current_dir == current_dir@,
            r@.selected_idx == 0,
            r@.error == listing_error_text(opt_view(listing.entry_error), opt_view(listing.read_error)),
            exists|order: Seq<usize>|
                {
                    &&& #[trigger] is_stable_order(entry_keys(entries_view(listing.entries@)), order)
                    &&& r@.entries.len() == order.len()
                    &&& forall|i: int|
                        0 <= i < order.len() ==> #[trigger] r@.entries[i] == entries_view(
                            listing.entries@,
                        )[order[i] as int]
                },
            r@.wf(),
    {
        let entries = &listing.entries;
        let ghost names = entry_keys(entries_view(listing.entries@));
        let mut keys: Vec<Vec<char>> = Vec::new();
        let mut i: usize = 0;
        while i < entries.len()
            invariant
                i <= entries.len(),
                names == entry_keys(entries_view(entries@)),
                keys_view(keys@) == names.take(i as int),
            decreases entries.len() - i,
        {
            let name = chars_of(entries[i].name.as_str());
            assert(entries_view(entries@)[i as int] == entries@[i as int]@);
            assert(names[i as int] == lower_name(entries@[i as int].name@));
            let lk = lower_chars(&name);
            let ghost before = keys_view(keys@);
            keys.push(lk);
            assert(keys_view(keys@) =~= before.push(lk@));
            assert(names.take(i as int + 1) =~= names.take(i as int).push(names[i as int]));
            assert(keys_view(keys@) =~= names.take(i as int + 1));
            i = i + 1;
        }
        assert(names.take(entries.len() as int) == names);
        let order = stable_order(&keys);
        let mut sorted: Vec<DirectoryEntry> = Vec::new();
        let mut k: usize = 0;
        while k < order.len()
            invariant
                k <= order.len(),
                is_stable_order(keys_view(keys@), order@),
                keys_view(keys@).len() == entries.len(),
                sorted@.len() == k,
                forall|j: int| 0 <= j < k ==> #[trigger] sorted@[j]@ == entries@[order@[j] as int]@,
            decreases order.len() - k,
        {
            let idx = order[k];
            sorted.push(entries[idx].duplicate());
            k = k + 1;
        }
        let error = match &listing.read_error {
            Some(e) => {
                let mut m = to_owned_string("Could not read folder: ");
                append_str(&mut m, e.as_str());
                Some(m)
            },
            None => match &listing.entry_error {
                Some(e) => {
                    let mut m = to_owned_string("Could not read folder entry: ");
                    append_str(&mut m, e.as_str());
                    Some(m)
                },
                None => None,
            },
        };
        let r = DirectoryPicker { current_dir, entries: sorted, selected_idx: 0, error };
        assert forall|i: int| 0 <= i < order@.len() implies #[trigger] r@.entries[i] == entries_view(
            listing.entries@,
        )[order@[i] as int] by {
            assert(r@.entries[i] == sorted@[i]@);
        }
        r
    }

    /// The path of the selected sub-folder, if there is one.
    pub fn selected_entry_path(&self) -> (r: Option<String>)
        ensures
            opt_view(r) == if self.selected_idx < self.entries@.len() {
                Some(self.entries@[self.selected_idx as int].path@)
            } else {
                None
            },
    {
        if self.selected_idx < self.entries.len() {
            Some(self.entries[self.selected_idx].path.clone())
        } else {
            None
        }
    }
}

/// Work the front end carries out for the state, in the order queued.
pub enum Effect {
    /// Start a download job; its events come back through `App::drain_worker_events`.
    StartDownload(JobConfig),
    /// Load the formats of a URL; the outcome comes back through `App::apply_format_result`.
    LoadFormats(String),
    /// Stop the format loading under way and drop its outcome.
    CancelFormatLoading,
    /// Cancel the running job, then report through `App::finish_cancel_request` whether
    /// this was the first request.
    CancelWorker,
    /// Work out where the output folder picker starts, read that folder, and show it
    /// through `App::show_output_picker`.
    OpenOutputPicker,
    /// Read a folder and show it through `App::replace_directory_picker`.
    ReadDirectory(String),
    /// Open a folder in the system file browser; on failure report through
    /// `App::report_open_folder_error`.
    OpenOutputDir(String),
}

/// The characters held by an [`Effect`].
pub enum EffectView {
    StartDownload(JobConfigView),
    LoadFormats(Seq<char>),
    CancelFormatLoading,
    CancelWorker,
    OpenOutputPicker,
    ReadDirectory(Seq<char>),
    OpenOutputDir(Seq<char>),
}

impl View for Effect {
    type V = EffectView;

    open spec fn view(&self) -> EffectView {
        match self {
            Effect::StartDownload(c) => EffectView::StartDownload(c@),
            Effect::LoadFormats(u) => EffectView::LoadFormats(u@),
            Effect::CancelFormatLoading => EffectView::CancelFormatLoading,
            Effect::CancelWorker => EffectView::CancelWorker,
            Effect::OpenOutputPicker => EffectView::OpenOutputPicker,
            Effect::ReadDirectory(p) => EffectView::ReadDirectory(p@),
            Effect::OpenOutputDir(p) => EffectView::OpenOutputDir(p@),
        }
    }
}

/// How a format loading ended.
pub enum FormatLoadResult {
    /// The selectable formats, sorted.
    Loaded(Vec<AvailableFormat>),
    /// Why loading failed.
    Failed(String),
    /// The loading stopped without an outcome.
    Stopped,
}

/// The application state: the form, the screen, the job's progress and logs, and the
/// work queued for the front end.
pub struct App<R> {
    pub screen: Screen,
    pub focus: Focus,
    pub url: String,
    pub resolution_idx: usize,
    pub format_idx: usize,
    /// `0` for the automatic choice, else one more than the index of the chosen format.
    pub source_format_idx: usize,
    pub available_formats: Vec<AvailableFormat>,
    pub formats_loading: bool,
    pub convert: bool,
    pub delete_original: bool,
    pub encoder_mode: EncoderMode,
    pub output_dir_input: String,
    pub output_dir: String,
    pub directory_picker: Option<DirectoryPicker>,
    pub playlist_progress: Option<PlaylistProgress>,
    pub logs: VecDeque<String>,
    pub progress: Option<Progress<R>>,
    pub status: String,
    pub result_success: Option<bool>,
    /// A download job was started and has not finished.
    pub worker_running: bool,
    /// Work queued for the front end.
    pub effects: Vec<Effect>,
}

/// The characters held by an [`App`].
#[verifier::ext_equal]
pub struct AppView<R> {
    pub screen: Screen,
    pub focus: Focus,
    pub url: Seq<char>,
    pub resolution_idx: usize,
    pub format_idx: usize,
    pub source_format_idx: usize,
    pub available_formats: Seq<AvailableFormatView>,
    pub formats_loading: bool,
    pub convert: bool,
    pub delete_original: bool,
    pub encoder_mode: EncoderMode,
    pub output_dir_input: Seq<char>,
    pub output_dir: Seq<char>,
    pub directory_picker: Option<DirectoryPickerView>,
    pub playlist_progress: Option<PlaylistProgress>,
    pub logs: Seq<Seq<char>>,
    pub progress: Option<ProgressView<R>>,
    pub status: Seq<char>,
    pub result_success: Option<bool>,
    pub worker_running: bool,
    pub effects: Seq<EffectView>,
}

/// The views of a sequence of strings.
pub open spec fn lines_view(v: Seq<String>) -> Seq<Seq<char>> {
    v.map_values(|s: String| s@)
}

/// The views of a vector of format rows.
pub open spec fn formats_view(v: Seq<AvailableFormat>) -> Seq<AvailableFormatView> {
    v.map_values(|f: AvailableFormat| f@)
}

/// The views of a vector of effects.
pub open spec fn effects_view(v: Seq<Effect>) -> Seq<EffectView> {
    v.map_values(|e: Effect| e@)
}

/// The view of an optional picker.
pub open spec fn picker_view(p: Option<DirectoryPicker>) -> Option<DirectoryPickerView> {
    match p {
        Some(q) => Some(q@),
        None => None,
    }
}

/// The view of an optional progress report.
pub open spec fn progress_view<R>(p: Option<Progress<R>>) -> Option<ProgressView<R>> {
    match p {
        Some(q) => Some(q@),
        None => None,
    }
}

/// The view of an optional string.
pub open spec fn home_view(h: Option<&str>) -> Option<Seq<char>> {
    match h {
        Some(s) => Some(s@),
        None => None,
    }
}

impl<R> View for App<R> {
    type V = AppView<R>;

    open spec fn view(&self) -> AppView<R> {
        AppView {
            screen: self.screen,
            focus: self.focus,
            url: self.url@,
            resolution_idx: self.resolution_idx,
            format_idx: self.format_idx,
            source_format_idx: self.source_format_idx,
            available_formats: formats_view(self.available_formats@),
            formats_loading: self.formats_loading,
            convert: self.convert,
            delete_original: self.delete_original,
            encoder_mode: self.encoder_mode,
            output_dir_input: self.output_dir_input@,
            output_dir: self.output_dir@,
            directory_picker: picker_view(self.directory_picker),
            playlist_progress: self.playlist_progress,
            logs: lines_view(self.logs@),
            progress: progress_view(self.progress),
            status: self.status@,
            result_success: self.result_success,
            worker_running: self.worker_running,
            effects: effects_view(self.effects@),
        }
    }
}

impl<R> AppView<R> {
    /// The state is well formed: every index is in range, the log is bounded, and the
    /// picker's selection is on an entry.
    pub open spec fn wf(self) -> bool {
        &&& self.resolution_idx < RESOLUTION_COUNT
        &&& self.format_idx < FORMAT_COUNT
        &&& self.source_format_idx <= self.available_formats.len()
        &&& self.available_formats.len() < usize::MAX
        &&& self.logs.len() <= MAX_LOG_LINES
        &&& match self.directory_picker {
            Some(p) => p.wf(),
            None => true,
        }
    }

    /// `line` appended to the log, dropping the oldest line when the log is full.
    pub open spec fn with_log(self, line: Seq<char>) -> AppView<R> {
        let kept = if self.logs.len() >= MAX_LOG_LINES {
            self.logs.drop_first()
        } else {
            self.logs
        };
        AppView { logs: kept.push(line), ..self }
    }

    /// `e` queued for the front end.
    pub open spec fn with_effect(self, e: EffectView) -> AppView<R> {
        AppView { effects: self.effects.push(e), ..self }
    }

    /// The format chosen as exact source, if any.
    pub open spec fn selected_source(self) -> Option<AvailableFormatView> {
        if self.source_format_idx == 0 || self.source_format_idx > self.available_formats.len() {
            None
        } else {
            Some(self.available_formats[self.source_format_idx - 1])
        }
    }

    /// The URL changed: drop the loaded formats, cancelling a loading under way.
    pub open spec fn after_clear_loaded_formats(self) -> AppView<R> {
        if self.available_formats.len() == 0 && !self.formats_loading {
            self
        } else {
            let v = if self.formats_loading {
                AppView { status: "URL changed; format loading cancelled."@, ..self }.with_effect(
                    EffectView::CancelFormatLoading,
                )
            } else {
                AppView { status: "URL changed; load formats again if needed."@, ..self }
            };
            AppView {
                available_formats: Seq::empty(),
                source_format_idx: 0,
                formats_loading: false,
                ..v
            }
        }
    }

    /// A loading under way is cancelled.
    pub open spec fn after_cancel_format_loading(self) -> AppView<R> {
        if !self.formats_loading {
            self
        } else {
            AppView { formats_loading: false, ..self.with_effect(EffectView::CancelFormatLoading) }
        }
    }

    /// Loading the formats of the URL is asked for.
    pub open spec fn after_load_formats(self) -> AppView<R> {
        let url = trim(self.url);
        if url.len() == 0 {
            AppView { status: "URL is required before loading formats."@, ..self }
        } else if is_playlist_only_url(url) {
            AppView {
                status: "Exact source format loading is single-video only. Use Auto best for playlists."@,
                ..self
            }
        } else if self.formats_loading {
            AppView { status: "Formats are already loading."@, ..self }
        } else {
            AppView {
                formats_loading: true,
                status: "Loading available formats with yt-dlp..."@,
                ..self.with_effect(EffectView::LoadFormats(url))
            }
        }
    }

    /// Left or Right on the focused field.
    pub open spec fn after_adjust_selection(self, direction: int) -> AppView<R> {
        match self.focus {
            Focus::SourceFormat => AppView {
                source_format_idx: cycled(
                    self.source_format_idx as int,
                    self.available_formats.len() + 1 as int,
                    direction,
                ) as usize,
                ..self
            },
            Focus::Resolution => AppView {
                resolution_idx: cycled(self.resolution_idx as int, RESOLUTION_COUNT as int, direction)
                    as usize,
                ..self
            },
            Focus::Format => AppView {
                format_idx: cycled(self.format_idx as int, FORMAT_COUNT as int, direction) as usize,
                ..self
            },
            Focus::Convert => AppView { convert: !self.convert, ..self },
            Focus::Encoder => AppView { encoder_mode: self.encoder_mode.other(), ..self },
            _ => self,
        }
    }

    /// The job that starting a download would run, with its output folder.
    pub open spec fn job_for(self, url: Seq<char>, output_dir: Seq<char>) -> JobConfigView {
        JobConfigView {
            url,
            resolution: resolution_text(self.resolution_idx as int),
            format: format_text(self.format_idx as int),
            output_dir,
            convert: self.convert,
            encoder_mode: self.encoder_mode,
            selected_source_format: self.selected_source(),
        }
    }

    /// Enter on Start: check the form, then start the job or say what is wrong.
    pub open spec fn after_start_download(self, home: Option<Seq<char>>) -> AppView<R> {
        let url = trim(self.url);
        if url.len() == 0 {
            AppView { status: "URL is required."@, ..self }
        } else if self.selected_source() is Some && is_playlist_only_url(url) {
            AppView {
                status: "Source Format is single-video only. Use Auto best for playlist URLs."@,
                ..self
            }
        } else if self.selected_source() is Some && container_error_text(
            self.selected_source().unwrap().id,
            self.selected_source().unwrap().ext,
            format_text(self.format_idx as int),
        ) is Some {
            AppView {
                status: container_error_text(
                    self.selected_source().unwrap().id,
                    self.selected_source().unwrap().ext,
                    format_text(self.format_idx as int),
                ).unwrap(),
                focus: Focus::SourceFormat,
                ..self
            }
        } else {
            match expanded_output_dir(self.output_dir_input, home) {
                Err(e) => AppView { status: e, focus: Focus::Output, ..self },
                Ok(dir) => {
                    let v = self.after_cancel_format_loading();
                    AppView {
                        logs: Seq::empty(),
                        progress: Some(
                            ProgressView {
                                stage: "Preparing"@,
                                ratio: None,
                                detail: "Starting yt-dlp..."@,
                            },
                        ),
                        status: "Download started."@,
                        output_dir: dir,
                        playlist_progress: None,
                        result_success: None,
                        screen: Screen::Running,
                        worker_running: true,
                        ..v.with_effect(EffectView::StartDownload(self.job_for(url, dir)))
                    }
                },
            }
        }
    }

    /// Cancelling the job is asked for.
    pub open spec fn after_request_cancel(self) -> AppView<R> {
        if !self.worker_running {
            self.with_log("No running process to cancel."@)
        } else {
            self.with_effect(EffectView::CancelWorker)
        }
    }

    /// The picker closes with a status line; the focus goes to the output field.
    pub open spec fn after_close_output_picker(self, status: Seq<char>) -> AppView<R> {
        AppView {
            directory_picker: None,
            screen: Screen::Form,
            focus: Focus::Output,
            status,
            ..self
        }
    }

    /// A key on the form. The flag says whether the application quits.
    pub open spec fn after_form_key(self, key: KeyCode, home: Option<Seq<char>>) -> (AppView<R>, bool) {
        let editing_text = self.focus == Focus::Url || self.focus == Focus::Output;
        match key {
            KeyCode::Esc => (self, true),
            KeyCode::Char(c) if c == 'q' && !editing_text => (self, true),
            KeyCode::Tab | KeyCode::Down => (AppView { focus: self.focus.following(), ..self }, false),
            KeyCode::BackTab | KeyCode::Up => (AppView { focus: self.focus.preceding(), ..self }, false),
            KeyCode::Enter => (if self.focus == Focus::Start {
                self.after_start_download(home)
            } else if self.focus == Focus::SourceFormat && self.available_formats.len() == 0 {
                self.after_load_formats()
            } else if self.focus == Focus::Output {
                self.with_effect(EffectView::OpenOutputPicker)
            } else {
                AppView { focus: self.focus.following(), ..self }
            }, false),
            KeyCode::Char(c) if c == 'f' && !editing_text => (self.after_load_formats(), false),
            KeyCode::Left => (self.after_adjust_selection(-1), false),
            KeyCode::Right => (self.after_adjust_selection(1), false),
            KeyCode::Char(c) if c == ' ' && self.focus == Focus::Convert => (
                AppView { convert: !self.convert, ..self },
                false,
            ),
            KeyCode::Backspace if self.focus == Focus::Url => (
                AppView {
                    url: if self.url.len() > 0 {
                        self.url.drop_last()
                    } else {
                        self.url
                    },
                    ..self
                }.after_clear_loaded_formats(),
                false,
            ),
            KeyCode::Backspace if self.focus == Focus::Output => (
                AppView {
                    output_dir_input: if self.output_dir_input.len() > 0 {
                        self.output_dir_input.drop_last()
                    } else {
                        self.output_dir_input
                    },
                    status: "Output directory changed."@,
                    ..self
                },
                false,
            ),
            KeyCode::Char(c) if self.focus == Focus::Url => (
                AppView { url: self.url.push(c), ..self }.after_clear_loaded_formats(),
                false,
            ),
            KeyCode::Char(c) if self.focus == Focus::Output => (
                AppView {
                    output_dir_input: self.output_dir_input.push(c),
                    status: "Output directory changed."@,
                    ..self
                },
                false,
            ),
            _ => (self, false),
        }
    }

    /// A key on the output folder picker.
    pub open spec fn after_picker_key(self, key: KeyCode, home: Option<Seq<char>>) -> AppView<R> {
        match key {
            KeyCode::Esc => self.after_close_output_picker("Output picker cancelled."@),
            KeyCode::Up | KeyCode::PageUp => self.after_move_picker_selection(-1),
            KeyCode::Down | KeyCode::PageDown => self.after_move_picker_selection(1),
            KeyCode::Backspace | KeyCode::Left => match self.directory_picker {
                Some(p) => match path_parent_of(p.current_dir) {
                    Some(parent) => self.with_effect(EffectView::ReadDirectory(parent)),
                    None => self,
                },
                None => self,
            },
            KeyCode::Enter | KeyCode::Right => match self.directory_picker {
                Some(p) => if p.selected_idx < p.entries.len() {
                    self.with_effect(EffectView::ReadDirectory(p.entries[p.selected_idx as int].path))
                } else {
                    self
                },
                None => self,
            },
            KeyCode::Char(c) if c == ' ' || c == 's' => match self.directory_picker {
                Some(p) => AppView {
                    output_dir_input: p.current_dir,
                    output_dir: p.current_dir,
                    ..self
                }.after_close_output_picker("Output directory selected."@),
                None => self.after_close_output_picker("Output picker cancelled."@),
            },
            KeyCode::Char(c) if c == '~' => match home {
                Some(h) => self.with_effect(EffectView::ReadDirectory(h)),
                None => self,
            },
            _ => self,
        }
    }

    /// The picker's selection moves one entry back or forward, wrapping around.
    pub open spec fn after_move_picker_selection(self, direction: int) -> AppView<R> {
        match self.directory_picker {
            Some(p) => AppView {
                directory_picker: Some(
                    DirectoryPickerView {
                        selected_idx: cycled(p.selected_idx as int, p.entries.len() as int, direction)
                            as usize,
                        ..p
                    },
                ),
                ..self
            },
            None => self,
        }
    }

    /// A key while a job runs: `q` and Esc ask to cancel it.
    pub open spec fn after_running_key(self, key: KeyCode) -> AppView<R> {
        match key {
            KeyCode::Char(c) if c == 'q' => self.after_request_cancel(),
            KeyCode::Esc => self.after_request_cancel(),
            _ => self,
        }
    }

    /// A key on the result screen. The flag says whether the application quits.
    pub open spec fn after_done_key(self, key: KeyCode) -> (AppView<R>, bool) {
        match key {
            KeyCode::Char(c) if c == 'q' => (self, true),
            KeyCode::Esc => (self, true),
            KeyCode::Char(c) if c == 'n' => (self.after_new_download(), false),
            KeyCode::Enter => (self.after_new_download(), false),
            KeyCode::Char(c) if c == 'o' => (self.with_effect(EffectView::OpenOutputDir(self.output_dir)), false),
            _ => (self, false),
        }
    }

    /// Back to the form for another download.
    pub open spec fn after_new_download(self) -> AppView<R> {
        AppView {
            screen: Screen::Form,
            focus: Focus::Url,
            status: "Ready for another download."@,
            progress: None,
            result_success: None,
            logs: Seq::empty(),
            ..self
        }
    }

    /// A report from the running job.
    pub open spec fn after_event(self, e: WorkerEventView<R>) -> AppView<R> {
        match e {
            WorkerEventView::Log(line) => self.with_log(line),
            WorkerEventView::Progress(p) => AppView { progress: Some(p), ..self },
            WorkerEventView::Playlist(p) => AppView { playlist_progress: Some(p), ..self },
            WorkerEventView::Done { success, message } => AppView {
                result_success: Some(success),
                status: message,
                screen: Screen::Done,
                worker_running: false,
                ..self.with_log(message)
            },
        }
    }

    /// Reports from the running job, in the order they came.
    pub open spec fn after_events(self, events: Seq<WorkerEventView<R>>) -> AppView<R>
        decreases events.len(),
    {
        if events.len() == 0 {
            self
        } else {
            self.after_events(events.drop_last()).after_event(events.last())
        }
    }

    /// The job stopped without saying it was done.
    pub open spec fn after_worker_lost(self) -> AppView<R> {
        if self.screen == Screen::Running {
            AppView {
                result_success: Some(false),
                status: "Worker stopped unexpectedly."@,
                screen: Screen::Done,
                worker_running: false,
                ..self.with_log("Worker stopped unexpectedly."@)
            }
        } else {
            self
        }
    }

    /// The outcome of a format loading.
    pub open spec fn after_format_result(self, loaded: Option<Seq<AvailableFormatView>>, error: Option<Seq<char>>) -> AppView<R> {
        match loaded {
            Some(formats) => AppView {
                available_formats: formats,
                source_format_idx: 0,
                formats_loading: false,
                status: "Loaded "@ + decimal(formats.len()) + " available formats. Use Left/Right on Source Format."@,
                ..self
            },
            None => AppView {
                formats_loading: false,
                status: match error {
                    Some(e) => e,
                    None => "Format loading stopped unexpectedly."@,
                },
                ..self
            },
        }
    }

    /// The job was asked to cancel; `newly` says whether this was the first request.
    pub open spec fn after_cancel_result(self, newly: bool) -> AppView<R> {
        let v = if newly {
            AppView {
                status: "Cancellation requested."@,
                ..self.with_log("Cancellation requested. Stopping the active process..."@)
            }
        } else {
            AppView { status: "Cancellation already requested."@, ..self }
        };
        AppView {
            progress: Some(
                ProgressView {
                    stage: "Cancelling"@,
                    ratio: match self.progress {
                        Some(p) => p.ratio,
                        None => None,
                    },
                    detail: "Waiting for the active process to stop..."@,
                },
            ),
            ..v
        }
    }

    /// A key press. The flag says whether the application quits.
    pub open spec fn after_key(self, key: KeyInput, home: Option<Seq<char>>) -> (AppView<R>, bool) {
        if key.ctrl && key.code == KeyCode::Char('c') {
            if self.screen == Screen::Running {
                (self.after_request_cancel(), false)
            } else {
                (self, true)
            }
        } else {
            match self.screen {
                Screen::Form => self.after_form_key(key.code, home),
                Screen::OutputPicker => (self.after_picker_key(key.code, home), false),
                Screen::Running => (self.after_running_key(key.code), false),
                Screen::Done => self.after_done_key(key.code),
            }
        }
    }
}

impl<R: Copy> App<R> {
    /// Appends a log line, dropping the oldest line when the log is full.
    pub fn push_log(&mut self, line: String)
        requires
            old(self)@.logs.len() <= MAX_LOG_LINES,
        ensures
            final(self)@ == old(self)@.with_log(line@),
            final(self)@.logs.len() <= MAX_LOG_LINES,
            final(self)@.logs.last() == line@,
    {
        let ghost before = self.logs@;
        if self.logs.len() >= MAX_LOG_LINES {
            let _ = self.logs.pop_front();
            assert(lines_view(self.logs@) =~= lines_view(before).drop_first());
        }
        let ghost mid = self.logs@;
        self.logs.push_back(line);
        assert(lines_view(self.logs@) =~= lines_view(mid).push(line@));
    }

    fn push_effect(&mut self, e: Effect)
        ensures
            final(self)@ == old(self)@.with_effect(e@),
    {
        let ghost before = self.effects@;
        self.effects.push(e);
        assert(effects_view(self.effects@) =~= effects_view(before).push(e@));
    }

    /// Hands the queued work to the front end, emptying the queue.
    pub fn take_effects(&mut self) -> (r: Vec<Effect>)
        ensures
            effects_view(r@) == old(self)@.effects,
            final(self)@ == (AppView { effects: Seq::empty(), ..old(self)@ }),
    {
        let mut r: Vec<Effect> = Vec::new();
        std::mem::swap(&mut r, &mut self.effects);
        assert(effects_view(self.effects@) =~= Seq::<EffectView>::empty());
        r
    }

    /// The format chosen as exact source, if any.
    pub fn selected_source_format(&self) -> (r: Option<&AvailableFormat>)
        ensures
            match r {
                Some(f) => self@.selected_source() == Some(f@),
                None => self@.selected_source() is None,
            },
    {
        if self.source_format_idx == 0 || self.source_format_idx > self.available_formats.len() {
            None
        } else {
            let f = &self.available_formats[self.source_format_idx - 1];
            Some(f)
        }
    }

    fn clear_loaded_formats(&mut self)
        ensures
            final(self)@ == old(self)@.after_clear_loaded_formats(),
    {
        if self.available_formats.len() == 0 && !self.formats_loading {
            return;
        }
        if self.formats_loading {
            self.status = to_owned_string("URL changed; format loading cancelled.");
            self.push_effect(Effect::CancelFormatLoading);
        } else {
            self.status = to_owned_string("URL changed; load formats again if needed.");
        }
        self.available_formats = Vec::new();
        assert(formats_view(self.available_formats@) =~= Seq::<AvailableFormatView>::empty());
        self.source_format_idx = 0;
        self.formats_loading = false;
    }

    fn cancel_format_loading(&mut self)
        ensures
            final(self)@ == old(self)@.after_cancel_format_loading(),
    {
        if !self.formats_loading {
            return;
        }
        self.push_effect(Effect::CancelFormatLoading);
        self.formats_loading = false;
    }

    fn load_formats(&mut self)
        ensures
            final(self)@ == old(self)@.after_load_formats(),
    {
        let url = trimmed(self.url.as_str());
        if url.as_str().unicode_len() == 0 {
            self.status = to_owned_string("URL is required before loading formats.");
            return;
        }
        if looks_like_playlist_only_url(url.as_str()) {
            self.status = to_owned_string(
                "Exact source format loading is single-video only. Use Auto best for playlists.",
            );
            return;
        }
        if self.formats_loading {
            self.status = to_owned_string("Formats are already loading.");
            return;
        }
        self.push_effect(Effect::LoadFormats(url));
        self.formats_loading = true;
        self.status = to_owned_string("Loading available formats with yt-dlp...");
    }

    fn adjust_selection(&mut self, direction: isize)
        requires
            old(self)@.wf(),
        ensures
            final(self)@ == old(self)@.after_adjust_selection(direction as int),
    {
        match self.focus {
            Focus::SourceFormat => {
                self.source_format_idx = cycle_index(
                    self.source_format_idx,
                    self.available_formats.len() + 1,
                    direction,
                );
            },
            Focus::Resolution => {
                self.resolution_idx = cycle_index(self.resolution_idx, RESOLUTION_COUNT, direction);
            },
            Focus::Format => {
                self.format_idx = cycle_index(self.format_idx, FORMAT_COUNT, direction);
            },
            Focus::Convert => {
                self.convert = !self.convert;
            },
            Focus::Encoder => {
                self.encoder_mode = self.encoder_mode.next();
            },
            _ => {},
        }
    }

    fn start_download(&mut self, home: Option<&str>)
        requires
            old(self)@.wf(),
        ensures
            final(self)@ == old(self)@.after_start_download(home_view(home)),
    {
        let url = trimmed(self.url.as_str());
        if url.as_str().unicode_len() == 0 {
            self.status = to_owned_string("URL is required.");
            return;
        }
        let playlist_only = looks_like_playlist_only_url(url.as_str());
        let container = format_name(self.format_idx);
        let (selected, container_error) = match self.selected_source_format() {
            Some(f) => (Some(f.duplicate()), selected_format_container_error(f, container)),
            None => (None, None),
        };
        if selected.is_some() && playlist_only {
            self.status = to_owned_string(
                "Source Format is single-video only. Use Auto best for playlist URLs.",
            );
            return;
        }
        match container_error {
            Some(error) => {
                self.status = error;
                self.focus = Focus::SourceFormat;
                return;
            },
            None => {},
        }
        let output_dir = match expand_output_dir(self.output_dir_input.as_str(), home) {
            Ok(path) => path,
            Err(error) => {
                self.status = error;
                self.focus = Focus::Output;
                return;
            },
        };
        let ghost before = self@;
        self.cancel_format_loading();
        let job = JobConfig {
            url,
            resolution: to_owned_string(resolution_name(self.resolution_idx)),
            format: to_owned_string(container),
            output_dir: output_dir.clone(),
            convert: self.convert,
            encoder_mode: self.encoder_mode,
            selected_source_format: selected,
        };
        assert(job@ == before.job_for(trim(before.url), output_dir@));
        self.push_effect(Effect::StartDownload(job));
        self.logs.clear();
        assert(lines_view(self.logs@) =~= Seq::<Seq<char>>::empty());
        self.progress = Some(
            Progress {
                stage: to_owned_string("Preparing"),
                ratio: None,
                detail: to_owned_string("Starting yt-dlp..."),
            },
        );
        self.status = to_owned_string("Download started.");
        self.output_dir = output_dir;
        self.playlist_progress = None;
        self.result_success = None;
        self.screen = Screen::Running;
        self.worker_running = true;
    }

    fn request_cancel(&mut self)
        requires
            old(self)@.logs.len() <= MAX_LOG_LINES,
        ensures
            final(self)@ == old(self)@.after_request_cancel(),
    {
        if !self.worker_running {
            self.push_log(to_owned_string("No running process to cancel."));
            return;
        }
        self.push_effect(Effect::CancelWorker);
    }

    fn close_output_picker(&mut self, status: &str)
        ensures
            final(self)@ == old(self)@.after_close_output_picker(status@),
    {
        self.directory_picker = None;
        self.screen = Screen::Form;
        self.focus = Focus::Output;
        self.status = to_owned_string(status);
    }

    fn handle_form_key(&mut self, code: KeyCode, home: Option<&str>) -> (quit: bool)
        requires
            old(self)@.wf(),
        ensures
            (final(self)@, quit) == old(self)@.after_form_key(code, home_view(home)),
    {
        let editing_text = self.focus == Focus::Url || self.focus == Focus::Output;
        if code == KeyCode::Esc {
            return true;
        }
        if code == KeyCode::Char('q') && !editing_text {
            return true;
        }
        if code == KeyCode::Tab || code == KeyCode::Down {
            self.focus = self.focus.next();
        } else if code == KeyCode::BackTab || code == KeyCode::Up {
            self.focus = self.focus.previous();
        } else if code == KeyCode::Enter {
            if self.focus == Focus::Start {
                self.start_download(home);
            } else if self.focus == Focus::SourceFormat && self.available_formats.len() == 0 {
                self.load_formats();
            } else if self.focus == Focus::Output {
                self.push_effect(Effect::OpenOutputPicker);
            } else {
                self.focus = self.focus.next();
            }
        } else if code == KeyCode::Char('f') && !editing_text {
            self.load_formats();
        } else if code == KeyCode::Left {
            self.adjust_selection(-1);
        } else if code == KeyCode::Right {
            self.adjust_selection(1);
        } else if code == KeyCode::Char(' ') && self.focus == Focus::Convert {
            self.convert = !self.convert;
        } else if code == KeyCode::Backspace {
            if self.focus == Focus::Url {
                let _ = pop_char(&mut self.url);
                self.clear_loaded_formats();
            } else if self.focus == Focus::Output {
                let _ = pop_char(&mut self.output_dir_input);
                self.status = to_owned_string("Output directory changed.");
            }
        } else {
            match code {
                KeyCode::Char(c) => {
                    if self.focus == Focus::Url {
                        push_char(&mut self.url, c);
                        self.clear_loaded_formats();
                    } else if self.focus == Focus::Output {
                        push_char(&mut self.output_dir_input, c);
                        self.status = to_owned_string("Output directory changed.");
                    }
                },
                _ => {},
            }
        }
        false
    }

    fn move_picker_selection(&mut self, direction: isize)
        requires
            old(self)@.wf(),
        ensures
            final(self)@ == old(self)@.after_move_picker_selection(direction as int),
    {
        match &mut self.directory_picker {
            Some(picker) => {
                picker.selected_idx = cycle_index(picker.selected_idx, picker.entries.len(), direction);
            },
            None => {},
        }
    }

    fn handle_output_picker_key(&mut self, code: KeyCode, home: Option<&str>)
        requires
            old(self)@.wf(),
        ensures
            final(self)@ == old(self)@.after_picker_key(code, home_view(home)),
    {
        if code == KeyCode::Esc {
            self.close_output_picker("Output picker cancelled.");
        } else if code == KeyCode::Up {
            self.move_picker_selection(-1);
        } else if code == KeyCode::Down {
            self.move_picker_selection(1);
        } else if code == KeyCode::PageUp {
            self.move_picker_selection(-10);
        } else if code == KeyCode::PageDown {
            self.move_picker_selection(10);
        } else if code == KeyCode::Backspace || code == KeyCode::Left {
            let parent = match &self.directory_picker {
                Some(picker) => path_parent(picker.current_dir.as_str()),
                None => None,
            };
            match parent {
                Some(p) => self.push_effect(Effect::ReadDirectory(p)),
                None => {},
            }
        } else if code == KeyCode::Enter || code == KeyCode::Right {
            let path = match &self.directory_picker {
                Some(picker) => picker.selected_entry_path(),
                None => None,
            };
            match path {
                Some(p) => self.push_effect(Effect::ReadDirectory(p)),
                None => {},
            }
        } else if code == KeyCode::Char(' ') || code == KeyCode::Char('s') {
            let dir = match &self.directory_picker {
                Some(picker) => Some(picker.current_dir.clone()),
                None => None,
            };
            match dir {
                Some(d) => {
                    self.output_dir_input = d.clone();
                    self.output_dir = d;
                    self.close_output_picker("Output directory selected.");
                },
                None => self.close_output_picker("Output picker cancelled."),
            }
        } else if code == KeyCode::Char('~') {
            match home {
                Some(h) => self.push_effect(Effect::ReadDirectory(to_owned_string(h))),
                None => {},
            }
        }
    }

    fn handle_running_key(&mut self, code: KeyCode)
        requires
            old(self)@.wf(),
        ensures
            final(self)@ == old(self)@.after_running_key(code),
    {
        if code == KeyCode::Char('q') || code == KeyCode::Esc {
            self.request_cancel();
        }
    }

    fn handle_done_key(&mut self, code: KeyCode) -> (quit: bool)
        ensures
            (final(self)@, quit) == old(self)@.after_done_key(code),
    {
        if code == KeyCode::Char('q') || code == KeyCode::Esc {
            return true;
        }
        if code == KeyCode::Char('n') || code == KeyCode::Enter {
            self.start_new_download();
            return false;
        }
        if code == KeyCode::Char('o') {
            let dir = self.output_dir.clone();
            self.push_effect(Effect::OpenOutputDir(dir));
        }
        false
    }

    fn start_new_download(&mut self)
        ensures
            final(self)@ == old(self)@.after_new_download(),
    {
        self.screen = Screen::Form;
        self.focus = Focus::Url;
        self.status = to_owned_string("Ready for another download.");
        self.progress = None;
        self.result_success = None;
        self.logs.clear();
        assert(lines_view(self.logs@) =~= Seq::<Seq<char>>::empty());
    }

    /// Handles a key press; `home` is the `HOME` variable. Returns whether to quit.
    pub fn handle_key(&mut self, key: KeyInput, home: Option<&str>) -> (quit: bool)
        requires
            old(self)@.wf(),
        ensures
            (final(self)@, quit) == old(self)@.after_key(key, home_view(home)),
            final(self)@.wf(),
    {
        proof {
            lemma_key_preserves_wf(self@, key, home_view(home));
        }
        if key.ctrl && key.code == KeyCode::Char('c') {
            if self.screen == Screen::Running {
                self.request_cancel();
                return false;
            }
            return true;
        }
        match self.screen {
            Screen::Form => self.handle_form_key(key.code, home),
            Screen::OutputPicker => {
                self.handle_output_picker_key(key.code, home);
                false
            },
            Screen::Running => {
                self.handle_running_key(key.code);
                false
            },
            Screen::Done => self.handle_done_key(key.code),
        }
    }
}

impl<R: Copy> App<R> {
    /// The state a new session starts with: the form, with the default
    /// output folder for `home` and the default encoder for the platform.
    pub fn default_for(home: Option<&str>, is_macos: bool) -> (r: Self)
        ensures
            r@.wf(),
            r@.screen == Screen::Form,
            r@.focus == Focus::Url,
            r@.url.len() == 0,
            r@.resolution_idx == 0,
            r@.format_idx == 0,
            r@.source_format_idx == 0,
            r@.available_formats.len() == 0,
            !r@.formats_loading,
            r@.convert,
            !r@.delete_original,
            r@.encoder_mode == EncoderMode::default_for_platform_spec(is_macos),
            r@.output_dir_input == default_output_dir_text(home_view(home)),
            r@.output_dir == default_output_dir_text(home_view(home)),
            r@.directory_picker is None,
            r@.playlist_progress is None,
            r@.logs.len() == 0,
            r@.progress is None,
            r@.status == "Paste a video or playlist URL."@,
            r@.result_success is None,
            !r@.worker_running,
            r@.effects.len() == 0,
    {
        let dir = default_output_dir_input(home);
        let r = App {
            screen: Screen::Form,
            focus: Focus::Url,
            url: String::new(),
            resolution_idx: 0,
            format_idx: 0,
            source_format_idx: 0,
            available_formats: Vec::new(),
            formats_loading: false,
            convert: true,
            delete_original: false,
            encoder_mode: EncoderMode::default_for_platform(is_macos),
            output_dir_input: dir.clone(),
            output_dir: dir,
            directory_picker: None,
            playlist_progress: None,
            logs: VecDeque::new(),
            progress: None,
            status: to_owned_string("Paste a video or playlist URL."),
            result_success: None,
            worker_running: false,
            effects: Vec::new(),
        };
        assert(r@.logs.len() == 0);
        r
    }

    /// Applies the reports the running job sent since the last call, in order; then, when
    /// the job's channel closed while still on the running screen, fails the download.
    pub fn drain_worker_events(&mut self, events: VecDeque<WorkerEvent<R>>, disconnected: bool)
        requires
            old(self)@.wf(),
        ensures
            final(self)@ == if disconnected {
                old(self)@.after_events(events@.map_values(|e: WorkerEvent<R>| e@)).after_worker_lost()
            } else {
                old(self)@.after_events(events@.map_values(|e: WorkerEvent<R>| e@))
            },
            final(self)@.wf(),
    {
        let ghost evs = events@.map_values(|e: WorkerEvent<R>| e@);
        let ghost start = self@;
        let ghost n = events@.len();
        let mut events = events;
        let ghost mut k: int = 0;
        while events.len() > 0
            invariant
                0 <= k <= n,
                evs.len() == n,
                events@.map_values(|e: WorkerEvent<R>| e@) == evs.subrange(k, n as int),
                self@ == start.after_events(evs.take(k)),
                self@.wf(),
            decreases events@.len(),
        {
            let ghost before = events@;
            proof {
                assert(before.map_values(|e: WorkerEvent<R>| e@).len() == before.len());
                assert(k < n);
                assert(before.map_values(|e: WorkerEvent<R>| e@)[0] == before[0]@);
                assert(evs.subrange(k, n as int)[0] == evs[k]);
            }
            let e = events.pop_front().unwrap();
            proof {
                assert(e == before[0]);
                assert(e@ == evs[k]);
                assert forall|i: int| 0 <= i < events@.len() implies #[trigger] events@[i]@ == evs[k + 1 + i] by {
                    assert(events@[i] == before[i + 1]);
                    assert(before.map_values(|e: WorkerEvent<R>| e@)[i + 1] == before[i + 1]@);
                    assert(evs.subrange(k, n as int)[i + 1] == evs[k + 1 + i]);
                }
                assert(events@.map_values(|e: WorkerEvent<R>| e@) =~= evs.subrange(k + 1, n as int));
                assert(evs.take(k + 1).drop_last() == evs.take(k));
                assert(evs.take(k + 1).last() == evs[k]);
            }
            self.apply_event(e);
            proof {
                k = k + 1;
            }
        }
        proof {
            assert(evs.take(k) == evs);
        }
        if disconnected && self.screen == Screen::Running {
            self.push_log(to_owned_string("Worker stopped unexpectedly."));
            self.result_success = Some(false);
            self.status = to_owned_string("Worker stopped unexpectedly.");
            self.screen = Screen::Done;
            self.worker_running = false;
        }
    }

    fn apply_event(&mut self, event: WorkerEvent<R>)
        requires
            old(self)@.wf(),
        ensures
            final(self)@ == old(self)@.after_event(event@),
            final(self)@.wf(),
    {
        match event {
            WorkerEvent::Log(line) => self.push_log(line),
            WorkerEvent::Progress(progress) => {
                self.progress = Some(progress);
            },
            WorkerEvent::Playlist(progress) => {
                self.playlist_progress = Some(progress);
            },
            WorkerEvent::Done { success, message } => {
                self.push_log(message.clone());
                self.result_success = Some(success);
                self.status = message;
                self.screen = Screen::Done;
                self.worker_running = false;
            },
        }
    }

    /// Applies the outcome of the format loading under way.
    pub fn apply_format_result(&mut self, result: FormatLoadResult)
        requires
            old(self)@.wf(),
            result matches FormatLoadResult::Loaded(f) ==> f@.len() < usize::MAX,
        ensures
            final(self)@ == match result {
                FormatLoadResult::Loaded(f) => old(self)@.after_format_result(Some(formats_view(f@)), None),
                FormatLoadResult::Failed(e) => old(self)@.after_format_result(None, Some(e@)),
                FormatLoadResult::Stopped => old(self)@.after_format_result(None, None),
            },
            final(self)@.wf(),
    {
        match result {
            FormatLoadResult::Loaded(formats) => {
                let count = formats.len();
                let mut status = to_owned_string("Loaded ");
                push_decimal(&mut status, count as u64);
                append_str(&mut status, " available formats. Use Left/Right on Source Format.");
                self.available_formats = formats;
                self.source_format_idx = 0;
                self.formats_loading = false;
                self.status = status;
            },
            FormatLoadResult::Failed(error) => {
                self.formats_loading = false;
                self.status = error;
            },
            FormatLoadResult::Stopped => {
                self.formats_loading = false;
                self.status = to_owned_string("Format loading stopped unexpectedly.");
            },
        }
    }

    /// Records what cancelling the job gave: `newly_requested` is whether this was the
    /// first request to cancel it.
    pub fn finish_cancel_request(&mut self, newly_requested: bool)
        requires
            old(self)@.wf(),
        ensures
            final(self)@ == old(self)@.after_cancel_result(newly_requested),
            final(self)@.wf(),
    {
        let ratio = match &self.progress {
            Some(p) => p.ratio,
            None => None,
        };
        if newly_requested {
            self.status = to_owned_string("Cancellation requested.");
            self.push_log(to_owned_string("Cancellation requested. Stopping the active process..."));
        } else {
            self.status = to_owned_string("Cancellation already requested.");
        }
        self.progress = Some(
            Progress {
                stage: to_owned_string("Cancelling"),
                ratio,
                detail: to_owned_string("Waiting for the active process to stop..."),
            },
        );
    }

    /// Shows the output folder picker on `picker`.
    pub fn show_output_picker(&mut self, picker: DirectoryPicker)
        requires
            old(self)@.wf(),
            picker@.wf(),
        ensures
            final(self)@ == (AppView {
                directory_picker: Some(picker@),
                screen: Screen::OutputPicker,
                status: "Browse folders; Space or s selects the current folder."@,
                ..old(self)@
            }),
            final(self)@.wf(),
    {
        self.directory_picker = Some(picker);
        self.screen = Screen::OutputPicker;
        self.status = to_owned_string("Browse folders; Space or s selects the current folder.");
    }

    /// Replaces the folder the picker shows.
    pub fn replace_directory_picker(&mut self, picker: DirectoryPicker)
        requires
            old(self)@.wf(),
            picker@.wf(),
        ensures
            final(self)@ == (AppView { directory_picker: Some(picker@), ..old(self)@ }),
            final(self)@.wf(),
    {
        self.directory_picker = Some(picker);
    }

    /// Logs why the output folder could not be opened.
    pub fn report_open_folder_error(&mut self, detail: &str)
        requires
            old(self)@.wf(),
        ensures
            final(self)@ == old(self)@.with_log("Could not open folder: "@ + detail@),
            final(self)@.wf(),
    {
        let mut line = to_owned_string("Could not open folder: ");
        append_str(&mut line, detail);
        self.push_log(line);
    }
}

impl<R> AppView<R> {
    /// What the Source Format field shows.
    pub open spec fn source_format_label_text(self) -> Seq<char> {
        if self.formats_loading {
            "loading available formats..."@
        } else if self.source_format_idx == 0 {
            if self.available_formats.len() == 0 {
                "Auto best (press f to load)"@
            } else {
                "Auto best"@
            }
        } else if self.source_format_idx - 1 < self.available_formats.len() {
            self.available_formats[self.source_format_idx - 1].label
        } else {
            "Auto best"@
        }
    }

    /// What the Fallback Res field shows.
    pub open spec fn resolution_label_text(self) -> Seq<char> {
        if self.source_format_idx == 0 {
            resolution_text(self.resolution_idx as int)
        } else {
            "ignored; source format selected"@
        }
    }
}

impl<R> App<R> {
    /// Whether the state is well formed, as every method that needs it requires.
    pub fn is_well_formed(&self) -> (r: bool)
        ensures
            r == self@.wf(),
    {
        let picker_ok = match &self.directory_picker {
            Some(p) => p.selected_idx == 0 || p.selected_idx < p.entries.len(),
            None => true,
        };
        self.resolution_idx < RESOLUTION_COUNT && self.format_idx < FORMAT_COUNT
            && self.source_format_idx <= self.available_formats.len()
            && self.available_formats.len() < usize::MAX && self.logs.len() <= MAX_LOG_LINES
            && picker_ok
    }

    pub fn source_format_label(&self) -> (r: &str)
        ensures
            r@ == self@.source_format_label_text(),
    {
        if self.formats_loading {
            return "loading available formats...";
        }
        if self.source_format_idx == 0 {
            if self.available_formats.len() == 0 {
                "Auto best (press f to load)"
            } else {
                "Auto best"
            }
        } else if self.source_format_idx - 1 < self.available_formats.len() {
            self.available_formats[self.source_format_idx - 1].label.as_str()
        } else {
            "Auto best"
        }
    }

    pub fn resolution_label(&self) -> (r: &str)
        requires
            self@.wf(),
        ensures
            r@ == self@.resolution_label_text(),
    {
        if self.source_format_idx == 0 {
            resolution_name(self.resolution_idx)
        } else {
            "ignored; source format selected"
        }
    }
}

proof fn lemma_adjust_selection_wf<R>(v: AppView<R>, direction: int)
    requires
        v.wf(),
    ensures
        v.after_adjust_selection(direction).wf(),
{
    crate::config::lemma_cycle_index(v.source_format_idx as int, v.available_formats.len() + 1 as int);
    crate::config::lemma_cycle_index(v.resolution_idx as int, RESOLUTION_COUNT as int);
    crate::config::lemma_cycle_index(v.format_idx as int, FORMAT_COUNT as int);
}

proof fn lemma_form_key_wf<R>(v: AppView<R>, code: KeyCode, home: Option<Seq<char>>)
    requires
        v.wf(),
    ensures
        v.after_form_key(code, home).0.wf(),
{
    match code {
        KeyCode::Left => lemma_adjust_selection_wf(v, -1),
        KeyCode::Right => lemma_adjust_selection_wf(v, 1),
        _ => {},
    }
}

proof fn lemma_picker_key_wf<R>(v: AppView<R>, code: KeyCode, home: Option<Seq<char>>)
    requires
        v.wf(),
    ensures
        v.after_picker_key(code, home).wf(),
{
    match v.directory_picker {
        Some(p) => {
            if p.entries.len() > 0 {
                crate::config::lemma_cycle_index(p.selected_idx as int, p.entries.len() as int);
            }
        },
        None => {},
    }
}

/// Every key press keeps the state well formed.
pub proof fn lemma_key_preserves_wf<R>(v: AppView<R>, key: KeyInput, home: Option<Seq<char>>)
    requires
        v.wf(),
    ensures
        v.after_key(key, home).0.wf(),
{
    if !(key.ctrl && key.code == KeyCode::Char('c')) {
        match v.screen {
            Screen::Form => lemma_form_key_wf(v, key.code, home),
            Screen::OutputPicker => lemma_picker_key_wf(v, key.code, home),
            _ => {},
        }
    }
}

/// On the form, Left and Right change the focused choice: the source format, fallback
/// resolution and container step back or forward through their lists, wrapping around;
/// QuickTime conversion toggles and the encoder switches; on other fields nothing changes.
/// The state stays well formed.
pub proof fn lemma_left_right_on_form<R>(v: AppView<R>, home: Option<Seq<char>>, right: bool)
    requires
        v.wf(),
        v.screen == Screen::Form,
    ensures
        ({
            let d: int = if right { 1 } else { -1 };
            let key = KeyInput { code: if right { KeyCode::Right } else { KeyCode::Left }, ctrl: false };
            let (w, quit) = v.after_key(key, home);
            &&& !quit
            &&& w.wf()
            &&& w == match v.focus {
                Focus::SourceFormat => AppView {
                    source_format_idx: cycled(
                        v.source_format_idx as int,
                        v.available_formats.len() + 1 as int,
                        d,
                    ) as usize,
                    ..v
                },
                Focus::Resolution => AppView {
                    resolution_idx: cycled(v.resolution_idx as int, RESOLUTION_COUNT as int, d) as usize,
                    ..v
                },
                Focus::Format => AppView {
                    format_idx: cycled(v.format_idx as int, FORMAT_COUNT as int, d) as usize,
                    ..v
                },
                Focus::Convert => AppView { convert: !v.convert, ..v },
                Focus::Encoder => AppView { encoder_mode: v.encoder_mode.other(), ..v },
                _ => v,
            }
        }),
{
    let key = KeyInput { code: if right { KeyCode::Right } else { KeyCode::Left }, ctrl: false };
    lemma_key_preserves_wf(v, key, home);
}

/// Control-C quits everywhere but on the running screen, where it asks to cancel the job
/// instead and keeps the application open.
pub proof fn lemma_ctrl_c<R>(v: AppView<R>, home: Option<Seq<char>>)
    ensures
        ({
            let (w, quit) = v.after_key(KeyInput { code: KeyCode::Char('c'), ctrl: true }, home);
            &&& quit <==> v.screen != Screen::Running
            &&& v.screen == Screen::Running && v.worker_running ==> w.effects == v.effects.push(
                EffectView::CancelWorker,
            )
            &&& v.screen != Screen::Running ==> w == v
        }),
{
}

/// Typing a character into the URL field and deleting it again gives back the URL; any
/// formats loaded for the old URL are gone.
pub proof fn lemma_url_type_then_backspace<R>(v: AppView<R>, c: char, home: Option<Seq<char>>)
    requires
        v.screen == Screen::Form,
        v.focus == Focus::Url,
    ensures
        ({
            let typed = v.after_key(KeyInput { code: KeyCode::Char(c), ctrl: false }, home).0;
            let back = typed.after_key(KeyInput { code: KeyCode::Backspace, ctrl: false }, home).0;
            &&& back.url == v.url
            &&& back.available_formats.len() == 0
            &&& !back.formats_loading
        }),
{
    let typed = v.after_key(KeyInput { code: KeyCode::Char(c), ctrl: false }, home).0;
    assert(typed.url == v.url.push(c));
    assert(typed.url.drop_last() == v.url);
}

/// Space on the QuickTime field twice leaves the setting as it was.
pub proof fn lemma_convert_toggle_twice<R>(v: AppView<R>, home: Option<Seq<char>>)
    requires
        v.screen == Screen::Form,
        v.focus == Focus::Convert,
    ensures
        ({
            let k = KeyInput { code: KeyCode::Char(' '), ctrl: false };
            let once = v.after_key(k, home).0;
            &&& once.convert == !v.convert
            &&& once.after_key(k, home).0 == v
        }),
{
}

/// Tab then Shift-Tab, or Shift-Tab then Tab, on the form returns the focus to the same field.
pub proof fn lemma_tab_backtab<R>(v: AppView<R>, home: Option<Seq<char>>)
    requires
        v.screen == Screen::Form,
    ensures
        ({
            let tab = KeyInput { code: KeyCode::Tab, ctrl: false };
            let back = KeyInput { code: KeyCode::BackTab, ctrl: false };
            &&& v.after_key(tab, home).0.after_key(back, home).0 == v
            &&& v.after_key(back, home).0.after_key(tab, home).0 == v
        }),
{
    crate::types::lemma_focus_next_previous_inverse(v.focus);
}

/// A job's last report ends the run: the result screen shows, the outcome and message
/// are kept, and the message is the newest log line.
pub proof fn lemma_done_event<R>(v: AppView<R>, success: bool, message: Seq<char>)
    ensures
        ({
            let w = v.after_event(WorkerEventView::Done { success, message });
            &&& w.screen == Screen::Done
            &&& w.result_success == Some(success)
            &&& w.status == message
            &&& !w.worker_running
            &&& w.logs.last() == message
        }),
{
}

/// The log never holds more than `MAX_LOG_LINES` lines, and a new line always becomes the
/// newest one.
pub proof fn lemma_log_bounded<R>(v: AppView<R>, line: Seq<char>)
    requires
        v.logs.len() <= MAX_LOG_LINES,
    ensures
        v.with_log(line).logs.len() <= MAX_LOG_LINES,
        v.with_log(line).logs.last() == line,
        v.logs.len() < MAX_LOG_LINES ==> v.with_log(line).logs == v.logs.push(line),
{
}

/// With a URL, the automatic format choice and a usable output folder, Enter on Start
/// switches to the running screen and queues the job for that URL and folder.
pub proof fn lemma_start_download<R>(v: AppView<R>, home: Option<Seq<char>>)
    requires
        v.screen == Screen::Form,
        v.focus == Focus::Start,
        trim(v.url).len() > 0,
        v.source_format_idx == 0,
        expanded_output_dir(v.output_dir_input, home) is Ok,
    ensures
        ({
            let w = v.after_key(KeyInput { code: KeyCode::Enter, ctrl: false }, home).0;
            let dir = expanded_output_dir(v.output_dir_input, home)->Ok_0;
            &&& w.screen == Screen::Running
            &&& w.worker_running
            &&& w.output_dir == dir
            &&& w.logs.len() == 0
            &&& w.effects.last() == EffectView::StartDownload(v.job_for(trim(v.url), dir))
        }),
{
}

/// On the form, Esc quits; `q` quits unless the URL or output field is being edited, where
/// it is typed instead.
pub proof fn lemma_form_quit_keys<R>(v: AppView<R>, home: Option<Seq<char>>)
    requires
        v.screen == Screen::Form,
    ensures
        v.after_key(KeyInput { code: KeyCode::Esc, ctrl: false }, home).1,
        ({
            let (w, quit) = v.after_key(KeyInput { code: KeyCode::Char('q'), ctrl: false }, home);
            &&& quit <==> !(v.focus == Focus::Url || v.focus == Focus::Output)
            &&& v.focus == Focus::Url ==> w.url == v.url.push('q')
            &&& v.focus == Focus::Output ==> w.output_dir_input == v.output_dir_input.push('q')
        }),
{
}

/// Any change to the URL drops the formats loaded for it: the source format is back to
/// the automatic choice and no loading is under way.
pub proof fn lemma_url_edit_clears_formats<R>(v: AppView<R>, c: char, home: Option<Seq<char>>)
    requires
        v.wf(),
        v.screen == Screen::Form,
        v.focus == Focus::Url,
    ensures
        ({
            let w = v.after_key(KeyInput { code: KeyCode::Char(c), ctrl: false }, home).0;
            let b = v.after_key(KeyInput { code: KeyCode::Backspace, ctrl: false }, home).0;
            &&& w.available_formats.len() == 0 && w.source_format_idx == 0 && !w.formats_loading
            &&& b.available_formats.len() == 0 && b.source_format_idx == 0 && !b.formats_loading
        }),
{
}

/// With an exact source format chosen, a playlist-only URL is refused before anything
/// starts, as is a container the source format cannot go into.
pub proof fn lemma_exact_format_checks_before_start<R>(v: AppView<R>, home: Option<Seq<char>>)
    requires
        v.screen == Screen::Form,
        v.focus == Focus::Start,
        v.selected_source() is Some,
        is_playlist_only_url(trim(v.url)) || container_error_text(
            v.selected_source().unwrap().id,
            v.selected_source().unwrap().ext,
            format_text(v.format_idx as int),
        ) is Some,
    ensures
        ({
            let (w, quit) = v.after_key(KeyInput { code: KeyCode::Enter, ctrl: false }, home);
            &&& !quit
            &&& w.screen == Screen::Form
            &&& w.worker_running == v.worker_running
            &&& w.effects == v.effects
        }),
{
}

/// The result screen's `n` and Enter return to an empty form run: focus on the URL, no
/// progress, no outcome, no logs.
pub proof fn lemma_new_download_resets<R>(v: AppView<R>, home: Option<Seq<char>>)
    requires
        v.screen == Screen::Done,
    ensures
        ({
            let w = v.after_key(KeyInput { code: KeyCode::Enter, ctrl: false }, home).0;
            &&& w.screen == Screen::Form
            &&& w.focus == Focus::Url
            &&& w.progress is None
            &&& w.result_success is None
            &&& w.logs.len() == 0
            &&& w == v.after_key(KeyInput { code: KeyCode::Char('n'), ctrl: false }, home).0
        }),
{
}

} // verus!
