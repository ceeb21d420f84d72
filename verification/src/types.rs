//! Shared screens, form fields, formats, encoder modes, progress and worker events.
use vstd::prelude::*;

verus! {

/// The screen the application shows.
#[derive(Clone, Copy, Debug, PartialEq, Eq, Structural)]
pub enum Screen {
    Form,
    OutputPicker,
    Running,
    Done,
}

/// The form field that has the keyboard focus.
#[derive(Clone, Copy, Debug, PartialEq, Eq, Structural)]
pub enum Focus {
    Url,
    SourceFormat,
    Resolution,
    Format,
    Convert,
    Encoder,
    DeleteOriginal,
    Output,
    Start,
}

/// Number of focusable form fields.
pub const FOCUS_COUNT: usize = 9;

impl Focus {
    /// Position of the field in the form, from the top.
    pub open spec fn position(self) -> nat {
        match self {
            Focus::Url => 0,
            Focus::SourceFormat => 1,
            Focus::Resolution => 2,
            Focus::Format => 3,
            Focus::Convert => 4,
            Focus::Encoder => 5,
            Focus::DeleteOriginal => 6,
            Focus::Output => 7,
            Focus::Start => 8,
        }
    }

    /// The field one row further down, wrapping from the last to the first.
    pub open spec fn following(self) -> Focus {
        match self {
            Focus::Url => Focus::SourceFormat,
            Focus::SourceFormat => Focus::Resolution,
            Focus::Resolution => Focus::Format,
            Focus::Format => Focus::Convert,
            Focus::Convert => Focus::Encoder,
            Focus::Encoder => Focus::DeleteOriginal,
            Focus::DeleteOriginal => Focus::Output,
            Focus::Output => Focus::Start,
            Focus::Start => Focus::Url,
        }
    }

    /// The field one row further up, wrapping from the first to the last.
    pub open spec fn preceding(self) -> Focus {
        match self {
            Focus::Url => Focus::Start,
            Focus::SourceFormat => Focus::Url,
            Focus::Resolution => Focus::SourceFormat,
            Focus::Format => Focus::Resolution,
            Focus::Convert => Focus::Format,
            Focus::Encoder => Focus::Convert,
            Focus::DeleteOriginal => Focus::Encoder,
            Focus::Output => Focus::DeleteOriginal,
            Focus::Start => Focus::Output,
        }
    }

    /// Moves the focus one field down, wrapping around.
    pub fn next(self) -> (r: Self)
        ensures
            r == self.following(),
            r.position() == (self.position() + 1) % (FOCUS_COUNT as nat),
    {
        match self {
            Self::Url => Self::SourceFormat,
            Self::SourceFormat => Self::Resolution,
            Self::Resolution => Self::Format,
            Self::Format => Self::Convert,
            Self::Convert => Self::Encoder,
            Self::Encoder => Self::DeleteOriginal,
            Self::DeleteOriginal => Self::Output,
            Self::Output => Self::Start,
            Self::Start => Self::Url,
        }
    }

    /// Moves the focus one field up, wrapping around.
    pub fn previous(self) -> (r: Self)
        ensures
            r == self.preceding(),
            r.position() == ((self.position() + FOCUS_COUNT - 1) as nat) % (FOCUS_COUNT as nat),
    {
        match self {
            Self::Url => Self::Start,
            Self::SourceFormat => Self::Url,
            Self::Resolution => Self::SourceFormat,
            Self::Format => Self::Resolution,
            Self::Convert => Self::Format,
            Self::Encoder => Self::Convert,
            Self::DeleteOriginal => Self::Encoder,
            Self::Output => Self::DeleteOriginal,
            Self::Start => Self::Output,
        }
    }
}

/// Moving the focus down and then up, or up and then down, returns to the same field.
pub proof fn lemma_focus_next_previous_inverse(f: Focus)
    ensures
        f.following().preceding() == f,
        f.preceding().following() == f,
{
}

/// Moving the focus down once per field visits every field and returns to the start.
pub proof fn lemma_focus_cycle(f: Focus)
    ensures
        f.following().following().following().following().following().following().following().following().following()
            == f,
        forall|g: Focus| g.position() == f.position() ==> g == f,
{
}

/// A video format that `yt-dlp` reported for a URL.
#[derive(Clone, Debug, PartialEq, Eq)]
pub struct AvailableFormat {
    pub id: String,
    pub label: String,
    pub ext: String,
    pub vcodec: String,
    pub acodec: String,
    pub height: Option<u32>,
    pub fps_label: Option<String>,
    pub has_audio: bool,
}

/// The characters held by an [`AvailableFormat`].
pub struct AvailableFormatView {
    pub id: Seq<char>,
    pub label: Seq<char>,
    pub ext: Seq<char>,
    pub vcodec: Seq<char>,
    pub acodec: Seq<char>,
    pub height: Option<u32>,
    pub fps_label: Option<Seq<char>>,
    pub has_audio: bool,
}

/// The view of an optional string.
pub open spec fn opt_view(s: Option<String>) -> Option<Seq<char>> {
    match s {
        Some(t) => Some(t@),
        None => None,
    }
}

impl View for AvailableFormat {
    type V = AvailableFormatView;

    open spec fn view(&self) -> AvailableFormatView {
        AvailableFormatView {
            id: self.id@,
            label: self.label@,
            ext: self.ext@,
            vcodec: self.vcodec@,
            acodec: self.acodec@,
            height: self.height,
            fps_label: opt_view(self.fps_label),
            has_audio: self.has_audio,
        }
    }
}

impl AvailableFormat {
    /// A copy of this format.
    pub fn duplicate(&self) -> (r: Self)
        ensures
            r == *self,
    {
        AvailableFormat {
            id: self.id.clone(),
            label: self.label.clone(),
            ext: self.ext.clone(),
            vcodec: self.vcodec.clone(),
            acodec: self.acodec.clone(),
            height: self.height,
            fps_label: match &self.fps_label {
                Some(s) => Some(s.clone()),
                None => None,
            },
            has_audio: self.has_audio,
        }
    }
}

/// How the optional QuickTime conversion encodes video.
#[derive(Clone, Copy, Debug, PartialEq, Eq, Structural)]
pub enum EncoderMode {
    AppleHardware,
    CpuX264,
}

impl EncoderMode {
    /// The mode a new form starts with: Apple hardware encoding on macOS, x264 elsewhere.
    pub open spec fn default_for_platform_spec(is_macos: bool) -> EncoderMode {
        if is_macos {
            EncoderMode::AppleHardware
        } else {
            EncoderMode::CpuX264
        }
    }

    pub fn default_for_platform(is_macos: bool) -> (r: Self)
        ensures
            r == Self::default_for_platform_spec(is_macos),
    {
        if is_macos {
            Self::AppleHardware
        } else {
            Self::CpuX264
        }
    }

    /// The text shown for the mode.
    pub open spec fn label_text(self) -> Seq<char> {
        match self {
            EncoderMode::AppleHardware => "Fast Apple Hardware"@,
            EncoderMode::CpuX264 => "Smaller CPU x264"@,
        }
    }

    pub fn label(self) -> (r: &'static str)
        ensures
            r@ == self.label_text(),
    {
        match self {
            Self::AppleHardware => "Fast Apple Hardware",
            Self::CpuX264 => "Smaller CPU x264",
        }
    }

    /// The other mode.
    pub open spec fn other(self) -> EncoderMode {
        match self {
            EncoderMode::AppleHardware => EncoderMode::CpuX264,
            EncoderMode::CpuX264 => EncoderMode::AppleHardware,
        }
    }

    pub fn next(self) -> (r: Self)
        ensures
            r == self.other(),
            r != self,
    {
        match self {
            Self::AppleHardware => Self::CpuX264,
            Self::CpuX264 => Self::AppleHardware,
        }
    }
}

/// Switching the encoder mode twice gives back the mode.
pub proof fn lemma_encoder_next_involution(m: EncoderMode)
    ensures
        m.other().other() == m,
        m.other() != m,
{
}

/// A progress report: a stage, an optional completed fraction and a detail line.
///
/// The fraction's representation `R` is left to the front end that draws it.
#[derive(Clone, Debug)]
pub struct Progress<R> {
    pub stage: String,
    pub ratio: Option<R>,
    pub detail: String,
}

/// The characters held by a [`Progress`].
pub struct ProgressView<R> {
    pub stage: Seq<char>,
    pub ratio: Option<R>,
    pub detail: Seq<char>,
}

impl<R> View for Progress<R> {
    type V = ProgressView<R>;

    open spec fn view(&self) -> ProgressView<R> {
        ProgressView { stage: self.stage@, ratio: self.ratio, detail: self.detail@ }
    }
}

/// Position in a playlist download: item `current` of `total`.
#[derive(Clone, Copy, Debug, PartialEq, Eq, Structural)]
pub struct PlaylistProgress {
    pub current: usize,
    pub total: usize,
}

/// What a download job reports while it runs.
#[derive(Debug)]
pub enum WorkerEvent<R> {
    Log(String),
    Progress(Progress<R>),
    Playlist(PlaylistProgress),
    Done { success: bool, message: String },
}

/// The characters held by a [`WorkerEvent`].
pub enum WorkerEventView<R> {
    Log(Seq<char>),
    Progress(ProgressView<R>),
    Playlist(PlaylistProgress),
    Done { success: bool, message: Seq<char> },
}

impl<R> View for WorkerEvent<R> {
    type V = WorkerEventView<R>;

    open spec fn view(&self) -> WorkerEventView<R> {
        match self {
            WorkerEvent::Log(l) => WorkerEventView::Log(l@),
            WorkerEvent::Progress(p) => WorkerEventView::Progress(p@),
            WorkerEvent::Playlist(p) => WorkerEventView::Playlist(*p),
            WorkerEvent::Done { success, message } => WorkerEventView::Done {
                success: *success,
                message: message@,
            },
        }
    }
}

} // verus!
