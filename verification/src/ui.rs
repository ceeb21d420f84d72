//! What the screens show: field values fitted to a width, scrolling, labels and help.
use vstd::prelude::*;
use crate::text::{
    append_str, chars_of, decimal, push_char, push_decimal, string_from_chars, string_from_range,
    to_owned_string, starts_with, ends_with,
};
use crate::types::{Focus, PlaylistProgress, Screen};
use crate::app::{App, AppView, DirectoryPicker};
use crate::config::{format_name, format_text};

verus! {

/// `value` fitted into `max_width` characters: kept whole when it fits, else cut in the
/// middle around `...`, or only dots when there is no room for more.
pub open spec fn truncate_middle_text(value: Seq<char>, max_width: nat) -> Seq<char> {
    if value.len() <= max_width {
        value
    } else if max_width == 0 {
        Seq::empty()
    } else if max_width <= 3 {
        Seq::new(max_width, |i: int| '.')
    } else {
        let keep = (max_width - 3) as nat;
        let left = keep / 2;
        let right = (keep - left) as nat;
        value.subrange(0, left as int) + "..."@ + value.subrange(
            value.len() - right,
            value.len() as int,
        )
    }
}

/// A fitted value is exactly as wide as the value or the room, whichever is smaller.
pub proof fn lemma_truncate_middle_width(value: Seq<char>, max_width: nat)
    ensures
        truncate_middle_text(value, max_width).len() == if value.len() <= max_width {
            value.len()
        } else {
            max_width
        },
{
    reveal_strlit("...");
}

pub fn truncate_middle(value: &str, max_width: usize) -> (r: String)
    ensures
        r@ == truncate_middle_text(value@, max_width as nat),
        value@.len() <= max_width ==> r@ == value@,
        value@.len() > max_width ==> r@.len() == max_width,
        value@.len() > max_width > 3 ==> ({
            let keep = (max_width - 3) as int;
            &&& starts_with(r@, value@.subrange(0, keep / 2))
            &&& ends_with(r@, value@.subrange(value@.len() - (keep - keep / 2), value@.len() as int))
        }),
{
    proof {
        lemma_truncate_middle_width(value@, max_width as nat);
        reveal_strlit("...");
        if value@.len() > max_width && max_width > 3 {
            let t = truncate_middle_text(value@, max_width as nat);
            let keep = (max_width - 3) as int;
            let l = value@.subrange(0, keep / 2);
            let rr = value@.subrange(value@.len() - (keep - keep / 2), value@.len() as int);
            assert(t == l + "..."@ + rr);
            assert(t.subrange(0, l.len() as int) =~= l);
            assert(t.subrange(t.len() - rr.len(), t.len() as int) =~= rr);
        }
    }
    let v = chars_of(value);
    let n = v.len();
    if n <= max_width {
        return string_from_chars(&v);
    }
    if max_width == 0 {
        return String::new();
    }
    if max_width <= 3 {
        let mut r = String::new();
        let mut i: usize = 0;
        while i < max_width
            invariant
                i <= max_width,
                r@ == Seq::new(i as nat, |k: int| '.'),
            decreases max_width - i,
        {
            push_char(&mut r, '.');
            i = i + 1;
            assert(r@ =~= Seq::new(i as nat, |k: int| '.'));
        }
        return r;
    }
    let keep = max_width - 3;
    let left = keep / 2;
    let right = keep - left;
    let mut r = string_from_range(&v, 0, left);
    append_str(&mut r, "...");
    let tail = string_from_range(&v, n - right, n);
    append_str(&mut r, tail.as_str());
    r
}

/// `prefix + value + suffix` fitted into `max_width` characters, shortening the value
/// first and the whole text only when the decoration alone does not fit.
pub open spec fn wrap_value_text(
    value: Seq<char>,
    prefix: Seq<char>,
    suffix: Seq<char>,
    max_width: nat,
) -> Seq<char> {
    let decoration = prefix.len() + suffix.len();
    if max_width <= decoration {
        truncate_middle_text(prefix + value + suffix, max_width)
    } else {
        prefix + truncate_middle_text(value, (max_width - decoration) as nat) + suffix
    }
}

/// A wrapped value never exceeds its width.
pub proof fn lemma_wrap_value_width(
    value: Seq<char>,
    prefix: Seq<char>,
    suffix: Seq<char>,
    max_width: nat,
)
    ensures
        wrap_value_text(value, prefix, suffix, max_width).len() <= max_width,
{
    let decoration = prefix.len() + suffix.len();
    if max_width <= decoration {
        lemma_truncate_middle_width(prefix + value + suffix, max_width);
    } else {
        lemma_truncate_middle_width(value, (max_width - decoration) as nat);
    }
}

pub fn wrap_value(value: &str, prefix: &str, suffix: &str, max_width: usize) -> (r: String)
    ensures
        r@ == wrap_value_text(value@, prefix@, suffix@, max_width as nat),
        r@.len() <= max_width,
{
    proof {
        lemma_wrap_value_width(value@, prefix@, suffix@, max_width as nat);
    }
    let p = chars_of(prefix);
    let s = chars_of(suffix);
    if p.len() >= max_width || s.len() >= max_width - p.len() {
        let mut whole = to_owned_string(prefix);
        append_str(&mut whole, value);
        append_str(&mut whole, suffix);
        return truncate_middle(whole.as_str(), max_width);
    }
    let decoration = p.len() + s.len();
    let inner = truncate_middle(value, max_width - decoration);
    let mut r = to_owned_string(prefix);
    append_str(&mut r, inner.as_str());
    append_str(&mut r, suffix);
    r
}

/// How a form field shows its value.
#[derive(Clone, Copy, Debug, PartialEq, Eq, Structural)]
pub enum FieldKind {
    /// Editable text, in brackets, with a cursor when selected.
    Text,
    /// One of several choices, between arrows.
    Choice,
    /// An on/off switch, checked or not.
    Toggle(bool),
    /// A value that cannot be changed now, in parentheses.
    ReadOnly,
}

/// The decoration of a field value: `(prefix, suffix)`.
pub open spec fn field_decoration(kind: FieldKind, selected: bool) -> (Seq<char>, Seq<char>) {
    match kind {
        FieldKind::Text => ("["@, if selected {
            "_]"@
        } else {
            "]"@
        }),
        FieldKind::Choice => ("< "@, " >"@),
        FieldKind::Toggle(checked) => (if checked {
            "[x] "@
        } else {
            "[ ] "@
        }, ""@),
        FieldKind::ReadOnly => ("( "@, " )"@),
    }
}

/// A field value decorated for its kind and fitted to `max_width`.
pub open spec fn field_value_text(value: Seq<char>, kind: FieldKind, selected: bool, max_width: nat) -> Seq<char> {
    let (prefix, suffix) = field_decoration(kind, selected);
    wrap_value_text(value, prefix, suffix, max_width)
}

pub fn format_field_value(value: &str, kind: FieldKind, selected: bool, max_width: usize) -> (r: String)
    ensures
        r@ == field_value_text(value@, kind, selected, max_width as nat),
{
    match kind {
        FieldKind::Text => {
            let suffix = if selected {
                "_]"
            } else {
                "]"
            };
            wrap_value(value, "[", suffix, max_width)
        },
        FieldKind::Choice => wrap_value(value, "< ", " >", max_width),
        FieldKind::Toggle(checked) => {
            let prefix = if checked {
                "[x] "
            } else {
                "[ ] "
            };
            wrap_value(value, prefix, "", max_width)
        },
        FieldKind::ReadOnly => wrap_value(value, "( ", " )", max_width),
    }
}

/// The first row to show so that the selected row is on screen, the view stays inside the
/// list and scrolls no further than needed.
pub open spec fn scroll_start_value(selected_idx: int, visible_rows: int, total_rows: int) -> int {
    if visible_rows == 0 || total_rows <= visible_rows {
        0
    } else {
        let max_start = total_rows - visible_rows;
        let after = if selected_idx == usize::MAX {
            usize::MAX as int
        } else {
            selected_idx + 1
        };
        let start = if after >= visible_rows {
            after - visible_rows
        } else {
            0
        };
        if start < max_start {
            start
        } else {
            max_start
        }
    }
}

pub fn scroll_start(selected_idx: usize, visible_rows: usize, total_rows: usize) -> (r: usize)
    ensures
        r == scroll_start_value(selected_idx as int, visible_rows as int, total_rows as int),
        selected_idx < total_rows && visible_rows > 0 ==> r <= selected_idx < r + visible_rows,
        total_rows > visible_rows > 0 && selected_idx < total_rows ==> r + visible_rows <= total_rows,
        total_rows <= visible_rows ==> r == 0,
{
    proof {
        if selected_idx < total_rows && visible_rows > 0 {
            lemma_scroll_keeps_selection_visible(selected_idx, visible_rows, total_rows);
        }
    }
    if visible_rows == 0 || total_rows <= visible_rows {
        return 0;
    }
    let max_start = total_rows - visible_rows;
    let after = if selected_idx == usize::MAX {
        usize::MAX
    } else {
        selected_idx + 1
    };
    let start = if after >= visible_rows {
        after - visible_rows
    } else {
        0
    };
    if start < max_start {
        start
    } else {
        max_start
    }
}

/// The selected row of a list is always on screen, and the view never runs past the end.
pub proof fn lemma_scroll_keeps_selection_visible(selected_idx: usize, visible_rows: usize, total_rows: usize)
    requires
        selected_idx < total_rows,
        visible_rows > 0,
    ensures
        ({
            let s = scroll_start_value(selected_idx as int, visible_rows as int, total_rows as int);
            &&& s <= selected_idx < s + visible_rows
            &&& total_rows > visible_rows ==> s + visible_rows <= total_rows
        }),
{
}

/// The help line for each screen.
pub open spec fn help_text_of(screen: Screen) -> Seq<char> {
    match screen {
        Screen::Form => "Tab focus  Left/Right choices  Space toggle  Enter Output browse/start  Esc quit"@,
        Screen::OutputPicker => "Up/Down choose  Enter open  Backspace parent  ~ home  Space/s select  Esc cancel"@,
        Screen::Running => "Download is running. Logs update live; q/Esc/Ctrl-C cancels the active process."@,
        Screen::Done => "Enter/n new download  o open folder  q/Esc quit"@,
    }
}

pub fn help_text(screen: Screen) -> (r: &'static str)
    ensures
        r@ == help_text_of(screen),
{
    match screen {
        Screen::Form => "Tab focus  Left/Right choices  Space toggle  Enter Output browse/start  Esc quit",
        Screen::OutputPicker => "Up/Down choose  Enter open  Backspace parent  ~ home  Space/s select  Esc cancel",
        Screen::Running => "Download is running. Logs update live; q/Esc/Ctrl-C cancels the active process.",
        Screen::Done => "Enter/n new download  o open folder  q/Esc quit",
    }
}

/// The label of the playlist queue gauge.
pub open spec fn queue_label_text(progress: Option<PlaylistProgress>) -> Seq<char> {
    match progress {
        Some(p) => "Playlist item "@ + decimal(p.current as nat) + " of "@ + decimal(p.total as nat),
        None => "Single video or playlist queue pending"@,
    }
}

pub fn queue_label(progress: Option<PlaylistProgress>) -> (r: String)
    ensures
        r@ == queue_label_text(progress),
{
    match progress {
        Some(p) => {
            let mut r = to_owned_string("Playlist item ");
            push_decimal(&mut r, p.current as u64);
            append_str(&mut r, " of ");
            push_decimal(&mut r, p.total as u64);
            r
        },
        None => to_owned_string("Single video or playlist queue pending"),
    }
}

/// The first of `len` log lines that fits in `height` rows, showing the newest lines.
pub fn log_window_start(len: usize, height: usize) -> (r: usize)
    ensures
        r == if len >= height {
            len - height
        } else {
            0
        },
{
    if len >= height {
        len - height
    } else {
        0
    }
}

/// `s` padded with spaces on the right to `width` characters (`{:<width}`).
pub open spec fn pad_right(s: Seq<char>, width: nat) -> Seq<char> {
    if s.len() >= width {
        s
    } else {
        s + Seq::new((width - s.len()) as nat, |i: int| ' ')
    }
}

fn pad_right_string(s: &str, width: usize) -> (r: String)
    ensures
        r@ == pad_right(s@, width as nat),
{
    let mut r = to_owned_string(s);
    let n = chars_of(s).len();
    let mut i = n;
    while i < width
        invariant
            n == s@.len(),
            n <= i <= width || (i == n && n >= width),
            r@ == s@ + Seq::new((i - n) as nat, |k: int| ' '),
        decreases width - i,
    {
        push_char(&mut r, ' ');
        i = i + 1;
        assert(r@ =~= s@ + Seq::new((i - n) as nat, |k: int| ' '));
    }
    assert(n >= width ==> r@ =~= s@);
    r
}

/// The row marker: `> ` on the selected row.
pub open spec fn marker_text(selected: bool) -> Seq<char> {
    if selected {
        "> "@
    } else {
        "  "@
    }
}

/// One field row of the download form.
pub struct FormLine {
    pub selected: bool,
    pub marker: String,
    /// The field name, padded to fourteen characters.
    pub label: String,
    /// The value, decorated for the field's kind and fitted to the value width.
    pub value: String,
}

/// Field `i` of the form, top to bottom: `(focused, name, value, kind)`.
pub open spec fn form_field<R>(v: AppView<R>, i: int) -> (bool, Seq<char>, Seq<char>, FieldKind) {
    if i == 0 {
        (v.focus == Focus::Url, "URL"@, if v.url.len() == 0 {
            "paste video or playlist URL"@
        } else {
            v.url
        }, FieldKind::Text)
    } else if i == 1 {
        (v.focus == Focus::SourceFormat, "Source Format"@, v.source_format_label_text(), FieldKind::Choice)
    } else if i == 2 {
        (v.focus == Focus::Resolution, "Fallback Res"@, v.resolution_label_text(), if v.source_format_idx == 0 {
            FieldKind::Choice
        } else {
            FieldKind::ReadOnly
        })
    } else if i == 3 {
        (v.focus == Focus::Format, "Container"@, format_text(v.format_idx as int), FieldKind::Choice)
    } else if i == 4 {
        (v.focus == Focus::Convert, "QuickTime mp4"@, if v.convert {
            "enabled"@
        } else {
            "disabled"@
        }, FieldKind::Toggle(v.convert))
    } else if i == 5 {
        (v.focus == Focus::Encoder, "Encoder"@, if v.convert {
            v.encoder_mode.label_text()
        } else {
            "not used"@
        }, if v.convert {
            FieldKind::Choice
        } else {
            FieldKind::ReadOnly
        })
    } else if i == 6 {
        (v.focus == Focus::DeleteOriginal, "Delete original"@, if !v.convert {
            "not used"@
        } else if v.delete_original {
            "enabled"@
        } else {
            "disabled"@
        }, if v.convert {
            FieldKind::Toggle(v.delete_original)
        } else {
            FieldKind::ReadOnly
        })
    } else {
        (v.focus == Focus::Output, "Output"@, v.output_dir_input, FieldKind::Text)
    }
}

/// Number of field rows of the form.
pub const FORM_FIELD_COUNT: usize = 8;

/// The width left for field values in a form of `area_width` columns.
pub fn form_value_width(area_width: u16) -> (r: usize)
    ensures
        r == if area_width >= 18 {
            area_width - 18
        } else {
            0
        },
{
    if area_width >= 18 {
        (area_width - 18) as usize
    } else {
        0
    }
}

fn form_line(selected: bool, label: &str, value: &str, kind: FieldKind, max_width: usize) -> (r: FormLine)
    ensures
        r.selected == selected,
        r.marker@ == marker_text(selected),
        r.label@ == pad_right(label@, 14),
        r.value@ == field_value_text(value@, kind, selected, max_width as nat),
{
    FormLine {
        selected,
        marker: to_owned_string(if selected {
            "> "
        } else {
            "  "
        }),
        label: pad_right_string(label, 14),
        value: format_field_value(value, kind, selected, max_width),
    }
}

/// The field rows of the download form (`draw_form`), fitted to `value_width`.
pub fn form_lines<R>(app: &App<R>, value_width: usize) -> (lines: Vec<FormLine>)
    requires
        app@.wf(),
    ensures
        lines@.len() == FORM_FIELD_COUNT,
        forall|i: int|
            0 <= i < FORM_FIELD_COUNT ==> {
                let (selected, label, value, kind) = #[trigger] form_field(app@, i);
                &&& lines@[i].selected == selected
                &&& lines@[i].marker@ == marker_text(selected)
                &&& lines@[i].label@ == pad_right(label, 14)
                &&& lines@[i].value@ == field_value_text(value, kind, selected, value_width as nat)
            },
{
    let mut lines: Vec<FormLine> = Vec::new();
    let convert = app.convert;
    let url_value = if app.url.as_str().unicode_len() == 0 {
        "paste video or playlist URL"
    } else {
        app.url.as_str()
    };
    lines.push(form_line(app.focus == Focus::Url, "URL", url_value, FieldKind::Text, value_width));
    lines.push(
        form_line(
            app.focus == Focus::SourceFormat,
            "Source Format",
            app.source_format_label(),
            FieldKind::Choice,
            value_width,
        ),
    );
    lines.push(
        form_line(
            app.focus == Focus::Resolution,
            "Fallback Res",
            app.resolution_label(),
            if app.source_format_idx == 0 {
                FieldKind::Choice
            } else {
                FieldKind::ReadOnly
            },
            value_width,
        ),
    );
    lines.push(
        form_line(
            app.focus == Focus::Format,
            "Container",
            format_name(app.format_idx),
            FieldKind::Choice,
            value_width,
        ),
    );
    lines.push(
        form_line(
            app.focus == Focus::Convert,
            "QuickTime mp4",
            if convert {
                "enabled"
            } else {
                "disabled"
            },
            FieldKind::Toggle(convert),
            value_width,
        ),
    );
    lines.push(
        form_line(
            app.focus == Focus::Encoder,
            "Encoder",
            if convert {
                app.encoder_mode.label()
            } else {
                "not used"
            },
            if convert {
                FieldKind::Choice
            } else {
                FieldKind::ReadOnly
            },
            value_width,
        ),
    );
    lines.push(
        form_line(
            app.focus == Focus::DeleteOriginal,
            "Delete original",
            if !convert {
                "not used"
            } else if app.delete_original {
                "enabled"
            } else {
                "disabled"
            },
            if convert {
                FieldKind::Toggle(app.delete_original)
            } else {
                FieldKind::ReadOnly
            },
            value_width,
        ),
    );
    lines.push(
        form_line(
            app.focus == Focus::Output,
            "Output",
            app.output_dir_input.as_str(),
            FieldKind::Text,
            value_width,
        ),
    );
    assert forall|i: int| 0 <= i < FORM_FIELD_COUNT implies {
        let (selected, label, value, kind) = #[trigger] form_field(app@, i);
        &&& lines@[i].selected == selected
        &&& lines@[i].marker@ == marker_text(selected)
        &&& lines@[i].label@ == pad_right(label, 14)
        &&& lines@[i].value@ == field_value_text(value, kind, selected, value_width as nat)
    } by {
        if i == 0 {
        } else if i == 1 {
        } else if i == 2 {
        } else if i == 3 {
        } else if i == 4 {
        } else if i == 5 {
        } else if i == 6 {
        } else {
        }
    }
    lines
}

/// The start button row: marker and `[ label ]`.
pub fn button_line(selected: bool, label: &str) -> (r: (String, String))
    ensures
        r.0@ == marker_text(selected),
        r.1@ == "[ "@ + label@ + " ]"@,
{
    let marker = to_owned_string(if selected {
        "> "
    } else {
        "  "
    });
    let mut text = to_owned_string("[ ");
    append_str(&mut text, label);
    append_str(&mut text, " ]");
    (marker, text)
}

/// What the result screen says.
pub struct DoneSummary {
    pub success: bool,
    pub title: String,
    pub status: String,
    pub saved_to: String,
}

/// The result screen's lines (`draw_done`): whether the run succeeded (no outcome counts
/// as failure), its status and the output folder.
pub fn done_summary<R>(app: &App<R>) -> (r: DoneSummary)
    ensures
        r.success == (app.result_success == Some(true)),
        r.title@ == if r.success {
            "Completed"@
        } else {
            "Failed"@
        },
        r.status@ == app.status@,
        r.saved_to@ == "Saved to: "@ + app.output_dir@,
{
    let success = match app.result_success {
        Some(s) => s,
        None => false,
    };
    let mut saved_to = to_owned_string("Saved to: ");
    append_str(&mut saved_to, app.output_dir.as_str());
    DoneSummary {
        success,
        title: to_owned_string(if success {
            "Completed"
        } else {
            "Failed"
        }),
        status: app.status.clone(),
        saved_to,
    }
}

/// One visible row of the folder list.
pub struct PickerRow {
    pub selected: bool,
    pub marker: String,
    /// The folder name followed by `/`.
    pub text: String,
}

/// The folder rows that fit in `visible_rows` (`draw_output_picker_entries`): from the
/// scroll start, at most `visible_rows` of them, the selected one marked.
pub fn picker_rows(picker: &DirectoryPicker, visible_rows: usize) -> (rows: Vec<PickerRow>)
    ensures
        ({
            let n = picker@.entries.len();
            let start = scroll_start_value(picker.selected_idx as int, visible_rows as int, n as int);
            let count = if start + visible_rows <= n {
                visible_rows as int
            } else if start <= n {
                n - start
            } else {
                0
            };
            &&& rows@.len() == count
            &&& forall|k: int|
                0 <= k < count ==> {
                    &&& (#[trigger] rows@[k]).selected == (start + k == picker.selected_idx)
                    &&& rows@[k].marker@ == marker_text(start + k == picker.selected_idx)
                    &&& rows@[k].text@ == picker@.entries[start + k].name + "/"@
                }
        }),
{
    let n = picker.entries.len();
    let start = scroll_start(picker.selected_idx, visible_rows, n);
    let mut rows: Vec<PickerRow> = Vec::new();
    let mut k: usize = 0;
    let ghost count = if start + visible_rows <= n {
        visible_rows as int
    } else if start <= n {
        n - start
    } else {
        0
    };
    while k < visible_rows && start < n && k < n - start
        invariant
            n == picker.entries@.len(),
            count == if start + visible_rows <= n {
                visible_rows as int
            } else if start <= n {
                n - start
            } else {
                0
            },
            k <= count,
            rows@.len() == k,
            forall|j: int|
                0 <= j < k ==> {
                    &&& (#[trigger] rows@[j]).selected == (start + j == picker.selected_idx)
                    &&& rows@[j].marker@ == marker_text(start + j == picker.selected_idx)
                    &&& rows@[j].text@ == picker@.entries[start + j].name + "/"@
                },
        decreases visible_rows - k,
    {
        let index = start + k;
        let selected = index == picker.selected_idx;
        let mut text = picker.entries[index].name.clone();
        push_char(&mut text, '/');
        proof {
            reveal_strlit("/");
        }
        rows.push(
            PickerRow {
                selected,
                marker: to_owned_string(if selected {
                    "> "
                } else {
                    "  "
                }),
                text,
            },
        );
        k = k + 1;
    }
    rows
}

} // verus!
