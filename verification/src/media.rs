//! `yt-dlp` format selectors, available-format rows, encoder settings and file names.
use vstd::prelude::*;
use crate::config::{join_path, join_path_str};
use crate::text::{
    append_str, chars_of, chars_start_with, contains, ends_with, decimal, find, find_chars, occurs_at,
    parse_usize_digits, parsed_usize, push_char, push_decimal, starts_with, str_contains, str_eq,
    string_from_chars, string_from_range, to_owned_string, trim, trimmed, ascii_lower,
    ascii_lower_char,
};
use crate::types::{AvailableFormat, AvailableFormatView, EncoderMode, PlaylistProgress, opt_view};
use crate::order::{is_stable_order, keys_view, lex_lt, ordered_before, stable_order};
use crate::paths::{
    path_extension, path_extension_of, path_file_stem, path_file_stem_of, path_parent, path_parent_of,
};

verus! {

/// The `-f` selector for the automatic choice: the best streams, capped at the fallback
/// resolution unless it is `Best`.
pub open spec fn format_selector_text(resolution: Seq<char>) -> Seq<char> {
    if resolution == "Best"@ {
        "bestvideo+bestaudio/best"@
    } else {
        "bestvideo[height<="@ + resolution + "]+bestaudio/best[height<="@ + resolution + "]"@
    }
}

/// The `-f` selector for a fallback resolution. The container does not change it.
pub fn format_selector(_format: &str, resolution: &str) -> (r: String)
    ensures
        r@ == format_selector_text(resolution@),
        resolution@ == "Best"@ ==> r@ == "bestvideo+bestaudio/best"@,
        resolution@ != "Best"@ ==> ({
            let cap = "[height<="@ + resolution@ + "]"@;
            &&& starts_with(r@, "bestvideo"@ + cap)
            &&& ends_with(r@, "/best"@ + cap)
            &&& contains(r@, "+bestaudio"@)
        }),
{
    proof {
        reveal_strlit("bestvideo[height<=");
        reveal_strlit("]+bestaudio/best[height<=");
        reveal_strlit("]");
        reveal_strlit("[height<=");
        reveal_strlit("bestvideo");
        reveal_strlit("/best");
        reveal_strlit("+bestaudio");
        let res = resolution@;
        let cap = "[height<="@ + res + "]"@;
        let t = format_selector_text(res);
        if res != "Best"@ {
            assert(t =~= "bestvideo"@ + cap + "+bestaudio"@ + "/best"@ + cap);
            assert(t.subrange(0, ("bestvideo"@ + cap).len() as int) =~= "bestvideo"@ + cap);
            assert(t.subrange(t.len() - ("/best"@ + cap).len(), t.len() as int) =~= "/best"@ + cap);
            assert(occurs_at(t, "+bestaudio"@, ("bestvideo"@ + cap).len() as int)) by {
                assert(t.subrange(
                    ("bestvideo"@ + cap).len() as int,
                    ("bestvideo"@ + cap).len() + 10int,
                ) =~= "+bestaudio"@);
            }
        }
    }
    if str_eq(resolution, "Best") {
        to_owned_string("bestvideo+bestaudio/best")
    } else {
        let mut r = to_owned_string("bestvideo[height<=");
        append_str(&mut r, resolution);
        append_str(&mut r, "]+bestaudio/best[height<=");
        append_str(&mut r, resolution);
        append_str(&mut r, "]");
        r
    }
}

/// The `-f` selector for an exact source format: the format itself when it carries audio,
/// else the format merged with the best audio.
pub open spec fn selected_format_selector_text(id: Seq<char>, has_audio: bool) -> Seq<char> {
    if has_audio {
        id + "/best"@
    } else {
        id + "+bestaudio/best"@
    }
}

pub fn selected_format_selector(format: &AvailableFormat) -> (r: String)
    ensures
        r@ == selected_format_selector_text(format.id@, format.has_audio),
        starts_with(r@, format.id@),
        ends_with(r@, "/best"@),
        format.has_audio ==> r@.len() == format.id@.len() + 5,
        !format.has_audio ==> r@.subrange(format.id@.len() as int, format.id@.len() + 10int)
            == "+bestaudio"@,
{
    proof {
        reveal_strlit("/best");
        reveal_strlit("+bestaudio/best");
        reveal_strlit("+bestaudio");
        let t = selected_format_selector_text(format.id@, format.has_audio);
        let n = format.id@.len() as int;
        assert(t.subrange(0, n) =~= format.id@);
        assert(t.subrange(t.len() - 5, t.len() as int) =~= "/best"@);
        if !format.has_audio {
            assert(t.subrange(n, n + 10) =~= "+bestaudio"@);
        }
    }
    let mut r = format.id.clone();
    if format.has_audio {
        append_str(&mut r, "/best");
    } else {
        append_str(&mut r, "+bestaudio/best");
    }
    r
}

/// The codec family: the part of a codec string before its first `.`.
pub open spec fn short_codec_text(codec: Seq<char>) -> Seq<char> {
    match find(codec, "."@) {
        Some(i) => codec.subrange(0, i),
        None => codec,
    }
}

pub fn short_codec(codec: &str) -> (r: String)
    ensures
        r@ == short_codec_text(codec@),
        starts_with(codec@, r@),
        forall|i: int| 0 <= i < r@.len() ==> r@[i] != '.',
        r@.len() < codec@.len() ==> codec@[r@.len() as int] == '.',
{
    let c = chars_of(codec);
    let dot = chars_of(".");
    proof {
        reveal_strlit(".");
        assert forall|j: int| 0 <= j < c@.len() && c@[j] == '.' implies occurs_at(c@, dot@, j) by {
            assert(c@.subrange(j, j + 1) =~= dot@);
        }
    }
    match find_chars(&c, &dot) {
        Some(i) => {
            assert(c@.subrange(i as int, i + 1)[0] == '.');
            assert forall|k: int| 0 <= k < i implies c@[k] != '.' by {
                if c@[k] == '.' {
                    assert(occurs_at(c@, dot@, k));
                }
            }
            let r = string_from_range(&c, 0, i);
            assert(c@.subrange(0, i as int) =~= r@);
            r
        },
        None => {
            assert forall|k: int| 0 <= k < c@.len() implies c@[k] != '.' by {
                if c@[k] == '.' {
                    assert(occurs_at(c@, dot@, k));
                }
            }
            let r = string_from_chars(&c);
            assert(c@.subrange(0, c@.len() as int) =~= r@);
            r
        },
    }
}

/// The part of a `yt-dlp` progress line after ` at `, or the whole trimmed line.
pub open spec fn compact_download_detail_text(line: Seq<char>) -> Seq<char> {
    let t = trim(line);
    match find(t, " at "@) {
        Some(i) => t.subrange(i + 4, t.len() as int),
        None => t,
    }
}

pub fn compact_download_detail(line: &str) -> (r: String)
    ensures
        r@ == compact_download_detail_text(line@),
        ends_with(trim(line@), r@),
        !contains(trim(line@), " at "@) ==> r@ == trim(line@),
        contains(trim(line@), " at "@) ==> r@.len() + 4 <= trim(line@).len(),
{
    let t = trimmed(line);
    let tv = chars_of(t.as_str());
    let at = chars_of(" at ");
    proof {
        reveal_strlit(" at ");
        assert(at@.len() == 4);
    }
    match find_chars(&tv, &at) {
        Some(i) => {
            assert(occurs_at(tv@, at@, i as int));
            assert(i + 4 <= tv.len());
            let r = string_from_range(&tv, i + 4, tv.len());
            assert(tv@.subrange(tv@.len() - r@.len(), tv@.len() as int) =~= r@);
            assert(contains(tv@, at@));
            r
        },
        None => {
            assert(!contains(tv@, at@));
            assert(tv@.subrange(0, tv@.len() as int) =~= tv@);
            t
        },
    }
}

/// The encoder actually used: Apple hardware encoding exists only on macOS.
pub open spec fn effective_encoder(mode: EncoderMode, is_macos: bool) -> EncoderMode {
    if mode == EncoderMode::AppleHardware && !is_macos {
        EncoderMode::CpuX264
    } else {
        mode
    }
}

pub fn effective_encoder_mode(encoder_mode: EncoderMode, is_macos: bool) -> (r: EncoderMode)
    ensures
        r == effective_encoder(encoder_mode, is_macos),
        is_macos ==> r == encoder_mode,
        !is_macos ==> r == EncoderMode::CpuX264,
        encoder_mode == EncoderMode::CpuX264 ==> r == EncoderMode::CpuX264,
{
    if encoder_mode == EncoderMode::AppleHardware && !is_macos {
        EncoderMode::CpuX264
    } else {
        encoder_mode
    }
}

/// The `ffmpeg` video encoder arguments for a mode.
pub open spec fn video_encoder_arg_texts(mode: EncoderMode) -> Seq<Seq<char>> {
    match mode {
        EncoderMode::AppleHardware => seq![
            "-c:v"@,
            "h264_videotoolbox"@,
            "-b:v"@,
            "6000k"@,
            "-pix_fmt"@,
            "yuv420p"@,
        ],
        EncoderMode::CpuX264 => seq![
            "-c:v"@,
            "libx264"@,
            "-preset"@,
            "fast"@,
            "-crf"@,
            "23"@,
            "-pix_fmt"@,
            "yuv420p"@,
        ],
    }
}

/// The views of a vector of string slices.
pub open spec fn strs_view(v: Seq<&str>) -> Seq<Seq<char>> {
    v.map_values(|s: &str| s@)
}

/// The views of a vector of strings.
pub open spec fn strings_view(v: Seq<String>) -> Seq<Seq<char>> {
    v.map_values(|s: String| s@)
}

/// The arguments that `append_video_encoder_args` adds to an `ffmpeg` command.
pub fn video_encoder_args(encoder_mode: EncoderMode) -> (r: Vec<&'static str>)
    ensures
        strs_view(r@) == video_encoder_arg_texts(encoder_mode),
{
    let mut r: Vec<&'static str> = Vec::new();
    match encoder_mode {
        EncoderMode::AppleHardware => {
            r.push("-c:v");
            r.push("h264_videotoolbox");
            r.push("-b:v");
            r.push("6000k");
            r.push("-pix_fmt");
            r.push("yuv420p");
        },
        EncoderMode::CpuX264 => {
            r.push("-c:v");
            r.push("libx264");
            r.push("-preset");
            r.push("fast");
            r.push("-crf");
            r.push("23");
            r.push("-pix_fmt");
            r.push("yuv420p");
        },
    }
    assert(strs_view(r@) =~= video_encoder_arg_texts(encoder_mode));
    r
}

/// A character of a number as `yt-dlp` prints it: an ASCII digit or `.`.
pub open spec fn is_number_char(c: char) -> bool {
    (48 <= (c as u32) <= 57) || c == '.'
}

/// `s[k..]` is the longest run of number characters that ends `s`.
pub open spec fn is_number_run_start(s: Seq<char>, k: int) -> bool {
    &&& 0 <= k <= s.len()
    &&& forall|i: int| k <= i < s.len() ==> is_number_char(#[trigger] s[i])
    &&& k == 0 || !is_number_char(s[k - 1])
}

/// Where the run of number characters that ends `s` begins.
pub open spec fn number_run_start(s: Seq<char>) -> int {
    choose|k: int| #[trigger] is_number_run_start(s, k)
}

/// Text that `f64::from_str` accepts among texts of digits and dots: at most one dot and
/// at least one digit.
pub open spec fn is_decimal_literal(s: Seq<char>) -> bool {
    &&& forall|i: int| 0 <= i < s.len() ==> is_number_char(#[trigger] s[i])
    &&& forall|i: int, j: int|
        0 <= i < s.len() && 0 <= j < s.len() && s[i] == '.' && s[j] == '.' ==> i == j
    &&& exists|i: int| 0 <= i < s.len() && #[trigger] s[i] != '.'
}

/// The number in front of the first `%` of a line, when it is one.
pub open spec fn percent_text(line: Seq<char>) -> Option<Seq<char>> {
    match find(line, "%"@) {
        Some(p) => {
            let prefix = line.subrange(0, p);
            let candidate = prefix.subrange(number_run_start(prefix), p);
            if is_decimal_literal(candidate) {
                Some(candidate)
            } else {
                None
            }
        },
        None => None,
    }
}

/// Reading the percentage of a line slices its text in the middle of a character: the
/// character just before the number in front of the first `%` is not ASCII.
pub open spec fn percent_slice_splits_char(line: Seq<char>) -> bool {
    match find(line, "%"@) {
        Some(p) => {
            let prefix = line.subrange(0, p);
            let k = number_run_start(prefix);
            k > 0 && (prefix[k - 1] as u32) >= 128
        },
        None => false,
    }
}

fn is_number_char_exec(c: char) -> (b: bool)
    ensures
        b == is_number_char(c),
{
    let u = c as u32;
    (48 <= u && u <= 57) || c == '.'
}

/// The start of the run of number characters that ends `v[..end]`.
fn number_run_start_exec(v: &Vec<char>, end: usize) -> (k: usize)
    requires
        end <= v.len(),
    ensures
        k <= end,
        k == number_run_start(v@.subrange(0, end as int)),
        is_number_run_start(v@.subrange(0, end as int), k as int),
{
    let ghost s = v@.subrange(0, end as int);
    let mut k = end;
    while k > 0 && is_number_char_exec(v[k - 1])
        invariant
            k <= end <= v.len(),
            s == v@.subrange(0, end as int),
            forall|i: int| k <= i < end ==> is_number_char(#[trigger] s[i]),
        decreases k,
    {
        k = k - 1;
    }
    proof {
        assert(is_number_run_start(s, k as int));
        let c = number_run_start(s);
        assert(is_number_run_start(s, c));
        if c < k {
            assert(is_number_char(s[k - 1]));
        } else if c > k {
            assert(is_number_char(s[c - 1]));
        }
    }
    k
}

fn is_decimal_literal_exec(v: &Vec<char>, from: usize, to: usize) -> (b: bool)
    requires
        from <= to <= v.len(),
        forall|i: int| from <= i < to ==> is_number_char(#[trigger] v@[i]),
    ensures
        b == is_decimal_literal(v@.subrange(from as int, to as int)),
{
    let ghost s = v@.subrange(from as int, to as int);
    let mut dots: usize = 0;
    let mut dot_at: usize = 0;
    let mut digit_seen = false;
    let mut i = from;
    while i < to
        invariant
            from <= i <= to <= v.len(),
            s == v@.subrange(from as int, to as int),
            dots <= 2,
            dots == 0 ==> forall|j: int| from <= j < i ==> v@[j] != '.',
            dots >= 1 ==> from <= dot_at < i && v@[dot_at as int] == '.',
            dots == 1 ==> forall|j: int| from <= j < i && v@[j] == '.' ==> j == dot_at,
            dots == 2 ==> exists|j: int| from <= j < i && v@[j] == '.' && j != dot_at,
            digit_seen <==> exists|j: int| from <= j < i && #[trigger] v@[j] != '.',
        decreases to - i,
    {
        if v[i] == '.' {
            if dots == 0 {
                dot_at = i;
                dots = 1;
            } else if dots == 1 {
                dots = 2;
            }
        } else {
            digit_seen = true;
        }
        i = i + 1;
    }
    proof {
        if dots == 2 {
            let j = choose|j: int| from <= j < to && v@[j] == '.' && j != dot_at;
            assert(s[j - from] == '.' && s[dot_at - from] == '.');
            assert(!is_decimal_literal(s));
        } else {
            assert forall|a: int, b: int|
                0 <= a < s.len() && 0 <= b < s.len() && s[a] == '.' && s[b] == '.' implies a
                == b by {
                assert(v@[from + a] == '.' && v@[from + b] == '.');
            }
        }
        if digit_seen {
            let j = choose|j: int| from <= j < to && #[trigger] v@[j] != '.';
            assert(s[j - from] != '.');
        } else {
            assert forall|j: int| 0 <= j < s.len() implies #[trigger] s[j] == '.' by {
                assert(s[j] == v@[from + j]);
            }
        }
        assert forall|j: int| 0 <= j < s.len() implies is_number_char(#[trigger] s[j]) by {
            assert(s[j] == v@[from + j]);
        }
    }
    dots <= 1 && digit_seen
}

/// Whether reading the percentage of `line` stays on character boundaries.
pub fn percent_slice_on_char_boundary(line: &str) -> (b: bool)
    ensures
        b == !percent_slice_splits_char(line@),
{
    let v = chars_of(line);
    let pct = chars_of("%");
    match find_chars(&v, &pct) {
        Some(p) => {
            let k = number_run_start_exec(&v, p);
            proof {
                if k > 0 {
                    assert(v@.subrange(0, p as int)[k - 1] == v@[k - 1]);
                }
            }
            !(k > 0 && (v[k - 1] as u32) >= 128)
        },
        None => true,
    }
}

/// The number in front of the first `%` of `line`, when it is one, as text (the caller
/// turns it into a float).
pub fn parse_percent_text(line: &str) -> (r: Option<String>)
    requires
        !percent_slice_splits_char(line@),
    ensures
        opt_view(r) == percent_text(line@),
        r matches Some(t) ==> is_decimal_literal(t@),
{
    let v = chars_of(line);
    let pct = chars_of("%");
    match find_chars(&v, &pct) {
        Some(p) => {
            let k = number_run_start_exec(&v, p);
            let ghost prefix = v@.subrange(0, p as int);
            assert(prefix.subrange(k as int, p as int) == v@.subrange(k as int, p as int));
            assert forall|i: int| k <= i < p implies is_number_char(#[trigger] v@[i]) by {
                assert(v@[i] == prefix[i]);
            }
            if is_decimal_literal_exec(&v, k, p) {
                Some(string_from_range(&v, k, p))
            } else {
                None
            }
        },
        None => None,
    }
}

/// A `yt-dlp` download progress line, split into what the progress display shows.
pub struct DownloadProgressLine {
    /// Always `Downloading`.
    pub stage: String,
    /// The percentage as printed, such as `42.5`.
    pub percent: String,
    /// What follows ` at ` in the line: speed and time left.
    pub detail: String,
}

/// `parse_ytdlp_progress` up to the conversion of the percentage into a float: lines
/// with `[download]` and a percentage give the stage, the percentage text and the detail.
pub open spec fn ytdlp_progress_parts(line: Seq<char>) -> Option<(Seq<char>, Seq<char>, Seq<char>)> {
    if !contains(line, "[download]"@) {
        None
    } else {
        match percent_text(line) {
            Some(p) => Some(("Downloading"@, p, compact_download_detail_text(line))),
            None => None,
        }
    }
}

pub fn parse_ytdlp_progress(line: &str) -> (r: Option<DownloadProgressLine>)
    requires
        contains(line@, "[download]"@) ==> !percent_slice_splits_char(line@),
    ensures
        match r {
            Some(d) => ytdlp_progress_parts(line@) == Some((d.stage@, d.percent@, d.detail@))
                && is_decimal_literal(d.percent@),
            None => ytdlp_progress_parts(line@) is None,
        },
{
    if !str_contains(line, "[download]") {
        return None;
    }
    let percent = match parse_percent_text(line) {
        Some(p) => p,
        None => return None,
    };
    let detail = compact_download_detail(line);
    Some(DownloadProgressLine { stage: to_owned_string("Downloading"), percent, detail })
}

/// The value of an `ffmpeg -progress` output time line.
pub enum OutTimeField {
    /// `out_time=` followed by `hours:minutes:seconds`.
    Clock(String),
    /// `out_time_us=` or `out_time_ms=` followed by microseconds.
    Microseconds(String),
}

/// `(is_clock, value)` for an output time line.
pub open spec fn out_time_field_text(line: Seq<char>) -> Option<(bool, Seq<char>)> {
    if starts_with(line, "out_time="@) {
        Some((true, line.subrange(9, line.len() as int)))
    } else if starts_with(line, "out_time_us="@) {
        Some((false, line.subrange(12, line.len() as int)))
    } else if starts_with(line, "out_time_ms="@) {
        Some((false, line.subrange(12, line.len() as int)))
    } else {
        None
    }
}

/// `parse_ffmpeg_out_time` up to the conversion into seconds: which time field a line
/// holds, and its text.
pub fn out_time_field(line: &str) -> (r: Option<OutTimeField>)
    ensures
        out_time_field_text(line@) == match r {
            Some(OutTimeField::Clock(v)) => Some((true, v@)),
            Some(OutTimeField::Microseconds(v)) => Some((false, v@)),
            None => None,
        },
{
    let v = chars_of(line);
    proof {
        reveal_strlit("out_time=");
        reveal_strlit("out_time_us=");
        reveal_strlit("out_time_ms=");
    }
    if chars_start_with(&v, "out_time=") {
        return Some(OutTimeField::Clock(string_from_range(&v, 9, v.len())));
    }
    if chars_start_with(&v, "out_time_us=") {
        return Some(OutTimeField::Microseconds(string_from_range(&v, 12, v.len())));
    }
    if chars_start_with(&v, "out_time_ms=") {
        return Some(OutTimeField::Microseconds(string_from_range(&v, 12, v.len())));
    }
    None
}

/// The three `:`-separated parts of a trimmed clock time, when there are exactly three.
pub open spec fn clock_parts_text(value: Seq<char>) -> Option<(Seq<char>, Seq<char>, Seq<char>)> {
    let t = trim(value);
    match find(t, ":"@) {
        Some(i) => {
            let rest = t.subrange(i + 1, t.len() as int);
            match find(rest, ":"@) {
                Some(j) => {
                    let tail = rest.subrange(j + 1, rest.len() as int);
                    if contains(tail, ":"@) {
                        None
                    } else {
                        Some((t.subrange(0, i), rest.subrange(0, j), tail))
                    }
                },
                None => None,
            }
        },
        None => None,
    }
}

/// `parse_hms_time` up to the conversion of each part into a float.
pub fn clock_parts(value: &str) -> (r: Option<(String, String, String)>)
    ensures
        clock_parts_text(value@) == match r {
            Some((h, m, s)) => Some((h@, m@, s@)),
            None => None,
        },
{
    let t = trimmed(value);
    let tv = chars_of(t.as_str());
    let colon = chars_of(":");
    proof {
        reveal_strlit(":");
    }
    let i = match find_chars(&tv, &colon) {
        Some(i) => i,
        None => return None,
    };
    assert(i + 1 <= tv.len());
    let rest = string_from_range(&tv, i + 1, tv.len());
    let rv = chars_of(rest.as_str());
    let j = match find_chars(&rv, &colon) {
        Some(j) => j,
        None => return None,
    };
    assert(j + 1 <= rv.len());
    let tail = string_from_range(&rv, j + 1, rv.len());
    if str_contains(tail.as_str(), ":") {
        return None;
    }
    Some((string_from_range(&tv, 0, i), string_from_range(&rv, 0, j), tail))
}

/// A number below 100 with at least two digits (`{:02}`).
pub open spec fn two_digits(n: nat) -> Seq<char> {
    if n < 10 {
        seq!['0'] + decimal(n)
    } else {
        decimal(n)
    }
}

/// `h:mm:ss` when there are hours, else `m:ss`, for a number of whole seconds.
pub open spec fn clock_text(total: nat) -> Seq<char> {
    let hours = total / 3600;
    let minutes = (total % 3600) / 60;
    let seconds = total % 60;
    if hours > 0 {
        decimal(hours) + seq![':'] + two_digits(minutes) + seq![':'] + two_digits(seconds)
    } else {
        decimal(minutes) + seq![':'] + two_digits(seconds)
    }
}

fn push_two_digits(s: &mut String, n: u64)
    ensures
        final(s)@ == old(s)@ + two_digits(n as nat),
{
    if n < 10 {
        push_char(s, '0');
    }
    push_decimal(s, n);
}

/// `format_duration` after rounding: whole seconds as a clock time.
pub fn format_clock(total_seconds: u64) -> (r: String)
    ensures
        r@ == clock_text(total_seconds as nat),
{
    let hours = total_seconds / 3600;
    let minutes = (total_seconds % 3600) / 60;
    let seconds = total_seconds % 60;
    let mut r = String::new();
    if hours > 0 {
        push_decimal(&mut r, hours);
        push_char(&mut r, ':');
        push_two_digits(&mut r, minutes);
        push_char(&mut r, ':');
        push_two_digits(&mut r, seconds);
    } else {
        push_decimal(&mut r, minutes);
        push_char(&mut r, ':');
        push_two_digits(&mut r, seconds);
    }
    r
}

/// The fields of one entry of `yt-dlp -J`'s format list that the form reads.
///
/// Each field holds the JSON value under its key when it has the type named here, else
/// `None`. The two labels are that entry's frame rate and size already written out.
pub struct FormatRecord {
    /// `format_id`, when a string.
    pub format_id: Option<String>,
    /// `ext`, when a string.
    pub ext: Option<String>,
    /// `vcodec`, when a string.
    pub vcodec: Option<String>,
    /// `acodec`, when a string.
    pub acodec: Option<String>,
    /// `height`, when an unsigned integer.
    pub height: Option<u64>,
    /// `fps` written with no decimals when whole, else with two.
    pub fps_label: Option<String>,
    /// `filesize` (or, without that key, `filesize_approx`) in MiB, such as `~10.0MiB`.
    pub size_label: Option<String>,
}

/// The characters held by a [`FormatRecord`].
pub struct FormatRecordView {
    pub format_id: Option<Seq<char>>,
    pub ext: Option<Seq<char>>,
    pub vcodec: Option<Seq<char>>,
    pub acodec: Option<Seq<char>>,
    pub height: Option<u64>,
    pub fps_label: Option<Seq<char>>,
    pub size_label: Option<Seq<char>>,
}

impl View for FormatRecord {
    type V = FormatRecordView;

    open spec fn view(&self) -> FormatRecordView {
        FormatRecordView {
            format_id: opt_view(self.format_id),
            ext: opt_view(self.ext),
            vcodec: opt_view(self.vcodec),
            acodec: opt_view(self.acodec),
            height: self.height,
            fps_label: opt_view(self.fps_label),
            size_label: opt_view(self.size_label),
        }
    }
}

/// `o`, or `default` when it is `None`.
pub open spec fn or_text(o: Option<Seq<char>>, default: Seq<char>) -> Seq<char> {
    match o {
        Some(t) => t,
        None => default,
    }
}

/// A height that fits in a `u32`.
pub open spec fn height_u32(h: Option<u64>) -> Option<u32> {
    match h {
        Some(v) => if v <= u32::MAX {
            Some(v as u32)
        } else {
            None
        },
        None => None,
    }
}

/// The quality part of a format label: `1080p60`, `1080p`, `60fps` or `unknown`.
pub open spec fn quality_text(height: Option<u32>, fps: Option<Seq<char>>) -> Seq<char> {
    match (height, fps) {
        (Some(h), Some(f)) => decimal(h as nat) + "p"@ + f,
        (Some(h), None) => decimal(h as nat) + "p"@,
        (None, Some(f)) => f + "fps"@,
        (None, None) => "unknown"@,
    }
}

/// The label of a format row: quality, container, codec family, audio, id and size.
pub open spec fn format_label_text(
    quality: Seq<char>,
    ext: Seq<char>,
    vcodec: Seq<char>,
    has_audio: bool,
    id: Seq<char>,
    size: Option<Seq<char>>,
) -> Seq<char> {
    let audio = if has_audio {
        "with audio"@
    } else {
        "video-only"@
    };
    let base = quality + " "@ + ext + " "@ + short_codec_text(vcodec) + " "@ + audio + " id="@
        + id;
    match size {
        Some(s) => base + " "@ + s,
        None => base,
    }
}

/// A format's label says whether the format carries audio.
pub proof fn lemma_label_names_audio(
    quality: Seq<char>,
    ext: Seq<char>,
    vcodec: Seq<char>,
    has_audio: bool,
    id: Seq<char>,
    size: Option<Seq<char>>,
)
    ensures
        has_audio ==> contains(format_label_text(quality, ext, vcodec, has_audio, id, size), "with audio"@),
        !has_audio ==> contains(format_label_text(quality, ext, vcodec, has_audio, id, size), "video-only"@),
{
    let audio = if has_audio {
        "with audio"@
    } else {
        "video-only"@
    };
    let front = quality + " "@ + ext + " "@ + short_codec_text(vcodec) + " "@;
    let back = " id="@ + id;
    let label = format_label_text(quality, ext, vcodec, has_audio, id, size);
    let rest = match size {
        Some(s) => " "@ + s,
        None => Seq::empty(),
    };
    assert(label =~= front + audio + back + rest);
    let i = front.len() as int;
    assert(label.subrange(i, i + audio.len()) =~= audio);
    assert(occurs_at(label, audio, i));
}

/// A format's label starts with its quality and names its container, codec family and id,
/// and ends with its size when it has one.
pub proof fn lemma_label_parts(
    quality: Seq<char>,
    ext: Seq<char>,
    vcodec: Seq<char>,
    has_audio: bool,
    id: Seq<char>,
    size: Option<Seq<char>>,
)
    ensures
        ({
            let label = format_label_text(quality, ext, vcodec, has_audio, id, size);
            &&& starts_with(label, quality + " "@ + ext + " "@ + short_codec_text(vcodec) + " "@)
            &&& match size {
                Some(s) => ends_with(label, " id="@ + id + " "@ + s),
                None => ends_with(label, " id="@ + id),
            }
        }),
{
    let audio = if has_audio {
        "with audio"@
    } else {
        "video-only"@
    };
    let front = quality + " "@ + ext + " "@ + short_codec_text(vcodec) + " "@;
    let back = " id="@ + id;
    let label = format_label_text(quality, ext, vcodec, has_audio, id, size);
    match size {
        Some(s) => {
            assert(label =~= front + audio + (back + " "@ + s));
            assert(label.subrange(label.len() - (back + " "@ + s).len(), label.len() as int) =~= back
                + " "@ + s);
        },
        None => {
            assert(label =~= front + audio + back);
            assert(label.subrange(label.len() - back.len(), label.len() as int) =~= back);
        },
    }
    assert(label.subrange(0, front.len() as int) =~= front);
}

/// The form row for a format list entry: none for an entry without a string id, or
/// without video (`vcodec` missing or `none`).
pub open spec fn available_format_of(r: FormatRecordView) -> Option<AvailableFormatView> {
    let ext = or_text(r.ext, "unknown"@);
    let vcodec = or_text(r.vcodec, "none"@);
    let acodec = or_text(r.acodec, "none"@);
    let has_audio = acodec != "none"@;
    let height = height_u32(r.height);
    match r.format_id {
        None => None,
        Some(id) => if vcodec == "none"@ {
            None
        } else {
            Some(
                AvailableFormatView {
                    id,
                    label: format_label_text(
                        quality_text(height, r.fps_label),
                        ext,
                        vcodec,
                        has_audio,
                        id,
                        r.size_label,
                    ),
                    ext,
                    vcodec,
                    acodec,
                    height,
                    fps_label: r.fps_label,
                    has_audio,
                },
            )
        },
    }
}

fn text_or(o: &Option<String>, default: &str) -> (r: String)
    ensures
        r@ == or_text(opt_view(*o), default@),
{
    match o {
        Some(t) => t.clone(),
        None => to_owned_string(default),
    }
}

fn copy_opt(o: &Option<String>) -> (r: Option<String>)
    ensures
        opt_view(r) == opt_view(*o),
{
    match o {
        Some(t) => Some(t.clone()),
        None => None,
    }
}

/// The view of an optional format row.
pub open spec fn opt_format_view(f: Option<AvailableFormat>) -> Option<AvailableFormatView> {
    match f {
        Some(v) => Some(v@),
        None => None,
    }
}

/// The form row for one format list entry.
pub fn parse_available_format(record: &FormatRecord) -> (r: Option<AvailableFormat>)
    ensures
        opt_format_view(r) == available_format_of(record@),
        r is Some <==> (record@.format_id is Some && (record@.vcodec matches Some(v) && v
            != "none"@)),
        r matches Some(f) ==> (f@.id == record@.format_id.unwrap() && (f.has_audio <==> (
        record@.acodec matches Some(a) && a != "none"@)) && (f.has_audio ==> contains(
            f@.label,
            "with audio"@,
        )) && (!f.has_audio ==> contains(f@.label, "video-only"@))),
        r matches Some(f) ==> ({
            let ext = match record@.ext {
                Some(e) => e,
                None => "unknown"@,
            };
            let codec = short_codec_text(record@.vcodec.unwrap());
            let quality = match (f.height, record@.fps_label) {
                (Some(h), Some(fps)) => decimal(h as nat) + "p"@ + fps,
                (Some(h), None) => decimal(h as nat) + "p"@,
                (None, Some(fps)) => fps + "fps"@,
                (None, None) => "unknown"@,
            };
            &&& f@.ext == ext
            &&& f@.vcodec == record@.vcodec.unwrap()
            &&& f@.fps_label == record@.fps_label
            &&& (f.height == if record@.height matches Some(h) && h <= u32::MAX {
                Some(record@.height.unwrap() as u32)
            } else {
                None
            })
            &&& starts_with(f@.label, quality + " "@ + ext + " "@ + codec + " "@)
            &&& match record@.size_label {
                Some(s) => ends_with(f@.label, " id="@ + f@.id + " "@ + s),
                None => ends_with(f@.label, " id="@ + f@.id),
            }
        }),
{
    proof {
        let v = record@;
        match available_format_of(v) {
            Some(f) => {
                lemma_label_parts(
                    quality_text(height_u32(v.height), v.fps_label),
                    or_text(v.ext, "unknown"@),
                    or_text(v.vcodec, "none"@),
                    f.has_audio,
                    f.id,
                    v.size_label,
                );
                lemma_label_names_audio(
                    quality_text(height_u32(v.height), v.fps_label),
                    or_text(v.ext, "unknown"@),
                    or_text(v.vcodec, "none"@),
                    f.has_audio,
                    f.id,
                    v.size_label,
                );
            },
            None => {},
        }
    }
    let id = match &record.format_id {
        Some(id) => id.clone(),
        None => return None,
    };
    let ext = text_or(&record.ext, "unknown");
    let vcodec = text_or(&record.vcodec, "none");
    if str_eq(vcodec.as_str(), "none") {
        return None;
    }
    let acodec = text_or(&record.acodec, "none");
    let has_audio = !str_eq(acodec.as_str(), "none");
    let height: Option<u32> = match record.height {
        Some(h) => if h <= 4294967295u64 {
            Some(h as u32)
        } else {
            None
        },
        None => None,
    };
    let fps_label = copy_opt(&record.fps_label);
    let codec = short_codec(vcodec.as_str());
    let mut label = String::new();
    match height {
        Some(h) => {
            push_decimal(&mut label, h as u64);
            push_char(&mut label, 'p');
            match &fps_label {
                Some(f) => append_str(&mut label, f.as_str()),
                None => {},
            }
        },
        None => match &fps_label {
            Some(f) => {
                append_str(&mut label, f.as_str());
                append_str(&mut label, "fps");
            },
            None => append_str(&mut label, "unknown"),
        },
    }
    proof {
        reveal_strlit("p");
    }
    assert(label@ == quality_text(height, opt_view(fps_label)));
    push_char(&mut label, ' ');
    append_str(&mut label, ext.as_str());
    push_char(&mut label, ' ');
    append_str(&mut label, codec.as_str());
    push_char(&mut label, ' ');
    if has_audio {
        append_str(&mut label, "with audio");
    } else {
        append_str(&mut label, "video-only");
    }
    append_str(&mut label, " id=");
    append_str(&mut label, id.as_str());
    match &record.size_label {
        Some(size) => {
            push_char(&mut label, ' ');
            append_str(&mut label, size.as_str());
        },
        None => {},
    }
    proof {
        reveal_strlit(" ");
    }
    assert(height == height_u32(record.height));
    assert(has_audio == (acodec@ != "none"@));
    assert(ext@ == or_text(opt_view(record.ext), "unknown"@));
    assert(label@ == format_label_text(
        quality_text(height, opt_view(fps_label)),
        ext@,
        vcodec@,
        has_audio,
        id@,
        opt_view(record.size_label),
    ));
    Some(AvailableFormat { id, label, ext, vcodec, acodec, height, fps_label, has_audio })
}

/// The form rows of a format list, in list order, skipping entries that give none.
pub open spec fn available_formats_of(records: Seq<FormatRecordView>) -> Seq<AvailableFormatView> {
    records.filter_map(|r: FormatRecordView| available_format_of(r))
}

/// The views of a vector of format rows.
pub open spec fn formats_view(v: Seq<AvailableFormat>) -> Seq<AvailableFormatView> {
    v.map_values(|f: AvailableFormat| f@)
}

/// The views of a vector of format list entries.
pub open spec fn records_view(v: Seq<FormatRecord>) -> Seq<FormatRecordView> {
    v.map_values(|f: FormatRecord| f@)
}

/// The selectable rows of a format list, in list order.
pub fn available_format_rows(records: &Vec<FormatRecord>) -> (rows: Vec<AvailableFormat>)
    ensures
        formats_view(rows@) == available_formats_of(records_view(records@)),
{
    let mut rows: Vec<AvailableFormat> = Vec::new();
    let mut i: usize = 0;
    while i < records.len()
        invariant
            i <= records.len(),
            formats_view(rows@) == available_formats_of(records_view(records@).take(i as int)),
        decreases records.len() - i,
    {
        let ghost taken = records_view(records@).take(i as int + 1);
        assert(taken.drop_last() == records_view(records@).take(i as int));
        assert(taken.last() == records@[i as int]@);
        let ghost before = formats_view(rows@);
        match parse_available_format(&records[i]) {
            Some(f) => {
                rows.push(f);
                assert(formats_view(rows@) =~= before + seq![f@]);
            },
            None => {},
        }
        assert(formats_view(rows@) == available_formats_of(taken));
        i = i + 1;
    }
    assert(records_view(records@).take(records.len() as int) == records_view(records@));
    rows
}

/// The sorted rows, or the error shown when no row is selectable.
pub fn require_selectable_formats(rows: Vec<AvailableFormat>) -> (r: Result<
    Vec<AvailableFormat>,
    String,
>)
    ensures
        rows@.len() == 0 ==> (r matches Err(e) && e@ == "No selectable video formats were found."@),
        rows@.len() > 0 ==> r == Ok::<Vec<AvailableFormat>, String>(rows),
{
    if rows.len() == 0 {
        Err(to_owned_string("No selectable video formats were found."))
    } else {
        Ok(rows)
    }
}

/// A URL that names a playlist (`list=`) but no single video (no `v=` parameter and no
/// `youtu.be/` short link).
pub open spec fn is_playlist_only_url(url: Seq<char>) -> bool {
    contains(url, "list="@) && !contains(url, "v="@) && !contains(url, "youtu.be/"@)
}

pub fn looks_like_playlist_only_url(url: &str) -> (b: bool)
    ensures
        b == is_playlist_only_url(url@),
        contains(url@, "v="@) ==> !b,
        contains(url@, "youtu.be/"@) ==> !b,
        !contains(url@, "list="@) ==> !b,
        contains(url@, "list="@) && !contains(url@, "v="@) && !contains(url@, "youtu.be/"@) ==> b,
{
    str_contains(url, "list=") && !str_contains(url, "v=") && !str_contains(url, "youtu.be/")
}

/// Why an exact source format cannot be kept in a container: WebM streams do not go into
/// `mp4`, and `mp4` streams do not go into `webm`; `mkv` takes both.
pub open spec fn container_error_text(id: Seq<char>, ext: Seq<char>, container: Seq<char>) -> Option<
    Seq<char>,
> {
    if (container == "mp4"@ && ext == "webm"@) || (container == "webm"@ && ext == "mp4"@) {
        Some(
            "Source format "@ + id + " ("@ + ext + ") cannot be saved as "@ + container
                + ". Choose mkv or a compatible source format."@,
        )
    } else {
        None
    }
}

pub fn selected_format_container_error(format: &AvailableFormat, container: &str) -> (r: Option<
    String,
>)
    ensures
        opt_view(r) == container_error_text(format.id@, format.ext@, container@),
        (container@ == "mp4"@ && format.ext@ == "webm"@) ==> r is Some,
        (container@ == "webm"@ && format.ext@ == "mp4"@) ==> r is Some,
        (container@ == "mkv"@ || container@ == format.ext@) ==> r is None,
{
    proof {
        reveal_strlit("mkv");
        reveal_strlit("mp4");
        reveal_strlit("webm");
        assert("mkv"@ != "mp4"@ && "mkv"@ != "webm"@ && "mp4"@ != "webm"@) by {
            assert("mkv"@[1] != "mp4"@[1]);
            assert("mkv"@.len() != "webm"@.len());
            assert("mp4"@.len() != "webm"@.len());
        }
    }
    let e = format.ext.as_str();
    if (str_eq(container, "mp4") && str_eq(e, "webm")) || (str_eq(container, "webm") && str_eq(
        e,
        "mp4",
    )) {
        let mut m = to_owned_string("Source format ");
        append_str(&mut m, format.id.as_str());
        append_str(&mut m, " (");
        append_str(&mut m, e);
        append_str(&mut m, ") cannot be saved as ");
        append_str(&mut m, container);
        append_str(&mut m, ". Choose mkv or a compatible source format.");
        Some(m)
    } else {
        None
    }
}

/// `str::eq_ignore_ascii_case`: the texts are equal once ASCII letters are lowered.
pub open spec fn eq_ignore_ascii_case(a: Seq<char>, b: Seq<char>) -> bool {
    a.len() == b.len() && forall|i: int| 0 <= i < a.len() ==> ascii_lower(#[trigger] a[i]) == ascii_lower(b[i])
}

pub fn eq_ignore_ascii_case_exec(a: &str, b: &str) -> (r: bool)
    ensures
        r == eq_ignore_ascii_case(a@, b@),
{
    let x = chars_of(a);
    let y = chars_of(b);
    if x.len() != y.len() {
        return false;
    }
    let mut i: usize = 0;
    while i < x.len()
        invariant
            i <= x.len() == y.len(),
            x@ == a@,
            y@ == b@,
            forall|k: int| 0 <= k < i ==> ascii_lower(#[trigger] x@[k]) == ascii_lower(y@[k]),
        decreases x.len() - i,
    {
        if ascii_lower_char(x[i]) != ascii_lower_char(y[i]) {
            return false;
        }
        i = i + 1;
    }
    true
}

/// An entry of a folder listing.
pub struct FolderEntry {
    pub path: String,
    /// The entry is a regular file.
    pub is_file: bool,
}

/// The path of an entry that is a file with extension `ext`, in any ASCII case.
pub open spec fn file_with_extension(e: FolderEntry, ext: Seq<char>) -> Option<Seq<char>> {
    if e.is_file && (path_extension_of(e.path@) matches Some(x) && eq_ignore_ascii_case(x, ext)) {
        Some(e.path@)
    } else {
        None
    }
}

/// No text occurs twice in `s`.
pub open spec fn distinct_texts(s: Seq<Seq<char>>) -> bool {
    forall|a: int, b: int| 0 <= a < b < s.len() ==> #[trigger] s[a] != #[trigger] s[b]
}

/// The paths of a folder listing.
pub open spec fn entry_paths(entries: Seq<FolderEntry>) -> Seq<Seq<char>> {
    entries.map_values(|e: FolderEntry| e.path@)
}

/// The files of a folder listing whose extension is `ext`, in any ASCII case, in listing
/// order: the folder snapshot taken before a download. A listing without repeated paths,
/// as a folder's is, gives a snapshot without repeated paths.
pub fn snapshot_files(entries: &Vec<FolderEntry>, ext: &str) -> (r: Vec<String>)
    ensures
        strings_view(r@) == entries@.filter_map(|e: FolderEntry| file_with_extension(e, ext@)),
        distinct_texts(entry_paths(entries@)) ==> distinct_texts(strings_view(r@)),
{
    let mut r: Vec<String> = Vec::new();
    let ghost mut idx: Seq<int> = Seq::empty();
    let mut i: usize = 0;
    while i < entries.len()
        invariant
            i <= entries.len(),
            strings_view(r@) == entries@.take(i as int).filter_map(
                |e: FolderEntry| file_with_extension(e, ext@),
            ),
            idx.len() == r@.len(),
            forall|j: int| 0 <= j < idx.len() ==> 0 <= #[trigger] idx[j] < i,
            forall|j: int, k: int| 0 <= j < k < idx.len() ==> #[trigger] idx[j] < #[trigger] idx[k],
            forall|j: int| 0 <= j < idx.len() ==> #[trigger] r@[j]@ == entries@[idx[j]].path@,
        decreases entries.len() - i,
    {
        let e = &entries[i];
        let ghost t = entries@.take(i as int + 1);
        assert(t.drop_last() == entries@.take(i as int));
        assert(t.last() == entries@[i as int]);
        let ghost before = strings_view(r@);
        let keep = if e.is_file {
            match path_extension(e.path.as_str()) {
                Some(x) => eq_ignore_ascii_case_exec(x.as_str(), ext),
                None => false,
            }
        } else {
            false
        };
        if keep {
            r.push(e.path.clone());
            proof {
                idx = idx.push(i as int);
            }
            assert(strings_view(r@) =~= before.push(e.path@));
        } else {
            assert(strings_view(r@) =~= before);
        }
        assert(strings_view(r@) == t.filter_map(|e: FolderEntry| file_with_extension(e, ext@)));
        i = i + 1;
    }
    assert(entries@.take(entries.len() as int) == entries@);
    proof {
        if distinct_texts(entry_paths(entries@)) {
            let sv = strings_view(r@);
            assert forall|a: int, b: int| 0 <= a < b < sv.len() implies #[trigger] sv[a] != #[trigger] sv[b] by {
                assert(sv[a] == r@[a]@ && sv[b] == r@[b]@);
                assert(idx[a] < idx[b]);
                assert(entry_paths(entries@)[idx[a]] == entries@[idx[a]].path@);
                assert(entry_paths(entries@)[idx[b]] == entries@[idx[b]].path@);
            }
        }
    }
    r
}

/// A file found in the output folder after a download, with what the folder snapshot
/// taken before the download says about it.
pub struct FileCandidate {
    pub path: String,
    /// The path was in the snapshot taken before the download.
    pub in_snapshot: bool,
    /// The file's modification time could be read and is not before the download started.
    pub modified_since_start: bool,
}

/// A candidate counts as downloaded when it is new, or was modified since the start.
pub open spec fn is_new_download(c: FileCandidate) -> bool {
    !c.in_snapshot || c.modified_since_start
}

/// The path of a candidate that counts as downloaded.
pub open spec fn downloaded_path(c: FileCandidate) -> Option<Seq<char>> {
    if is_new_download(c) {
        Some(c.path@)
    } else {
        None
    }
}

/// The paths of the candidates that count as downloaded, in candidate order.
pub open spec fn downloaded_paths(candidates: Seq<FileCandidate>) -> Seq<Seq<char>> {
    candidates.filter_map(|c: FileCandidate| downloaded_path(c))
}

/// `files` holds the path of every candidate that appeared since the snapshot or was
/// modified since the start, and only such paths.
pub open spec fn kept_new_files(candidates: Seq<FileCandidate>, files: Seq<Seq<char>>) -> bool {
    &&& forall|k: int|
        0 <= k < candidates.len() && (!candidates[k].in_snapshot
            || candidates[k].modified_since_start) ==> files.contains(#[trigger] candidates[k].path@)
    &&& forall|i: int| 0 <= i < files.len() ==> is_new_candidate_path(candidates, #[trigger] files[i])
}

/// `path` is the path of a candidate that appeared since the snapshot or was modified since
/// the start.
pub open spec fn is_new_candidate_path(candidates: Seq<FileCandidate>, path: Seq<char>) -> bool {
    exists|k: int|
        0 <= k < candidates.len() && #[trigger] candidates[k].path@ == path && (
        !candidates[k].in_snapshot || candidates[k].modified_since_start)
}

proof fn lemma_kept_new_files(
    candidates: Seq<FileCandidate>,
    idx: Seq<int>,
    keys: Seq<Seq<char>>,
    order: Seq<usize>,
    files: Seq<Seq<char>>,
)
    requires
        is_stable_order(keys, order),
        files.len() == order.len(),
        forall|m: int| 0 <= m < files.len() ==> #[trigger] files[m] == keys[order[m] as int],
        idx.len() == keys.len(),
        forall|j: int| 0 <= j < idx.len() ==> 0 <= #[trigger] idx[j] < candidates.len(),
        forall|j: int| 0 <= j < idx.len() ==> #[trigger] keys[j] == candidates[idx[j]].path@,
        forall|j: int|
            0 <= j < idx.len() ==> (!candidates[#[trigger] idx[j]].in_snapshot
                || candidates[idx[j]].modified_since_start),
        forall|k: int|
            0 <= k < candidates.len() && (!candidates[k].in_snapshot
                || candidates[k].modified_since_start) ==> exists|j: int|
                0 <= j < idx.len() && #[trigger] idx[j] == k,
    ensures
        kept_new_files(candidates, files),
{
    crate::order::lemma_order_covers(keys, order);
    assert forall|k: int|
        0 <= k < candidates.len() && (!candidates[k].in_snapshot
            || candidates[k].modified_since_start) implies files.contains(
        #[trigger] candidates[k].path@,
    ) by {
        let j = choose|j: int| 0 <= j < idx.len() && #[trigger] idx[j] == k;
        assert(crate::order::index_listed(order, j));
        let m = choose|m: int| 0 <= m < order.len() && #[trigger] order[m] as int == j;
        assert(files[m] == keys[j]);
    }
    assert forall|m: int| 0 <= m < files.len() implies is_new_candidate_path(
        candidates,
        #[trigger] files[m],
    ) by {
        let j = order[m] as int;
        let k = idx[j];
        assert(files[m] == candidates[k].path@);
    }
}

/// The paths of the candidates that count as downloaded, sorted. Without repeated
/// candidate paths, as in a folder listing, they come in strictly ascending order.
///
/// `order` is the stable sort of the kept paths; with paths that share one folder, as those
/// of one folder listing do, this is the order of `Path`'s `Ord`.
pub fn new_downloaded_files(candidates: &Vec<FileCandidate>) -> (files: Vec<String>)
    ensures
        exists|kept: Seq<Seq<char>>, order: Seq<usize>|
            {
                &&& kept == downloaded_paths(candidates@)
                &&& is_stable_order(kept, order)
                &&& files@.len() == kept.len()
                &&& forall|i: int| 0 <= i < files@.len() ==> #[trigger] files@[i]@
                    == kept[order[i] as int]
            },
        distinct_texts(candidates@.map_values(|c: FileCandidate| c.path@)) ==> forall|i: int, j: int|
            0 <= i < j < files@.len() ==> lex_lt(#[trigger] files@[i]@, #[trigger] files@[j]@),
        kept_new_files(candidates@, strings_view(files@)),
{
    let ghost cpaths = candidates@.map_values(|c: FileCandidate| c.path@);
    let ghost mut idx: Seq<int> = Seq::empty();
    let mut kept: Vec<String> = Vec::new();
    let mut keys: Vec<Vec<char>> = Vec::new();
    let mut i: usize = 0;
    while i < candidates.len()
        invariant
            i <= candidates.len(),
            kept@.len() == keys@.len(),
            keys_view(keys@) == downloaded_paths(candidates@.take(i as int)),
            forall|j: int| 0 <= j < kept@.len() ==> #[trigger] kept@[j]@ == keys@[j]@,
            idx.len() == keys@.len(),
            forall|j: int| 0 <= j < idx.len() ==> 0 <= #[trigger] idx[j] < i,
            forall|j: int, k: int| 0 <= j < k < idx.len() ==> #[trigger] idx[j] < #[trigger] idx[k],
            forall|j: int| 0 <= j < idx.len() ==> #[trigger] keys@[j]@ == candidates@[idx[j]].path@,
            forall|j: int|
                0 <= j < idx.len() ==> (!candidates@[#[trigger] idx[j]].in_snapshot
                    || candidates@[idx[j]].modified_since_start),
            forall|k: int|
                0 <= k < i && (!candidates@[k].in_snapshot || candidates@[k].modified_since_start)
                    ==> exists|j: int| 0 <= j < idx.len() && #[trigger] idx[j] == k,
        decreases candidates.len() - i,
    {
        let c = &candidates[i];
        let ghost t = candidates@.take(i as int + 1);
        assert(t.drop_last() == candidates@.take(i as int));
        assert(t.last() == candidates@[i as int]);
        let ghost before = keys_view(keys@);
        if !c.in_snapshot || c.modified_since_start {
            kept.push(c.path.clone());
            let key = chars_of(c.path.as_str());
            keys.push(key);
            let ghost old_idx = idx;
            proof {
                idx = idx.push(i as int);
                assert(idx[idx.len() - 1] == i);
                assert forall|k: int|
                    0 <= k < i + 1 && (!candidates@[k].in_snapshot
                        || candidates@[k].modified_since_start) implies exists|j: int|
                    0 <= j < idx.len() && #[trigger] idx[j] == k by {
                    if k < i {
                        let j = choose|j: int| 0 <= j < old_idx.len() && #[trigger] old_idx[j] == k;
                        assert(idx[j] == old_idx[j]);
                    } else {
                        assert(idx[idx.len() - 1] == k);
                    }
                }
            }
            assert(keys_view(keys@) =~= before + seq![c.path@]);
        } else {
            assert(keys_view(keys@) =~= before);
        }
        assert(keys_view(keys@) == downloaded_paths(t));
        i = i + 1;
    }
    assert(candidates@.take(candidates.len() as int) == candidates@);
    let order = stable_order(&keys);
    let ghost kept_view = keys_view(keys@);
    let mut files: Vec<String> = Vec::new();
    let mut k: usize = 0;
    while k < order.len()
        invariant
            k <= order.len(),
            is_stable_order(keys_view(keys@), order@),
            kept@.len() == keys@.len(),
            forall|j: int| 0 <= j < kept@.len() ==> #[trigger] kept@[j]@ == keys@[j]@,
            files@.len() == k,
            forall|j: int| 0 <= j < k ==> #[trigger] files@[j]@ == keys_view(keys@)[order@[j] as int],
            idx.len() == keys@.len(),
            forall|j: int| 0 <= j < idx.len() ==> 0 <= #[trigger] idx[j] < candidates@.len(),
            forall|j: int, k: int| 0 <= j < k < idx.len() ==> #[trigger] idx[j] < #[trigger] idx[k],
            forall|j: int| 0 <= j < idx.len() ==> #[trigger] keys@[j]@ == candidates@[idx[j]].path@,
            forall|j: int|
                0 <= j < idx.len() ==> (!candidates@[#[trigger] idx[j]].in_snapshot
                    || candidates@[idx[j]].modified_since_start),
            forall|k: int|
                0 <= k < candidates@.len() && (!candidates@[k].in_snapshot
                    || candidates@[k].modified_since_start) ==> exists|j: int|
                    0 <= j < idx.len() && #[trigger] idx[j] == k,
        decreases order.len() - k,
    {
        let pick = order[k];
        assert(pick < keys_view(keys@).len());
        files.push(kept[pick].clone());
        k = k + 1;
    }
    assert(kept_view == downloaded_paths(candidates@));
    proof {
        let fs = strings_view(files@);
        assert forall|m: int| 0 <= m < fs.len() implies #[trigger] fs[m] == kept_view[order@[m] as int] by {
            assert(fs[m] == files@[m]@);
        }
        assert forall|j: int| 0 <= j < idx.len() implies #[trigger] kept_view[j] == candidates@[idx[j]].path@ by {
            assert(kept_view[j] == keys@[j]@);
        }
        lemma_kept_new_files(candidates@, idx, kept_view, order@, fs);
    }
    proof {
        if distinct_texts(cpaths) {
            assert forall|a: int, b: int| 0 <= a < b < files@.len() implies lex_lt(
                #[trigger] files@[a]@,
                #[trigger] files@[b]@,
            ) by {
                let (x, y) = (order@[a], order@[b]);
                assert(ordered_before(kept_view, x, y));
                assert(x != y);
                assert(kept_view[x as int] == keys@[x as int]@);
                assert(kept_view[y as int] == keys@[y as int]@);
                assert(cpaths[idx[x as int]] == candidates@[idx[x as int]].path@);
                assert(cpaths[idx[y as int]] == candidates@[idx[y as int]].path@);
                if x < y {
                    assert(idx[x as int] < idx[y as int]);
                } else {
                    assert(idx[y as int] < idx[x as int]);
                }
            }
        }
    }
    files
}

/// The converted copy of a file: `fixed-<stem>.mp4` in the file's folder (`.` when the path
/// has no parent, `video` when it has no stem).
pub open spec fn fixed_mp4_path_text(input: Seq<char>) -> Seq<char> {
    fixed_mp4_path_of(path_parent_of(input), path_file_stem_of(input))
}

/// The converted copy's path from the file's parent folder and stem, when it has them.
pub open spec fn fixed_mp4_path_of(parent: Option<Seq<char>>, stem: Option<Seq<char>>) -> Seq<char> {
    join_path(or_text(parent, "."@), "fixed-"@ + or_text(stem, "video"@) + ".mp4"@)
}

/// The converted copy sits in the file's folder (`.` without one) and is named `fixed-`,
/// the whole stem unchanged (`video` without one), and `.mp4`.
pub proof fn lemma_fixed_name_keeps_stem(parent: Option<Seq<char>>, stem: Option<Seq<char>>)
    ensures
        ({
            let dir = or_text(parent, "."@);
            let name = "fixed-"@ + or_text(stem, "video"@) + ".mp4"@;
            let r = fixed_mp4_path_of(parent, stem);
            &&& ends_with(r, name)
            &&& (r == dir + name || r == dir + "/"@ + name)
        }),
{
    reveal_strlit("fixed-");
    reveal_strlit("/");
    let dir = or_text(parent, "."@);
    let name = "fixed-"@ + or_text(stem, "video"@) + ".mp4"@;
    let r = fixed_mp4_path_of(parent, stem);
    assert(name[0] == 'f');
    if dir.len() == 0 || dir.last() == '/' {
        assert(r == dir + name);
    } else {
        assert(r =~= dir + "/"@ + name);
    }
    assert(r.subrange(r.len() - name.len(), r.len() as int) =~= name);
}

/// The converted copy's path, given what `Path::parent` and `Path::file_stem` report.
pub fn fixed_mp4_path_from(parent: Option<&str>, stem: Option<&str>) -> (r: String)
    ensures
        r@ == fixed_mp4_path_of(
            match parent {
                Some(p) => Some(p@),
                None => None,
            },
            match stem {
                Some(s) => Some(s@),
                None => None,
            },
        ),
        ({
            let dir = match parent {
                Some(p) => p@,
                None => "."@,
            };
            let name = "fixed-"@ + match stem {
                Some(s) => s@,
                None => "video"@,
            } + ".mp4"@;
            &&& ends_with(r@, name)
            &&& (r@ == dir + name || r@ == dir + "/"@ + name)
        }),
{
    proof {
        lemma_fixed_name_keeps_stem(
            match parent {
                Some(p) => Some(p@),
                None => None,
            },
            match stem {
                Some(s) => Some(s@),
                None => None,
            },
        );
    }
    let mut name = to_owned_string("fixed-");
    append_str(&mut name, match stem {
        Some(s) => s,
        None => "video",
    });
    append_str(&mut name, ".mp4");
    join_path_str(
        match parent {
            Some(p) => p,
            None => ".",
        },
        name.as_str(),
    )
}

pub fn fixed_mp4_path(input: &str) -> (r: String)
    ensures
        r@ == fixed_mp4_path_text(input@),
        ({
            let dir = or_text(path_parent_of(input@), "."@);
            let name = "fixed-"@ + or_text(path_file_stem_of(input@), "video"@) + ".mp4"@;
            &&& ends_with(r@, name)
            &&& (r@ == dir + name || r@ == dir + "/"@ + name)
        }),
{
    proof {
        lemma_fixed_name_keeps_stem(path_parent_of(input@), path_file_stem_of(input@));
    }
    let parent = path_parent(input);
    let stem = path_file_stem(input);
    fixed_mp4_path_from(
        match &parent {
            Some(p) => Some(p.as_str()),
            None => None,
        },
        match &stem {
            Some(s) => Some(s.as_str()),
            None => None,
        },
    )
}

/// The playlist position in a `[queue] <item> of <count>` line, when both are numbers.
pub open spec fn queue_line_progress(line: Seq<char>) -> Option<PlaylistProgress> {
    if starts_with(line, "[queue] "@) {
        let rest = line.subrange(8, line.len() as int);
        match find(rest, " of "@) {
            Some(i) => match (
                parsed_usize(rest.subrange(0, i)),
                parsed_usize(rest.subrange(i + 4, rest.len() as int)),
            ) {
                (Some(current), Some(total)) => Some(PlaylistProgress { current, total }),
                _ => None,
            },
            None => None,
        }
    } else {
        None
    }
}

/// The path in a `[file] <path>` line, when there is one.
pub open spec fn file_line_path(line: Seq<char>) -> Option<Seq<char>> {
    if starts_with(line, "[file] "@) && line.len() > 7 {
        Some(line.subrange(7, line.len() as int))
    } else {
        None
    }
}

/// What a line of `yt-dlp` output reports.
pub enum YtDlpLine {
    /// Empty after trimming: not logged.
    Blank,
    /// The playlist item about to download.
    Queue(PlaylistProgress),
    /// A downloaded file, in its final place.
    File(String),
    /// Download progress.
    Progress(DownloadProgressLine),
    /// Anything else: only logged.
    Other,
}

/// The characters held by a [`YtDlpLine`]; progress as `(stage, percent, detail)`.
pub enum YtDlpLineView {
    Blank,
    Queue(PlaylistProgress),
    File(Seq<char>),
    Progress(Seq<char>, Seq<char>, Seq<char>),
    Other,
}

impl View for YtDlpLine {
    type V = YtDlpLineView;

    open spec fn view(&self) -> YtDlpLineView {
        match self {
            YtDlpLine::Blank => YtDlpLineView::Blank,
            YtDlpLine::Queue(p) => YtDlpLineView::Queue(*p),
            YtDlpLine::File(p) => YtDlpLineView::File(p@),
            YtDlpLine::Progress(d) => YtDlpLineView::Progress(d.stage@, d.percent@, d.detail@),
            YtDlpLine::Other => YtDlpLineView::Other,
        }
    }
}

/// How a `yt-dlp` output line is read: blank lines, then the queue and file reports the
/// job asks for, then download progress.
pub open spec fn ytdlp_line_text(line: Seq<char>) -> YtDlpLineView {
    if trim(line).len() == 0 {
        YtDlpLineView::Blank
    } else if starts_with(line, "[queue] "@) {
        match queue_line_progress(line) {
            Some(p) => YtDlpLineView::Queue(p),
            None => YtDlpLineView::Other,
        }
    } else if starts_with(line, "[file] "@) {
        match file_line_path(line) {
            Some(p) => YtDlpLineView::File(p),
            None => YtDlpLineView::Other,
        }
    } else {
        match ytdlp_progress_parts(line) {
            Some((stage, percent, detail)) => YtDlpLineView::Progress(stage, percent, detail),
            None => YtDlpLineView::Other,
        }
    }
}

fn queue_progress(v: &Vec<char>) -> (r: Option<PlaylistProgress>)
    requires
        starts_with(v@, "[queue] "@),
    ensures
        r == queue_line_progress(v@),
{
    proof {
        reveal_strlit("[queue] ");
        reveal_strlit(" of ");
    }
    let rest = string_from_range(v, 8, v.len());
    let rv = chars_of(rest.as_str());
    let of = chars_of(" of ");
    match find_chars(&rv, &of) {
        Some(i) => {
            assert(i + 4 <= rv.len());
            let a = string_from_range(&rv, 0, i);
            let b = string_from_range(&rv, i + 4, rv.len());
            match (parse_usize_digits(a.as_str()), parse_usize_digits(b.as_str())) {
                (Some(current), Some(total)) => Some(PlaylistProgress { current, total }),
                _ => None,
            }
        },
        None => None,
    }
}

/// Reading a `yt-dlp` output line as download progress would slice it in the middle of a
/// character (see `percent_slice_splits_char`).
pub open spec fn ytdlp_line_splits_char(line: Seq<char>) -> bool {
    &&& trim(line).len() != 0
    &&& !starts_with(line, "[queue] "@)
    &&& !starts_with(line, "[file] "@)
    &&& contains(line, "[download]"@)
    &&& percent_slice_splits_char(line)
}

/// Whether reading `line` as download progress would slice it inside a character.
pub fn ytdlp_line_slices_inside_char(line: &str) -> (b: bool)
    ensures
        b == ytdlp_line_splits_char(line@),
{
    let t = trimmed(line);
    let v = chars_of(line);
    t.as_str().unicode_len() != 0 && !chars_start_with(&v, "[queue] ") && !chars_start_with(
        &v,
        "[file] ",
    ) && str_contains(line, "[download]") && !percent_slice_on_char_boundary(line)
}

/// Reads one line of `yt-dlp` output (`spawn_reader`).
pub fn classify_ytdlp_line(line: &str) -> (r: YtDlpLine)
    requires
        !ytdlp_line_splits_char(line@),
    ensures
        r@ == ytdlp_line_text(line@),
{
    let t = trimmed(line);
    if t.as_str().unicode_len() == 0 {
        return YtDlpLine::Blank;
    }
    let v = chars_of(line);
    proof {
        reveal_strlit("[file] ");
    }
    if chars_start_with(&v, "[queue] ") {
        return match queue_progress(&v) {
            Some(p) => YtDlpLine::Queue(p),
            None => YtDlpLine::Other,
        };
    }
    if chars_start_with(&v, "[file] ") {
        if v.len() > 7 {
            return YtDlpLine::File(string_from_range(&v, 7, v.len()));
        }
        return YtDlpLine::Other;
    }
    match parse_ytdlp_progress(line) {
        Some(d) => YtDlpLine::Progress(d),
        None => YtDlpLine::Other,
    }
}

} // verus!
