//! Form choices, limits, output paths and index cycling.
use vstd::prelude::*;
use crate::text::{
    append_str, chars_of, chars_start_with, push_char, starts_with, str_eq, string_from_range,
    to_owned_string, trim, trimmed,
};

verus! {

/// Number of fallback resolutions the form offers.
pub const RESOLUTION_COUNT: usize = 4;

/// Number of output containers the form offers.
pub const FORMAT_COUNT: usize = 3;

/// Most log lines kept for display.
pub const MAX_LOG_LINES: usize = 300;

/// The fallback resolutions, in form order: `Best`, `1080`, `720`, `480`.
pub open spec fn resolution_text(idx: int) -> Seq<char> {
    if idx == 0 {
        "Best"@
    } else if idx == 1 {
        "1080"@
    } else if idx == 2 {
        "720"@
    } else {
        "480"@
    }
}

pub fn resolution_name(idx: usize) -> (r: &'static str)
    requires
        idx < RESOLUTION_COUNT,
    ensures
        r@ == resolution_text(idx as int),
{
    if idx == 0 {
        "Best"
    } else if idx == 1 {
        "1080"
    } else if idx == 2 {
        "720"
    } else {
        "480"
    }
}

/// The output containers, in form order: `mp4`, `webm`, `mkv`.
pub open spec fn format_text(idx: int) -> Seq<char> {
    if idx == 0 {
        "mp4"@
    } else if idx == 1 {
        "webm"@
    } else {
        "mkv"@
    }
}

pub fn format_name(idx: usize) -> (r: &'static str)
    requires
        idx < FORMAT_COUNT,
    ensures
        r@ == format_text(idx as int),
{
    if idx == 0 {
        "mp4"
    } else if idx == 1 {
        "webm"
    } else {
        "mkv"
    }
}

/// `PathBuf::push` on Unix: an absolute `rest` replaces `base`; otherwise a `/` is put
/// between them unless `base` is empty or already ends with one.
pub open spec fn join_path(base: Seq<char>, rest: Seq<char>) -> Seq<char> {
    if rest.len() > 0 && rest[0] == '/' {
        rest
    } else if base.len() == 0 || base.last() == '/' {
        base + rest
    } else {
        base + seq!['/'] + rest
    }
}

/// `base.join(rest)` as a string.
pub fn join_path_str(base: &str, rest: &str) -> (r: String)
    ensures
        r@ == join_path(base@, rest@),
{
    let b = chars_of(base);
    let t = chars_of(rest);
    if t.len() > 0 && t[0] == '/' {
        return to_owned_string(rest);
    }
    let mut r = to_owned_string(base);
    if !(b.len() == 0 || b[b.len() - 1] == '/') {
        push_char(&mut r, '/');
    }
    append_str(&mut r, rest);
    r
}

/// The default download folder for a home directory: `~/Downloads/youtube_downloads`,
/// or `youtube_downloads` when there is no home directory.
pub open spec fn default_output_dir_text(home: Option<Seq<char>>) -> Seq<char> {
    match home {
        Some(h) => join_path(join_path(h, "Downloads"@), "youtube_downloads"@),
        None => "youtube_downloads"@,
    }
}

/// The default download folder, as the form shows it; `home` is the `HOME` variable.
pub fn default_output_dir_input(home: Option<&str>) -> (r: String)
    ensures
        r@ == default_output_dir_text(
            match home {
                Some(h) => Some(h@),
                None => None,
            },
        ),
{
    match home {
        Some(h) => {
            let downloads = join_path_str(h, "Downloads");
            join_path_str(downloads.as_str(), "youtube_downloads")
        },
        None => to_owned_string("youtube_downloads"),
    }
}

/// What `expand_output_dir` gives for a typed folder and a home directory.
pub open spec fn expanded_output_dir(input: Seq<char>, home: Option<Seq<char>>) -> Result<
    Seq<char>,
    Seq<char>,
> {
    let t = trim(input);
    if t.len() == 0 {
        Err("Output directory is required."@)
    } else if t == "~"@ {
        match home {
            Some(h) => Ok(h),
            None => Err("Could not expand ~ because HOME is not set."@),
        }
    } else if starts_with(t, "~/"@) {
        match home {
            Some(h) => Ok(join_path(h, t.subrange(2, t.len() as int))),
            None => Err("Could not expand ~/ because HOME is not set."@),
        }
    } else {
        Ok(t)
    }
}

/// The typed folder counts only once trimmed: trimming it first gives the same result, and
/// a trimmed text that is not empty, not `~` and does not start with `~/` is the folder
/// itself, whatever the home directory.
pub proof fn lemma_expand_uses_trimmed_input(input: Seq<char>, home: Option<Seq<char>>)
    ensures
        expanded_output_dir(trim(input), home) == expanded_output_dir(input, home),
        ({
            let t = trim(input);
            t.len() > 0 && t != "~"@ && !starts_with(t, "~/"@) ==> expanded_output_dir(input, home)
                == Ok::<Seq<char>, Seq<char>>(t)
        }),
{
    crate::text::lemma_trim_idempotent(input);
}

/// The view of a string result.
pub open spec fn result_view(r: Result<String, String>) -> Result<Seq<char>, Seq<char>> {
    match r {
        Ok(s) => Ok(s@),
        Err(e) => Err(e@),
    }
}

/// The folder a typed output path names: trimmed, with a leading `~` or `~/` expanded
/// against `home`. An empty path, or a `~` path without a home directory, is an error.
pub fn expand_output_dir(input: &str, home: Option<&str>) -> (r: Result<String, String>)
    ensures
        result_view(r) == expanded_output_dir(
            input@,
            match home {
                Some(h) => Some(h@),
                None => None,
            },
        ),
{
    let t = trimmed(input);
    let tv = chars_of(t.as_str());
    proof {
        reveal_strlit("~");
        reveal_strlit("~/");
    }
    if tv.len() == 0 {
        return Err(to_owned_string("Output directory is required."));
    }
    if str_eq(t.as_str(), "~") {
        return match home {
            Some(h) => Ok(to_owned_string(h)),
            None => Err(to_owned_string("Could not expand ~ because HOME is not set.")),
        };
    }
    if chars_start_with(&tv, "~/") {
        let rest = string_from_range(&tv, 2, tv.len());
        return match home {
            Some(h) => Ok(join_path_str(h, rest.as_str())),
            None => Err(to_owned_string("Could not expand ~/ because HOME is not set.")),
        };
    }
    Ok(t)
}

/// `cycle_index`: one step back (negative `direction`) or forward through `len` choices,
/// wrapping around; `0` when there are no choices.
pub open spec fn cycled(current: int, len: int, direction: int) -> int {
    if len == 0 {
        0
    } else if direction < 0 {
        if current == 0 {
            len - 1
        } else {
            current - 1
        }
    } else {
        (current + 1) % len
    }
}

pub fn cycle_index(current: usize, len: usize, direction: isize) -> (r: usize)
    requires
        direction >= 0 && len > 0 ==> current < usize::MAX,
    ensures
        r == cycled(current as int, len as int, direction as int),
        len == 0 ==> r == 0,
        len > 0 && direction >= 0 ==> r == (current + 1) % (len as int),
        len > 0 && direction < 0 && current < len ==> r < len && (r + 1) % (len as int) == current,
{
    proof {
        if len > 0 && current < len {
            let n = len as int;
            let c = current as int;
            assert(n % n == 0) by (nonlinear_arith)
                requires
                    n > 0,
            ;
            assert(c % n == c) by (nonlinear_arith)
                requires
                    0 <= c < n,
            ;
        }
    }
    if len == 0 {
        return 0;
    }
    if direction < 0 {
        if current == 0 {
            len - 1
        } else {
            current - 1
        }
    } else {
        (current + 1) % len
    }
}

/// Cycling keeps an index in range, and a step forward is undone by a step back
/// (and the other way round).
pub proof fn lemma_cycle_index(current: int, len: int)
    requires
        0 <= current < len,
    ensures
        0 <= cycled(current, len, 1) < len,
        0 <= cycled(current, len, -1) < len,
        cycled(cycled(current, len, 1), len, -1) == current,
        cycled(cycled(current, len, -1), len, 1) == current,
{
    if current + 1 < len {
        vstd::arithmetic::div_mod::lemma_small_mod((current + 1) as nat, len as nat);
    } else {
        vstd::arithmetic::div_mod::lemma_mod_self_0(len);
    }
    if current == 0 {
        vstd::arithmetic::div_mod::lemma_mod_self_0(len);
    } else {
        vstd::arithmetic::div_mod::lemma_small_mod(current as nat, len as nat);
    }
}

} // verus!
