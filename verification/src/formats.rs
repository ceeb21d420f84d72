//! The format list of a `yt-dlp -J` document: which list is read, and the selectable rows
//! sorted best first.
use vstd::prelude::*;
use crate::media::{
    available_format_rows, available_formats_of, formats_view, records_view,
    require_selectable_formats, FormatRecord, FormatRecordView,
};
use crate::order::{
    lemma_lex_antisymmetric, lemma_lex_reflexive, lemma_lex_total, lemma_lex_transitive, lex_le,
    lex_le_exec,
};
use crate::decimal::{all_digits_in, chars_range, compare_digits};
use crate::text::{all_digits, chars_of, digits_value, find, find_chars, to_owned_string};
use crate::types::{AvailableFormat, AvailableFormatView};

verus! {

/// What the library reads of a `yt-dlp -J` document.
pub struct YtDlpDoc {
    /// The top-level `formats` value, when it is an array.
    pub formats: Option<Vec<FormatRecord>>,
    /// The top-level `entries` value, when it is an array: for each entry, its `formats`
    /// value when that is an array.
    pub entries: Option<Vec<Option<Vec<FormatRecord>>>>,
}

/// The characters held by a [`YtDlpDoc`].
pub struct YtDlpDocView {
    pub formats: Option<Seq<FormatRecordView>>,
    pub entries: Option<Seq<Option<Seq<FormatRecordView>>>>,
}

/// The view of an optional format list.
pub open spec fn list_view(l: Option<Vec<FormatRecord>>) -> Option<Seq<FormatRecordView>> {
    match l {
        Some(v) => Some(records_view(v@)),
        None => None,
    }
}

/// The views of the entries' format lists.
pub open spec fn entries_view(es: Seq<Option<Vec<FormatRecord>>>) -> Seq<Option<Seq<FormatRecordView>>> {
    es.map_values(|e: Option<Vec<FormatRecord>>| list_view(e))
}

impl View for YtDlpDoc {
    type V = YtDlpDocView;

    open spec fn view(&self) -> YtDlpDocView {
        YtDlpDocView {
            formats: list_view(self.formats),
            entries: match self.entries {
                Some(es) => Some(entries_view(es@)),
                None => None,
            },
        }
    }
}

/// The first entry that has a format list, in entry order.
pub open spec fn first_listed(es: Seq<Option<Seq<FormatRecordView>>>) -> Option<Seq<FormatRecordView>>
    decreases es.len(),
{
    if es.len() == 0 {
        None
    } else if es[0] is Some {
        es[0]
    } else {
        first_listed(es.drop_first())
    }
}

/// The format list a document offers: its own, else that of its first entry with one.
pub open spec fn format_list_of(doc: YtDlpDocView) -> Option<Seq<FormatRecordView>> {
    match doc.formats {
        Some(f) => Some(f),
        None => match doc.entries {
            Some(es) => first_listed(es),
            None => None,
        },
    }
}

proof fn lemma_first_listed_skip(es: Seq<Option<Seq<FormatRecordView>>>, i: int)
    requires
        0 <= i <= es.len(),
        forall|k: int| 0 <= k < i ==> es[k] is None,
    ensures
        first_listed(es) == first_listed(es.subrange(i, es.len() as int)),
    decreases i,
{
    if i > 0 {
        lemma_first_listed_skip(es, i - 1);
        let t = es.subrange(i - 1, es.len() as int);
        assert(t[0] is None);
        assert(t.drop_first() == es.subrange(i, es.len() as int));
    } else {
        assert(es.subrange(0, es.len() as int) == es);
    }
}

/// The format list of a document, as `format_list_of` says.
pub fn format_list(doc: &YtDlpDoc) -> (r: Option<&Vec<FormatRecord>>)
    ensures
        list_view(
            match r {
                Some(v) => Some(*v),
                None => None,
            },
        ) == format_list_of(doc@),
{
    match &doc.formats {
        Some(f) => return Some(f),
        None => {},
    }
    match &doc.entries {
        Some(es) => {
            let ghost ev = entries_view(es@);
            assert(doc@.entries == Some(ev));
            assert(doc@.formats is None);
            let mut i: usize = 0;
            while i < es.len()
                invariant
                    i <= es.len(),
                    ev == entries_view(es@),
                    doc@.entries == Some(ev),
                    doc@.formats is None,
                    forall|k: int| 0 <= k < i ==> #[trigger] ev[k] is None,
                decreases es.len() - i,
            {
                assert(ev[i as int] == list_view(es@[i as int]));
                match &es[i] {
                    Some(f) => {
                        proof {
                            assert(doc@.entries == Some(ev));
                            lemma_first_listed_skip(ev, i as int);
                            assert(ev.subrange(i as int, ev.len() as int)[0] == ev[i as int]);
                        }
                        return Some(f);
                    },
                    None => {
                        assert(ev[i as int] is None);
                    },
                }
                i = i + 1;
            }
            proof {
                lemma_first_listed_skip(ev, i as int);
                assert(doc@.entries == Some(ev));
                assert(ev.subrange(i as int, ev.len() as int).len() == 0);
            }
            None
        },
        None => None,
    }
}

/// A frame-rate label in the shape the program writes it (an optional `-`, whole digits,
/// and optionally `.` and two decimals): its sign, and the digits of its value in hundredths.
pub open spec fn fps_parts(t: Seq<char>) -> Option<(bool, Seq<char>)> {
    let neg = t.len() > 0 && t[0] == '-';
    let body = if neg {
        t.drop_first()
    } else {
        t
    };
    match find(body, "."@) {
        None => if body.len() > 0 && all_digits(body) {
            Some((neg, body + seq!['0', '0']))
        } else {
            None
        },
        Some(i) => {
            let ip = body.subrange(0, i);
            let fp = body.subrange(i + 1, body.len() as int);
            if ip.len() > 0 && fp.len() == 2 && all_digits(ip) && all_digits(fp) {
                Some((neg, ip + fp))
            } else {
                None
            }
        },
    }
}

/// The sort key of a frame-rate label: its value in hundredths, with its sign; `0` without
/// a label or for a label of another shape.
pub open spec fn fps_key(label: Option<Seq<char>>) -> int {
    match label {
        Some(t) => match fps_parts(t) {
            Some((neg, m)) => if neg {
                -(digits_value(m) as int)
            } else {
                digits_value(m) as int
            },
            None => 0,
        },
        None => 0,
    }
}

/// The sort key of a height: the height, below every height without one.
pub open spec fn height_key(h: Option<u32>) -> int {
    match h {
        Some(v) => v as int,
        None => -1,
    }
}

/// `a` may come before `b` in the format list: taller first (no height last), then the
/// higher frame rate, then the extension and then the id in text order.
pub open spec fn format_le(a: AvailableFormatView, b: AvailableFormatView) -> bool {
    if height_key(a.height) != height_key(b.height) {
        height_key(a.height) > height_key(b.height)
    } else if fps_key(a.fps_label) != fps_key(b.fps_label) {
        fps_key(a.fps_label) > fps_key(b.fps_label)
    } else if a.ext != b.ext {
        lex_le(a.ext, b.ext)
    } else {
        lex_le(a.id, b.id)
    }
}

pub proof fn lemma_format_le_total(a: AvailableFormatView, b: AvailableFormatView)
    ensures
        format_le(a, b) || format_le(b, a),
{
    lemma_lex_total(a.ext, b.ext);
    lemma_lex_total(a.id, b.id);
}

pub proof fn lemma_format_le_transitive(a: AvailableFormatView, b: AvailableFormatView, c: AvailableFormatView)
    requires
        format_le(a, b),
        format_le(b, c),
    ensures
        format_le(a, c),
{
    let (ha, hb, hc) = (height_key(a.height), height_key(b.height), height_key(c.height));
    let (fa, fb, fc) = (fps_key(a.fps_label), fps_key(b.fps_label), fps_key(c.fps_label));
    if ha == hb && hb == hc && fa == fb && fb == fc {
        if a.ext != b.ext && b.ext != c.ext {
            lemma_lex_transitive(a.ext, b.ext, c.ext);
            if a.ext == c.ext {
                lemma_lex_antisymmetric(a.ext, b.ext);
            }
        } else if a.ext == b.ext && b.ext == c.ext {
            lemma_lex_transitive(a.id, b.id, c.id);
        }
    }
}

/// `order` lists the indices of `rows` best first, rows that compare equal in their
/// original order: the order of a stable sort by `format_le`.
pub open spec fn is_format_order(rows: Seq<AvailableFormatView>, order: Seq<usize>) -> bool {
    &&& order.len() == rows.len()
    &&& forall|i: int| 0 <= i < order.len() ==> #[trigger] order[i] < rows.len()
    &&& forall|i: int, j: int| 0 <= i < j < order.len() ==> order[i] != order[j]
    &&& forall|i: int, j: int|
        0 <= i < j < order.len() ==> #[trigger] format_before(rows, order[i], order[j])
}

/// Row `a` comes before row `b` in a stable sort by `format_le`.
pub open spec fn format_before(rows: Seq<AvailableFormatView>, a: usize, b: usize) -> bool {
    format_le(rows[a as int], rows[b as int]) && (!format_le(rows[b as int], rows[a as int])
        || a < b)
}

/// `sorted` is `rows` sorted best first by a stable sort.
pub open spec fn is_sorted_formats(rows: Seq<AvailableFormatView>, sorted: Seq<AvailableFormatView>) -> bool {
    exists|order: Seq<usize>|
        {
            &&& #[trigger] is_format_order(rows, order)
            &&& sorted.len() == order.len()
            &&& forall|i: int| 0 <= i < order.len() ==> #[trigger] sorted[i] == rows[order[i] as int]
        }
}

/// A sorted list has each row no worse than the next.
pub proof fn lemma_sorted_formats_ordered(rows: Seq<AvailableFormatView>, sorted: Seq<AvailableFormatView>)
    requires
        is_sorted_formats(rows, sorted),
    ensures
        forall|i: int, j: int| 0 <= i < j < sorted.len() ==> format_le(#[trigger] sorted[i], #[trigger] sorted[j]),
{
    let order = choose|order: Seq<usize>|
        {
            &&& #[trigger] is_format_order(rows, order)
            &&& sorted.len() == order.len()
            &&& forall|i: int| 0 <= i < order.len() ==> #[trigger] sorted[i] == rows[order[i] as int]
        };
    assert forall|i: int, j: int| 0 <= i < j < sorted.len() implies format_le(#[trigger] sorted[i], #[trigger] sorted[j]) by {
        assert(format_before(rows, order[i], order[j]));
    }
}

/// The sign and hundredths digits of a label, as `fps_parts` reads it; no sign and no
/// digits (the value `0`) without a label or for a label of another shape.
fn fps_parts_exec(label: &Option<String>) -> (r: (bool, Vec<char>))
    ensures
        all_digits(r.1@),
        fps_key(opt_label(label)) == if r.0 {
            -(digits_value(r.1@) as int)
        } else {
            digits_value(r.1@) as int
        },
{
    let none: (bool, Vec<char>) = (false, Vec::new());
    assert(all_digits(none.1@));
    assert(digits_value(none.1@) == 0);
    let t = match label {
        Some(t) => t,
        None => return none,
    };
    let v = chars_of(t.as_str());
    assert(opt_label(label) == Some(v@));
    let neg = v.len() > 0 && v[0] == '-';
    let body = if neg {
        chars_range(&v, 1, v.len())
    } else {
        chars_range(&v, 0, v.len())
    };
    assert(body@ == if neg {
        v@.drop_first()
    } else {
        v@
    });
    let dot = chars_of(".");
    match find_chars(&body, &dot) {
        None => {
            if body.len() > 0 && all_digits_in(&body, 0, body.len()) {
                assert(body@.subrange(0, body.len() as int) == body@);
                let mut m = chars_range(&body, 0, body.len());
                m.push('0');
                m.push('0');
                assert(m@ =~= body@ + seq!['0', '0']);
                assert(all_digits(m@)) by {
                    assert forall|k: int| 0 <= k < m@.len() implies crate::text::is_digit(#[trigger] m@[k]) by {
                        if k < body@.len() {
                            assert(m@[k] == body@[k]);
                        }
                    }
                }
                (neg, m)
            } else {
                assert(body@.subrange(0, body.len() as int) == body@);
                none
            }
        },
        Some(i) => {
            proof {
                reveal_strlit(".");
            }
            assert(i < body.len());
            if i > 0 && body.len() - (i + 1) == 2 && all_digits_in(&body, 0, i) && all_digits_in(
                &body,
                i + 1,
                body.len(),
            ) {
                let mut m = chars_range(&body, 0, i);
                m.push(body[i + 1]);
                m.push(body[i + 2]);
                let ghost ip = body@.subrange(0, i as int);
                let ghost fp = body@.subrange(i + 1, body.len() as int);
                assert(m@ =~= ip + fp);
                assert(all_digits(m@)) by {
                    assert forall|k: int| 0 <= k < m@.len() implies crate::text::is_digit(#[trigger] m@[k]) by {
                        if k < ip.len() {
                            assert(m@[k] == ip[k]);
                        } else {
                            assert(m@[k] == fp[k - ip.len()]);
                        }
                    }
                }
                (neg, m)
            } else {
                none
            }
        },
    }
}

/// The view of an optional label.
pub open spec fn opt_label(l: &Option<String>) -> Option<Seq<char>> {
    match l {
        Some(t) => Some(t@),
        None => None,
    }
}

fn height_before(a: Option<u32>, b: Option<u32>) -> (r: (bool, bool))
    ensures
        r.0 == (height_key(a) != height_key(b)),
        r.1 == (height_key(a) > height_key(b)),
{
    match (a, b) {
        (Some(x), Some(y)) => (x != y, x > y),
        (Some(_), None) => (true, true),
        (None, Some(_)) => (true, false),
        (None, None) => (false, false),
    }
}

/// Whether row `a` may come before row `b`.
pub fn format_le_exec(a: &AvailableFormat, b: &AvailableFormat) -> (r: bool)
    ensures
        r == format_le(a@, b@),
{
    let (differ, taller) = height_before(a.height, b.height);
    if differ {
        return taller;
    }
    let (na, ma) = fps_parts_exec(&a.fps_label);
    let (nb, mb) = fps_parts_exec(&b.fps_label);
    assert(opt_label(&a.fps_label) == a@.fps_label);
    assert(opt_label(&b.fps_label) == b@.fps_label);
    let empty: Vec<char> = Vec::new();
    assert(all_digits(empty@));
    assert(digits_value(empty@) == 0);
    let (less, same) = compare_digits(&ma, &mb);
    let (_, a_zero) = compare_digits(&ma, &empty);
    let (_, b_zero) = compare_digits(&mb, &empty);
    let a_neg = na && !a_zero;
    let b_neg = nb && !b_zero;
    let (differ, higher) = if a_neg != b_neg {
        (true, b_neg)
    } else if !a_neg {
        (!same, !less && !same)
    } else {
        (!same, less)
    };
    if differ {
        return higher;
    }
    let ea = chars_of(a.ext.as_str());
    let eb = chars_of(b.ext.as_str());
    let le = lex_le_exec(&ea, &eb);
    let ge = lex_le_exec(&eb, &ea);
    if !(le && ge) {
        proof {
            if ea@ == eb@ {
                lemma_lex_reflexive(ea@);
            }
        }
        return le;
    }
    proof {
        lemma_lex_antisymmetric(ea@, eb@);
    }
    assert(a@.ext == b@.ext);
    let ia = chars_of(a.id.as_str());
    let ib = chars_of(b.id.as_str());
    lex_le_exec(&ia, &ib)
}

/// The indices of `rows` best first, by a stable sort on `format_le`.
pub fn format_order(rows: &Vec<AvailableFormat>) -> (order: Vec<usize>)
    ensures
        is_format_order(formats_view(rows@), order@),
{
    let ghost kv = formats_view(rows@);
    let mut order: Vec<usize> = Vec::new();
    let mut i: usize = 0;
    while i < rows.len()
        invariant
            kv == formats_view(rows@),
            kv.len() == rows.len(),
            i <= rows.len(),
            order@.len() == i,
            forall|k: int| 0 <= k < order@.len() ==> #[trigger] order@[k] < i,
            forall|a: int, b: int| 0 <= a < b < order@.len() ==> order@[a] != order@[b],
            forall|a: int, b: int|
                0 <= a < b < order@.len() ==> #[trigger] format_before(kv, order@[a], order@[b]),
        decreases rows.len() - i,
    {
        let mut pos: usize = 0;
        while pos < order.len() && format_le_exec(&rows[order[pos]], &rows[i])
            invariant
                kv == formats_view(rows@),
                kv.len() == rows.len(),
                i < rows.len(),
                pos <= order@.len(),
                forall|k: int| 0 <= k < order@.len() ==> #[trigger] order@[k] < i,
                forall|q: int| 0 <= q < pos ==> format_le(#[trigger] kv[order@[q] as int], kv[i as int]),
            decreases order@.len() - pos,
        {
            assert(kv[order@[pos as int] as int] == rows@[order@[pos as int] as int]@);
            assert(kv[i as int] == rows@[i as int]@);
            pos = pos + 1;
        }
        let ghost old_order = order@;
        proof {
            if pos < order@.len() {
                assert(kv[order@[pos as int] as int] == rows@[order@[pos as int] as int]@);
                assert(kv[i as int] == rows@[i as int]@);
                assert(!format_le(kv[order@[pos as int] as int], kv[i as int]));
            }
        }
        order.insert(pos, i);
        proof {
            let n = order@;
            assert(n == old_order.insert(pos as int, i));
            assert forall|a: int, b: int| 0 <= a < b < n.len() implies #[trigger] format_before(
                kv,
                n[a],
                n[b],
            ) by {
                if b < pos {
                    assert(n[a] == old_order[a] && n[b] == old_order[b]);
                } else if a > pos {
                    assert(n[a] == old_order[a - 1] && n[b] == old_order[b - 1]);
                } else if a < pos && b > pos {
                    assert(n[a] == old_order[a] && n[b] == old_order[b - 1]);
                } else if b == pos {
                    // An earlier row no worse than the new one, with a smaller index.
                    assert(n[a] == old_order[a] && n[b] == i);
                    assert(format_le(kv[old_order[a] as int], kv[i as int]));
                    assert(old_order[a] < i);
                } else {
                    // a == pos: the new row is strictly better than every later one.
                    assert(n[a] == i && n[b] == old_order[b - 1]);
                    let p = old_order[pos as int];
                    let q = old_order[b - 1];
                    lemma_format_le_total(kv[p as int], kv[i as int]);
                    assert(format_le(kv[i as int], kv[p as int]));
                    if b - 1 > pos {
                        assert(format_before(kv, old_order[pos as int], old_order[b - 1]));
                        lemma_format_le_transitive(kv[i as int], kv[p as int], kv[q as int]);
                        if format_le(kv[q as int], kv[i as int]) {
                            lemma_format_le_transitive(kv[p as int], kv[q as int], kv[i as int]);
                        }
                    }
                }
            }
            assert forall|a: int, b: int| 0 <= a < b < n.len() implies n[a] != n[b] by {
                if b < pos {
                    assert(n[a] == old_order[a] && n[b] == old_order[b]);
                } else if a > pos {
                    assert(n[a] == old_order[a - 1] && n[b] == old_order[b - 1]);
                } else if a < pos && b > pos {
                    assert(n[a] == old_order[a] && n[b] == old_order[b - 1]);
                } else if b == pos {
                    assert(n[a] == old_order[a]);
                } else {
                    assert(n[b] == old_order[b - 1]);
                }
            }
            assert forall|k: int| 0 <= k < n.len() implies #[trigger] n[k] < i + 1 by {
                if k < pos {
                    assert(n[k] == old_order[k]);
                } else if k > pos {
                    assert(n[k] == old_order[k - 1]);
                }
            }
        }
        i = i + 1;
    }
    order
}

/// The rows sorted best first; rows that compare equal keep their order.
pub fn sort_formats(rows: Vec<AvailableFormat>) -> (sorted: Vec<AvailableFormat>)
    ensures
        is_sorted_formats(formats_view(rows@), formats_view(sorted@)),
{
    let order = format_order(&rows);
    let ghost kv = formats_view(rows@);
    let mut sorted: Vec<AvailableFormat> = Vec::new();
    let mut k: usize = 0;
    while k < order.len()
        invariant
            k <= order.len(),
            kv == formats_view(rows@),
            is_format_order(kv, order@),
            sorted@.len() == k,
            forall|j: int| 0 <= j < k ==> #[trigger] sorted@[j]@ == kv[order@[j] as int],
        decreases order.len() - k,
    {
        let idx = order[k];
        assert(kv[idx as int] == rows@[idx as int]@);
        sorted.push(rows[idx].duplicate());
        k = k + 1;
    }
    let ghost sv = formats_view(sorted@);
    assert forall|i: int| 0 <= i < order@.len() implies #[trigger] sv[i] == kv[order@[i] as int] by {
        assert(sv[i] == sorted@[i]@);
    }
    assert(is_format_order(kv, order@));
    sorted
}

/// The error shown when a document offers no format list.
pub open spec fn no_format_list_text() -> Seq<char> {
    "yt-dlp did not return a format list for this URL."@
}

/// The selectable formats of a `yt-dlp -J` document, best first; or why there are none.
pub fn selectable_formats(doc: &YtDlpDoc) -> (r: Result<Vec<AvailableFormat>, String>)
    ensures
        match format_list_of(doc@) {
            None => r matches Err(e) && e@ == no_format_list_text(),
            Some(l) => if available_formats_of(l).len() == 0 {
                r matches Err(e) && e@ == "No selectable video formats were found."@
            } else {
                r matches Ok(v) && is_sorted_formats(available_formats_of(l), formats_view(v@))
            },
        },
{
    let list = match format_list(doc) {
        Some(l) => l,
        None => return Err(to_owned_string("yt-dlp did not return a format list for this URL.")),
    };
    let rows = available_format_rows(list);
    let ghost rv = formats_view(rows@);
    let sorted = sort_formats(rows);
    proof {
        if sorted@.len() == 0 && rv.len() > 0 {
            let order = choose|order: Seq<usize>|
                {
                    &&& #[trigger] is_format_order(rv, order)
                    &&& formats_view(sorted@).len() == order.len()
                    &&& forall|i: int|
                        0 <= i < order.len() ==> #[trigger] formats_view(sorted@)[i] == rv[order[i] as int]
                };
            assert(formats_view(sorted@).len() == sorted@.len());
        }
        if sorted@.len() > 0 && rv.len() == 0 {
            let order = choose|order: Seq<usize>|
                {
                    &&& #[trigger] is_format_order(rv, order)
                    &&& formats_view(sorted@).len() == order.len()
                    &&& forall|i: int|
                        0 <= i < order.len() ==> #[trigger] formats_view(sorted@)[i] == rv[order[i] as int]
                };
            assert(formats_view(sorted@).len() == sorted@.len());
        }
    }
    require_selectable_formats(sorted)
}

} // verus!
