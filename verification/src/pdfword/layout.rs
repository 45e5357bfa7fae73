//! Text rules of the geometric re-flow: list bullets and numbering, run
//! joining across chunks and lines, bold majority.

use vstd::prelude::*;

use crate::pdfword::parser::TextRun;
use crate::text::{has_prefix, is_alnum, is_digit, push_char, starts_with, string_of, trim_start, trim_start_seq};

verus! {

#[derive(Debug, Clone, Copy, PartialEq, Eq, Structural)]
pub enum Heading {
    H1,
    H2,
    H3,
}

/// A line that starts (after indentation) with a bullet glyph, `* ` or `- `.
pub open spec fn bullet_text(text: Seq<char>) -> bool {
    let t = trim_start_seq(text);
    (t.len() > 0 && (t[0] == '\u{2022}' || t[0] == '\u{25CF}' || t[0] == '\u{25CB}'
        || t[0] == '\u{25AA}' || t[0] == '\u{00B7}'))
        || has_prefix(t, "* "@) || has_prefix(t, "- "@)
}

pub fn is_bullet_text(text: &str) -> (r: bool)
    ensures
        r == bullet_text(text@),
{
    let t = trim_start(text);
    let n = t.unicode_len();
    if n > 0 {
        let c = t.get_char(0);
        if c == '\u{2022}' || c == '\u{25CF}' || c == '\u{25CB}' || c == '\u{25AA}' || c == '\u{00B7}' {
            return true;
        }
    }
    starts_with(t, "* ") || starts_with(t, "- ")
}

/// A line that starts (after indentation) with a digit whose third
/// character is `.` or `)`, as in `12.` or `3a)`.
pub open spec fn numbered(text: Seq<char>) -> bool {
    let t = trim_start_seq(text);
    let d1 = t.len() > 0 && is_digit(t[0]);
    let d2 = t.len() > 1 && is_digit(t[1]);
    let dot = t.len() > 2 && t[2] == '.';
    let paren = t.len() > 2 && t[2] == ')';
    d1 && (dot || paren || (d2 && dot))
}

pub fn is_numbered(text: &str) -> (r: bool)
    ensures
        r == numbered(text@),
{
    let t = trim_start(text);
    let n = t.unicode_len();
    let d1 = n > 0 && {
        let c = t.get_char(0);
        '0' <= c && c <= '9'
    };
    let d2 = n > 1 && {
        let c = t.get_char(1);
        '0' <= c && c <= '9'
    };
    let dot = n > 2 && t.get_char(2) == '.';
    let paren = n > 2 && t.get_char(2) == ')';
    d1 && (dot || paren || (d2 && dot))
}

/// The text of runs, concatenated.
pub open spec fn runs_text_spec(runs: Seq<(Seq<char>, bool, bool)>) -> Seq<char>
    decreases runs.len(),
{
    if runs.len() == 0 {
        Seq::empty()
    } else {
        runs_text_spec(runs.drop_last()) + runs.last().0
    }
}

/// The text of runs, concatenated.
pub fn runs_text(runs: &Vec<TextRun>) -> (r: String)
    ensures
        r@ == runs_text_spec(runs.deep_view()),
{
    let mut out = String::new();
    let n = runs.len();
    let mut i: usize = 0;
    while i < n
        invariant
            n == runs@.len(),
            i <= n,
            out@ == runs_text_spec(runs.deep_view().take(i as int)),
        decreases n - i,
    {
        out.append(runs[i].text.as_str());
        assert(runs.deep_view().take(i + 1).drop_last() =~= runs.deep_view().take(i as int));
        i = i + 1;
    }
    assert(runs.deep_view().take(n as int) =~= runs.deep_view());
    out
}

/// The last run with a space appended to its text.
pub open spec fn space_last(runs: Seq<(Seq<char>, bool, bool)>) -> Seq<(Seq<char>, bool, bool)> {
    runs.drop_last().push((runs.last().0.push(' '), runs.last().1, runs.last().2))
}

/// A line's runs appended to a paragraph's: two ASCII letters or digits
/// meeting at the line break are kept apart by a space (word wrap).
pub open spec fn wrap_join(para: Seq<(Seq<char>, bool, bool)>, line: Seq<(Seq<char>, bool, bool)>) -> Seq<(Seq<char>, bool, bool)> {
    let sep = para.len() > 0 && line.len() > 0 && para.last().0.len() > 0 && line[0].0.len() > 0
        && is_alnum(para.last().0.last()) && is_alnum(line[0].0[0]);
    (if sep { space_last(para) } else { para }) + line
}

fn append_space_to_last(runs: &mut Vec<TextRun>)
    requires
        old(runs)@.len() > 0,
    ensures
        final(runs).deep_view() == space_last(old(runs).deep_view()),
{
    let mut last = runs.pop().unwrap();
    push_char(&mut last.text, ' ');
    runs.push(last);
    assert(runs.deep_view() =~= space_last(old(runs).deep_view()));
}

fn is_ascii_alnum(c: char) -> (r: bool)
    ensures
        r == is_alnum(c),
{
    ('0' <= c && c <= '9') || ('a' <= c && c <= 'z') || ('A' <= c && c <= 'Z')
}

/// Appends a line's runs to a paragraph (word-wrap boundary kept).
pub fn append_line_runs(para: &mut Vec<TextRun>, line: Vec<TextRun>)
    ensures
        final(para).deep_view() == wrap_join(old(para).deep_view(), line.deep_view()),
{
    let n = para.len();
    if n > 0 && line.len() > 0 {
        let lt = para[n - 1].text.as_str();
        let ft = line[0].text.as_str();
        let ln = lt.unicode_len();
        let fnn = ft.unicode_len();
        if ln > 0 && fnn > 0 {
            let lc = lt.get_char(ln - 1);
            let fc = ft.get_char(0);
            if is_ascii_alnum(lc) && is_ascii_alnum(fc) {
                append_space_to_last(para);
            }
        }
    }
    let ghost mid = para.deep_view();
    let ghost lv = line.deep_view();
    let mut line = line;
    para.append(&mut line);
    assert(para.deep_view() =~= mid + lv);
}

pub open spec fn nonempty_run() -> spec_fn((Seq<char>, bool, bool)) -> bool {
    |r: (Seq<char>, bool, bool)| r.0.len() > 0
}

/// A chunk's runs appended to a line's: a horizontal gap before the chunk
/// ends the previous text with a space (once), empty runs are skipped.
pub open spec fn chunk_join(runs: Seq<(Seq<char>, bool, bool)>, chunk: Seq<(Seq<char>, bool, bool)>, gap_before: bool) -> Seq<(Seq<char>, bool, bool)> {
    let spaced = gap_before && runs.len() > 0 && runs.last().0.len() > 0 && runs.last().0.last() != ' ';
    (if spaced { space_last(runs) } else { runs }) + chunk.filter(nonempty_run())
}

/// Appends a chunk's runs to a line's runs.
pub fn add_chunk_runs(runs: &mut Vec<TextRun>, chunk: &Vec<TextRun>, gap_before: bool)
    ensures
        final(runs).deep_view() == chunk_join(old(runs).deep_view(), chunk.deep_view(), gap_before),
{
    if gap_before {
        let n = runs.len();
        if n > 0 {
            let t = runs[n - 1].text.as_str();
            let k = t.unicode_len();
            if k > 0 && t.get_char(k - 1) != ' ' {
                append_space_to_last(runs);
            }
        }
    }
    let ghost base = runs.deep_view();
    let m = chunk.len();
    let mut i: usize = 0;
    while i < m
        invariant
            m == chunk@.len(),
            i <= m,
            runs.deep_view() == base + chunk.deep_view().take(i as int).filter(nonempty_run()),
        decreases m - i,
    {
        reveal_with_fuel(Seq::<_>::filter, 1);
        assert(chunk.deep_view().take(i + 1).drop_last() =~= chunk.deep_view().take(i as int));
        let ghost cur = chunk.deep_view().take(i + 1);
        assert(cur.last() == chunk.deep_view()[i as int]);
        if chunk[i].text.as_str().unicode_len() > 0 {
            let ghost before = runs.deep_view();
            let item = chunk[i].copy();
            runs.push(item);
            assert(nonempty_run()(cur.last()));
            assert(cur.filter(nonempty_run()) == cur.drop_last().filter(nonempty_run()).push(cur.last()));
            assert(runs.deep_view() =~= before.push(cur.last()));
        }
        i = i + 1;
    }
    assert(chunk.deep_view().take(m as int) =~= chunk.deep_view());
}

} // verus!

verus! {

proof fn lemma_runs_text_concat(a: Seq<(Seq<char>, bool, bool)>, b: Seq<(Seq<char>, bool, bool)>)
    ensures
        runs_text_spec(a + b) == runs_text_spec(a) + runs_text_spec(b),
    decreases b.len(),
{
    if b.len() == 0 {
        assert(a + b =~= a);
        assert(runs_text_spec(a) + runs_text_spec(b) =~= runs_text_spec(a));
    } else {
        lemma_runs_text_concat(a, b.drop_last());
        assert((a + b).drop_last() =~= a + b.drop_last());
        assert(runs_text_spec(a) + runs_text_spec(b.drop_last()) + b.last().0
            =~= runs_text_spec(a) + (runs_text_spec(b.drop_last()) + b.last().0));
    }
}

proof fn lemma_runs_text_space_last(r: Seq<(Seq<char>, bool, bool)>)
    requires
        r.len() > 0,
    ensures
        runs_text_spec(space_last(r)) == runs_text_spec(r).push(' '),
{
    let s = space_last(r);
    assert(s.drop_last() =~= r.drop_last());
    assert(runs_text_spec(r.drop_last()) + r.last().0.push(' ') =~= (runs_text_spec(r.drop_last()) + r.last().0).push(' '));
}

proof fn lemma_runs_text_skip_empty(c: Seq<(Seq<char>, bool, bool)>)
    ensures
        runs_text_spec(c.filter(nonempty_run())) == runs_text_spec(c),
    decreases c.len(),
{
    reveal_with_fuel(Seq::<_>::filter, 1);
    if c.len() > 0 {
        lemma_runs_text_skip_empty(c.drop_last());
        let f = c.drop_last().filter(nonempty_run());
        if c.last().0.len() > 0 {
            assert(f.push(c.last()).drop_last() =~= f);
        } else {
            assert(runs_text_spec(c.drop_last()) + c.last().0 =~= runs_text_spec(c.drop_last()));
        }
    }
}

proof fn lemma_lead_bounds(s: Seq<char>)
    ensures
        crate::text::lead(s, crate::text::ws_pred()) <= s.len(),
        forall|j: int| 0 <= j < crate::text::lead(s, crate::text::ws_pred()) ==> crate::text::is_ws(#[trigger] s[j]),
        crate::text::lead(s, crate::text::ws_pred()) < s.len()
            ==> !crate::text::is_ws(s[crate::text::lead(s, crate::text::ws_pred()) as int]),
    decreases s.len(),
{
    if s.len() > 0 && crate::text::is_ws(s[0]) {
        let t = s.drop_first();
        lemma_lead_bounds(t);
        assert forall|j: int| 0 <= j < crate::text::lead(s, crate::text::ws_pred()) implies crate::text::is_ws(#[trigger] s[j]) by {
            if j > 0 {
                assert(s[j] == t[j - 1]);
            }
        }
    }
}

/// Indentation does not make or unmake a list item: a line with leading
/// whitespace is a bullet or numbered item exactly when the line without it
/// is.
pub proof fn lemma_indent_ignored(w: Seq<char>, t: Seq<char>)
    requires
        forall|i: int| 0 <= i < w.len() ==> crate::text::is_ws(#[trigger] w[i]),
    ensures
        trim_start_seq(w + t) == trim_start_seq(t),
        bullet_text(w + t) == bullet_text(t),
        numbered(w + t) == numbered(t),
{
    let s = w + t;
    lemma_lead_bounds(t);
    let k = crate::text::lead(t, crate::text::ws_pred());
    let i: int = (w.len() + k) as int;
    assert forall|j: int| 0 <= j < i implies #[trigger] (crate::text::ws_pred())(s[j]) by {
        if j < w.len() {
            assert(s[j] == w[j]);
        } else {
            assert(s[j] == t[j - w.len()]);
        }
    }
    if i < s.len() {
        assert(s[i] == t[k as int]);
    }
    crate::text::lemma_lead(s, crate::text::ws_pred(), i);
    assert(s.skip(i) =~= t.skip(k as int));
}

/// Joining a line to a paragraph keeps all the text in order and adds at
/// most one character: a space, exactly when an ASCII letter or digit ends
/// the paragraph and another begins the line.
pub proof fn lemma_wrap_join_text(para: Seq<(Seq<char>, bool, bool)>, line: Seq<(Seq<char>, bool, bool)>)
    ensures
        ({
            let sep = para.len() > 0 && line.len() > 0 && para.last().0.len() > 0 && line[0].0.len() > 0
                && is_alnum(para.last().0.last()) && is_alnum(line[0].0[0]);
            runs_text_spec(wrap_join(para, line)) == runs_text_spec(para) + (if sep { seq![' '] } else { Seq::empty() })
                + runs_text_spec(line)
        }),
        wrap_join(para, line).len() == para.len() + line.len(),
{
    let sep = para.len() > 0 && line.len() > 0 && para.last().0.len() > 0 && line[0].0.len() > 0
        && is_alnum(para.last().0.last()) && is_alnum(line[0].0[0]);
    if sep {
        lemma_runs_text_concat(space_last(para), line);
        lemma_runs_text_space_last(para);
        assert(runs_text_spec(para).push(' ') =~= runs_text_spec(para) + seq![' ']);
    } else {
        lemma_runs_text_concat(para, line);
        assert(runs_text_spec(para) + Seq::<char>::empty() =~= runs_text_spec(para));
    }
}

/// Joining a chunk to a line keeps all the text in order and adds at most
/// one character: a space, exactly when there is a gap before the chunk and
/// the line's text so far does not already end in one; runs with no text
/// are dropped, every other run keeps its face.
pub proof fn lemma_chunk_join_text(runs: Seq<(Seq<char>, bool, bool)>, chunk: Seq<(Seq<char>, bool, bool)>, gap_before: bool)
    ensures
        ({
            let spaced = gap_before && runs.len() > 0 && runs.last().0.len() > 0 && runs.last().0.last() != ' ';
            runs_text_spec(chunk_join(runs, chunk, gap_before)) == runs_text_spec(runs)
                + (if spaced { seq![' '] } else { Seq::empty() }) + runs_text_spec(chunk)
        }),
        forall|i: int| runs.len() <= i < chunk_join(runs, chunk, gap_before).len()
            ==> (#[trigger] chunk_join(runs, chunk, gap_before)[i]).0.len() > 0
                && chunk.contains(chunk_join(runs, chunk, gap_before)[i]),
{
    let spaced = gap_before && runs.len() > 0 && runs.last().0.len() > 0 && runs.last().0.last() != ' ';
    let kept = chunk.filter(nonempty_run());
    lemma_runs_text_skip_empty(chunk);
    if spaced {
        lemma_runs_text_concat(space_last(runs), kept);
        lemma_runs_text_space_last(runs);
        assert(runs_text_spec(runs).push(' ') =~= runs_text_spec(runs) + seq![' ']);
    } else {
        lemma_runs_text_concat(runs, kept);
        assert(runs_text_spec(runs) + Seq::<char>::empty() =~= runs_text_spec(runs));
    }
    let j = chunk_join(runs, chunk, gap_before);
    let base = if spaced { space_last(runs) } else { runs };
    assert(base.len() == runs.len());
    assert forall|i: int| runs.len() <= i < j.len() implies (#[trigger] j[i]).0.len() > 0 && chunk.contains(j[i]) by {
        let k = i - runs.len();
        assert(j[i] == kept[k]);
        chunk.lemma_filter_pred(nonempty_run(), k);
        assert(kept.contains(kept[k]));
        chunk.lemma_filter_contains_rev(nonempty_run(), kept[k]);
    }
}

/// How many runs are bold.
pub open spec fn bold_runs(runs: Seq<(Seq<char>, bool, bool)>) -> nat
    decreases runs.len(),
{
    if runs.len() == 0 {
        0
    } else {
        bold_runs(runs.drop_last()) + if runs.last().1 { 1nat } else { 0nat }
    }
}

/// How many characters the runs hold.
pub open spec fn run_chars(runs: Seq<(Seq<char>, bool, bool)>) -> nat
    decreases runs.len(),
{
    if runs.len() == 0 {
        0
    } else {
        run_chars(runs.drop_last()) + runs.last().0.len()
    }
}

pub open spec fn line_bold_runs(chunks: Seq<Seq<(Seq<char>, bool, bool)>>) -> nat
    decreases chunks.len(),
{
    if chunks.len() == 0 {
        0
    } else {
        line_bold_runs(chunks.drop_last()) + bold_runs(chunks.last())
    }
}

pub open spec fn line_chars(chunks: Seq<Seq<(Seq<char>, bool, bool)>>) -> nat
    decreases chunks.len(),
{
    if chunks.len() == 0 {
        0
    } else {
        line_chars(chunks.drop_last()) + run_chars(chunks.last())
    }
}

proof fn lemma_line_counts_grow(chunks: Seq<Seq<(Seq<char>, bool, bool)>>, k: int)
    requires
        0 <= k <= chunks.len(),
    ensures
        line_bold_runs(chunks.take(k)) <= line_bold_runs(chunks),
        line_chars(chunks.take(k)) <= line_chars(chunks),
    decreases chunks.len() - k,
{
    if k < chunks.len() {
        lemma_line_counts_grow(chunks, k + 1);
        assert(chunks.take(k + 1).drop_last() =~= chunks.take(k));
    } else {
        assert(chunks.take(k) =~= chunks);
    }
}

proof fn lemma_run_counts_grow(runs: Seq<(Seq<char>, bool, bool)>, k: int)
    requires
        0 <= k <= runs.len(),
    ensures
        bold_runs(runs.take(k)) <= bold_runs(runs),
        run_chars(runs.take(k)) <= run_chars(runs),
    decreases runs.len() - k,
{
    if k < runs.len() {
        lemma_run_counts_grow(runs, k + 1);
        assert(runs.take(k + 1).drop_last() =~= runs.take(k));
    } else {
        assert(runs.take(k) =~= runs);
    }
}

/// A line counts as bold when twice the number of its bold runs exceeds
/// the number of its characters (runs, not characters, are counted on the
/// bold side).
pub fn bold_majority(chunks: &Vec<Vec<TextRun>>) -> (r: bool)
    requires
        line_bold_runs(chunks.deep_view()) + line_chars(chunks.deep_view()) <= u64::MAX / 4,
    ensures
        r == (2 * line_bold_runs(chunks.deep_view()) > line_chars(chunks.deep_view())),
{
    let ghost all = chunks.deep_view();
    let n = chunks.len();
    let mut bold: u64 = 0;
    let mut total: u64 = 0;
    let mut i: usize = 0;
    while i < n
        invariant
            n == all.len(),
            all == chunks.deep_view(),
            line_bold_runs(all) + line_chars(all) <= u64::MAX / 4,
            i <= n,
            bold == line_bold_runs(all.take(i as int)),
            total == line_chars(all.take(i as int)),
        decreases n - i,
    {
        let runs = &chunks[i];
        let ghost rv = all[i as int];
        assert(rv == runs.deep_view());
        proof {
            lemma_line_counts_grow(all, i + 1);
            assert(all.take(i + 1).drop_last() =~= all.take(i as int));
        }
        let m = runs.len();
        let mut j: usize = 0;
        let ghost b0 = bold;
        let ghost t0 = total;
        while j < m
            invariant
                m == rv.len(),
                rv == runs.deep_view(),
                j <= m,
                b0 + bold_runs(rv) + t0 + run_chars(rv) <= u64::MAX / 4,
                bold == b0 + bold_runs(rv.take(j as int)),
                total == t0 + run_chars(rv.take(j as int)),
            decreases m - j,
        {
            proof {
                lemma_run_counts_grow(rv, j + 1);
                assert(rv.take(j + 1).drop_last() =~= rv.take(j as int));
            }
            if runs[j].bold {
                bold = bold + 1;
            }
            let len = runs[j].text.as_str().unicode_len();
            total = total + len as u64;
            j = j + 1;
        }
        assert(rv.take(m as int) =~= rv);
        i = i + 1;
    }
    assert(all.take(n as int) =~= all);
    bold * 2 > total
}

} // verus!

verus! {

/// A chunk colour that is set and not black.
pub open spec fn colored(c: Option<Seq<char>>) -> bool {
    c matches Some(s) && !crate::pdfword::emit::is_black(s)
}

/// The colour of a paragraph started by a line: the first chunk colour that
/// is set and not black, else the first chunk's colour.
pub fn para_color(colors: &Vec<Option<String>>) -> (r: Option<String>)
    ensures
        (forall|k: int| 0 <= k < colors@.len() ==> !colored(#[trigger] colors.deep_view()[k]))
            ==> r.deep_view() == (if colors@.len() > 0 { colors.deep_view()[0] } else { None }),
        (exists|k: int| 0 <= k < colors@.len() && colored(#[trigger] colors.deep_view()[k]))
            ==> exists|i: int| 0 <= i < colors@.len() && colored(#[trigger] colors.deep_view()[i])
                && (forall|k: int| 0 <= k < i ==> !colored(#[trigger] colors.deep_view()[k]))
                && r.deep_view() == colors.deep_view()[i],
{
    let ghost cv = colors.deep_view();
    let n = colors.len();
    let mut i: usize = 0;
    while i < n
        invariant
            n == colors@.len(),
            cv == colors.deep_view(),
            i <= n,
            forall|k: int| 0 <= k < i ==> !colored(#[trigger] cv[k]),
        decreases n - i,
    {
        match &colors[i] {
            Some(c) => {
                if !crate::text::eq_ignore_ascii_case(c.as_str(), "#000000") {
                    assert(cv[i as int] == Some(c@));
                    return Some(string_of(c.as_str()));
                }
                assert(cv[i as int] == Some(c@));
            },
            None => {
                assert(cv[i as int] is None);
            },
        }
        i = i + 1;
    }
    if n > 0 {
        match &colors[0] {
            Some(c) => {
                assert(cv[0] == Some(c@));
                Some(string_of(c.as_str()))
            },
            None => {
                assert(cv[0] is None);
                None
            },
        }
    } else {
        None
    }
}

} // verus!
