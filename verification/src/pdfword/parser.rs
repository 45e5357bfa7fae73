//! Text runs as pdftohtml's XML delivers them: inline bold/italic toggles,
//! font faces, dingbat bullets.

use vstd::prelude::*;

use crate::text::{ascii_lowercase, contains, has_infix, is_whitespace, is_ws, lower_seq, push_char, string_of};

verus! {

#[derive(Debug, Clone)]
pub struct TextRun {
    pub text: String,
    pub bold: bool,
    pub italic: bool,
}

impl DeepView for TextRun {
    type V = (Seq<char>, bool, bool);

    open spec fn deep_view(&self) -> (Seq<char>, bool, bool) {
        (self.text@, self.bold, self.italic)
    }
}

impl TextRun {
    /// A copy of a run.
    pub fn copy(&self) -> (r: TextRun)
        ensures
            r.deep_view() == self.deep_view(),
    {
        TextRun { text: string_of(self.text.as_str()), bold: self.bold, italic: self.italic }
    }
}

/// What a font family says of its face: bold, italic, and whether it is a
/// dingbat/symbol face (list bullets drawn as unmapped glyphs).
#[derive(Debug, Clone, Copy, PartialEq, Eq, Structural)]
pub struct FontFace {
    pub bold: bool,
    pub italic: bool,
    pub bullet: bool,
}

pub open spec fn face_of(family: Seq<char>) -> FontFace {
    let f = lower_seq(family);
    FontFace {
        bold: has_infix(f, "bold"@) || has_infix(f, "black"@) || has_infix(f, "heavy"@),
        italic: has_infix(f, "italic"@) || has_infix(f, "oblique"@),
        bullet: has_infix(f, "symbol"@) || has_infix(f, "dingbats"@),
    }
}

/// Bold/italic declared by the font face itself; dingbat/symbol fonts carry
/// list bullets as unmapped glyphs.
pub fn font_face(family: &str) -> (r: FontFace)
    ensures
        r == face_of(family@),
{
    let f = ascii_lowercase(family);
    let s = f.as_str();
    let bold = contains(s, "bold") || contains(s, "black") || contains(s, "heavy");
    let italic = contains(s, "italic") || contains(s, "oblique");
    let bullet = contains(s, "symbol") || contains(s, "dingbats");
    FontFace { bold, italic, bullet }
}

/// The runs after the pending text is flushed: appended to the last run
/// when it has the same style, else as a new run; nothing when empty.
pub open spec fn flushed(runs: Seq<(Seq<char>, bool, bool)>, pending: Seq<char>, bold: bool, italic: bool) -> Seq<(Seq<char>, bool, bool)> {
    if pending.len() == 0 {
        runs
    } else if runs.len() > 0 && runs.last().1 == bold && runs.last().2 == italic {
        runs.drop_last().push((runs.last().0 + pending, bold, italic))
    } else {
        runs.push((pending, bold, italic))
    }
}

/// Moves the pending text into the runs.
pub fn flush_run(runs: &mut Vec<TextRun>, pending: &mut String, bold: bool, italic: bool)
    ensures
        final(runs).deep_view() == flushed(old(runs).deep_view(), old(pending)@, bold, italic),
        final(pending)@.len() == 0,
{
    if pending.as_str().unicode_len() == 0 {
        return;
    }
    let mut taken = String::new();
    std::mem::swap(&mut taken, pending);
    let n = runs.len();
    if n > 0 && runs[n - 1].bold == bold && runs[n - 1].italic == italic {
        let mut last = runs.pop().unwrap();
        last.text.append(taken.as_str());
        runs.push(last);
        assert(runs.deep_view() =~= flushed(old(runs).deep_view(), old(pending)@, bold, italic));
        return;
    }
    runs.push(TextRun { text: taken, bold, italic });
    assert(runs.deep_view() =~= flushed(old(runs).deep_view(), old(pending)@, bold, italic));
}

/// All characters are whitespace (`str::trim().is_empty()`).
pub open spec fn blank(s: Seq<char>) -> bool {
    forall|i: int| 0 <= i < s.len() ==> is_ws(#[trigger] s[i])
}

pub fn is_blank(s: &str) -> (r: bool)
    ensures
        r == blank(s@),
{
    let n = s.unicode_len();
    let mut i: usize = 0;
    while i < n
        invariant
            n == s@.len(),
            i <= n,
            forall|j: int| 0 <= j < i ==> is_ws(#[trigger] s@[j]),
        decreases n - i,
    {
        if !is_whitespace(s.get_char(i)) {
            return false;
        }
        i = i + 1;
    }
    true
}

/// The runs of a finished text chunk: a chunk with only blank text is
/// dropped, unless its face is a bullet font, when it becomes one bullet.
pub open spec fn finalized(runs: Seq<(Seq<char>, bool, bool)>, bullet_font: bool) -> Option<Seq<(Seq<char>, bool, bool)>> {
    if forall|i: int| 0 <= i < runs.len() ==> blank(#[trigger] runs[i].0) {
        if bullet_font {
            Some(seq![(seq!['\u{2022}'], false, false)])
        } else {
            None
        }
    } else {
        Some(runs)
    }
}

/// Closes a text chunk: flushes the pending text, then keeps the runs, turns
/// a blank bullet-font chunk into a bullet, or drops a blank chunk.
pub fn finalize_runs(runs: Vec<TextRun>, pending: String, bold: bool, italic: bool, bullet_font: bool) -> (r: Option<Vec<TextRun>>)
    ensures
        match finalized(flushed(runs.deep_view(), pending@, bold, italic), bullet_font) {
            Some(v) => r is Some && r->0.deep_view() == v,
            None => r is None,
        },
{
    let mut runs = runs;
    let mut pending = pending;
    flush_run(&mut runs, &mut pending, bold, italic);
    let n = runs.len();
    let mut i: usize = 0;
    let mut all_blank = true;
    while i < n
        invariant
            n == runs@.len(),
            i <= n,
            all_blank == forall|j: int| 0 <= j < i ==> blank(#[trigger] runs.deep_view()[j].0),
        decreases n - i,
    {
        let b = is_blank(runs[i].text.as_str());
        proof {
            assert(runs.deep_view()[i as int].0 == runs@[i as int].text@);
        }
        all_blank = all_blank && b;
        i = i + 1;
    }
    if all_blank {
        if bullet_font {
            let mut bullet = String::new();
            push_char(&mut bullet, '\u{2022}');
            let v = vec![TextRun { text: bullet, bold: false, italic: false }];
            assert(v.deep_view() =~= seq![(seq!['\u{2022}'], false, false)]);
            Some(v)
        } else {
            None
        }
    } else {
        Some(runs)
    }
}

} // verus!
