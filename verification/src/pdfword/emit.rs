//! Text choices of the docx emission: heading styles and run colours.

use vstd::prelude::*;

use crate::pdfword::layout::Heading;
use crate::text::{eq_ignore_ascii_case, eq_ignore_case, strip_leading, string_of, trim_start_char};

verus! {

/// The paragraph style of a heading level.
pub open spec fn style_of(h: Heading) -> Seq<char> {
    match h {
        Heading::H1 => "Heading1"@,
        Heading::H2 => "Heading2"@,
        Heading::H3 => "Heading3"@,
    }
}

/// The paragraph style of a heading level.
pub fn heading_style(h: Heading) -> (r: &'static str)
    ensures
        r@ == style_of(h),
{
    match h {
        Heading::H1 => "Heading1",
        Heading::H2 => "Heading2",
        Heading::H3 => "Heading3",
    }
}

/// Black as pdftohtml writes it (any case).
pub open spec fn is_black(c: Seq<char>) -> bool {
    eq_ignore_case(c, "#000000"@)
}

/// The colour a run is given: none for black or no colour, else the hex
/// digits without their leading `#`.
pub open spec fn run_color_spec(color: Option<Seq<char>>) -> Option<Seq<char>> {
    match color {
        Some(c) => if is_black(c) { None } else { Some(strip_leading(c, '#')) },
        None => None,
    }
}

/// The colour a run is given in the document.
pub fn run_color(color: &Option<String>) -> (r: Option<String>)
    ensures
        r.deep_view() == run_color_spec(color.deep_view()),
{
    match color {
        Some(c) => {
            if eq_ignore_ascii_case(c.as_str(), "#000000") {
                None
            } else {
                Some(string_of(trim_start_char(c.as_str(), '#')))
            }
        },
        None => None,
    }
}

/// A colour written `#` and its hex digits is given to a run as those
/// digits, unless it is black (in any case), which is left to the default.
pub proof fn lemma_run_color_drops_the_hash(h: Seq<char>)
    requires
        h.len() == 0 || h[0] != '#',
    ensures
        run_color_spec(Some(seq!['#'] + h)) == if is_black(seq!['#'] + h) { None } else { Some(h) },
        run_color_spec(None) is None,
{
    let c = seq!['#'] + h;
    crate::text::lemma_lead(c, crate::text::is_char('#'), 1);
    assert(c.skip(1) =~= h);
}

/// How a paragraph is set in the document: a page break before the first
/// block of every page but the first, its heading's style, and a hanging
/// indent of 360 twips for list items.
#[derive(Debug)]
pub struct ParaLayout {
    pub page_break: bool,
    pub style: Option<&'static str>,
    pub indent: Option<i32>,
}

/// The layout of block `block_idx` of page `page_idx` when it is a
/// paragraph with this heading level and list flag.
pub fn para_layout(page_idx: usize, block_idx: usize, heading: Option<Heading>, list: bool) -> (r: ParaLayout)
    ensures
        r.page_break == (page_idx > 0 && block_idx == 0),
        match heading {
            Some(h) => r.style matches Some(s) && s@ == style_of(h),
            None => r.style is None,
        },
        r.indent == if list { Some(360i32) } else { None },
{
    let style = match heading {
        Some(h) => Some(heading_style(h)),
        None => None,
    };
    ParaLayout { page_break: page_idx > 0 && block_idx == 0, style, indent: if list { Some(360) } else { None } }
}

/// Whether a run is set in bold: bold runs and every run of a heading.
pub fn run_bold(bold: bool, heading: Option<Heading>) -> (r: bool)
    ensures
        r == (bold || heading is Some),
{
    bold || heading.is_some()
}

} // verus!
