//! pdftohtml's positioned-chunk XML read into a document model: pages,
//! font specs, text chunks made of styled runs, and images. Positions and
//! sizes are kept as the attribute text pdftohtml wrote.

use vstd::prelude::*;

use quick_xml::events::{BytesStart, Event};
use quick_xml::Reader;

use crate::pdfword::parser::{blank, face_of, finalize_runs, finalized, flush_run, flushed, font_face, TextRun};
use crate::text::{ascii_lowercase, eq_ignore_ascii_case, eq_ignore_case, lower_seq, str_eq, string_of};

verus! {

/// One event of the XML: an opening, self-closing or closing tag with its
/// name (and attributes, as key and value), text, the end of the input, or
/// anything else (comments, declarations, ...).
#[derive(Debug)]
pub enum XmlEvent {
    Start { name: String, attrs: Vec<(String, String)> },
    Empty { name: String, attrs: Vec<(String, String)> },
    End { name: String },
    Text(String),
    Eof,
    Other,
}

/// A `<fontspec>`: its id, size, family and colour as written.
#[derive(Debug)]
pub struct FontSpec {
    pub id: String,
    pub size: Option<String>,
    pub family: String,
    pub color: Option<String>,
}

/// A `<text>` chunk: its box as written, the size and colour of its font
/// spec, and its runs.
#[derive(Debug)]
pub struct ChunkModel {
    pub left: Option<String>,
    pub top: Option<String>,
    pub width: Option<String>,
    pub height: Option<String>,
    pub size: Option<String>,
    pub color: Option<String>,
    pub runs: Vec<TextRun>,
}

/// An `<image>`: its box as written and its `src`.
#[derive(Debug)]
pub struct ImageModel {
    pub left: Option<String>,
    pub top: Option<String>,
    pub width: Option<String>,
    pub height: Option<String>,
    pub src: String,
}

/// A `<page>`: its size as written, its chunks and images in order.
#[derive(Debug)]
pub struct PageModel {
    pub width: Option<String>,
    pub height: Option<String>,
    pub chunks: Vec<ChunkModel>,
    pub images: Vec<ImageModel>,
}

/// The pages of a document.
#[derive(Debug)]
pub struct DocModel {
    pub pages: Vec<PageModel>,
}

/// A `<text>` being read: the chunk so far, the text not yet in a run, the
/// bold/italic toggles, and whether the face is a bullet font.
#[derive(Debug)]
pub struct OpenChunk {
    pub chunk: ChunkModel,
    pub pending: String,
    pub bold: bool,
    pub italic: bool,
    pub bullet_font: bool,
}

/// The reader's state: the document so far, the font specs of the current
/// page, and the chunk being read.
#[derive(Debug)]
pub struct ParseState {
    pub doc: DocModel,
    pub fonts: Vec<FontSpec>,
    pub open: Option<OpenChunk>,
}

pub type Attrs = Seq<(Seq<char>, Seq<char>)>;
pub type Runs = Seq<(Seq<char>, bool, bool)>;

pub enum EventView {
    Start(Seq<char>, Attrs),
    Empty(Seq<char>, Attrs),
    End(Seq<char>),
    Text(Seq<char>),
    Eof,
    Other,
}

pub struct FontView {
    pub id: Seq<char>,
    pub size: Option<Seq<char>>,
    pub family: Seq<char>,
    pub color: Option<Seq<char>>,
}

pub struct ChunkView {
    pub left: Option<Seq<char>>,
    pub top: Option<Seq<char>>,
    pub width: Option<Seq<char>>,
    pub height: Option<Seq<char>>,
    pub size: Option<Seq<char>>,
    pub color: Option<Seq<char>>,
    pub runs: Runs,
}

pub struct PictureView {
    pub left: Option<Seq<char>>,
    pub top: Option<Seq<char>>,
    pub width: Option<Seq<char>>,
    pub height: Option<Seq<char>>,
    pub src: Seq<char>,
}

pub struct PageView {
    pub width: Option<Seq<char>>,
    pub height: Option<Seq<char>>,
    pub chunks: Seq<ChunkView>,
    pub images: Seq<PictureView>,
}

pub struct OpenView {
    pub chunk: ChunkView,
    pub pending: Seq<char>,
    pub bold: bool,
    pub italic: bool,
    pub bullet_font: bool,
}

pub struct StateView {
    pub pages: Seq<PageView>,
    pub fonts: Seq<FontView>,
    pub open: Option<OpenView>,
}

impl DeepView for XmlEvent {
    type V = EventView;

    open spec fn deep_view(&self) -> EventView {
        match self {
            XmlEvent::Start { name, attrs } => EventView::Start(name@, attrs.deep_view()),
            XmlEvent::Empty { name, attrs } => EventView::Empty(name@, attrs.deep_view()),
            XmlEvent::End { name } => EventView::End(name@),
            XmlEvent::Text(t) => EventView::Text(t@),
            XmlEvent::Eof => EventView::Eof,
            XmlEvent::Other => EventView::Other,
        }
    }
}

impl DeepView for FontSpec {
    type V = FontView;

    open spec fn deep_view(&self) -> FontView {
        FontView { id: self.id@, size: self.size.deep_view(), family: self.family@, color: self.color.deep_view() }
    }
}

impl DeepView for ChunkModel {
    type V = ChunkView;

    open spec fn deep_view(&self) -> ChunkView {
        ChunkView {
            left: self.left.deep_view(),
            top: self.top.deep_view(),
            width: self.width.deep_view(),
            height: self.height.deep_view(),
            size: self.size.deep_view(),
            color: self.color.deep_view(),
            runs: self.runs.deep_view(),
        }
    }
}

impl DeepView for ImageModel {
    type V = PictureView;

    open spec fn deep_view(&self) -> PictureView {
        PictureView {
            left: self.left.deep_view(),
            top: self.top.deep_view(),
            width: self.width.deep_view(),
            height: self.height.deep_view(),
            src: self.src@,
        }
    }
}

impl DeepView for PageModel {
    type V = PageView;

    open spec fn deep_view(&self) -> PageView {
        PageView {
            width: self.width.deep_view(),
            height: self.height.deep_view(),
            chunks: self.chunks.deep_view(),
            images: self.images.deep_view(),
        }
    }
}

impl DeepView for OpenChunk {
    type V = OpenView;

    open spec fn deep_view(&self) -> OpenView {
        OpenView {
            chunk: self.chunk.deep_view(),
            pending: self.pending@,
            bold: self.bold,
            italic: self.italic,
            bullet_font: self.bullet_font,
        }
    }
}

impl DeepView for ParseState {
    type V = StateView;

    open spec fn deep_view(&self) -> StateView {
        StateView { pages: self.doc.pages.deep_view(), fonts: self.fonts.deep_view(), open: self.open.deep_view() }
    }
}

/// Attribute `i` has the key (any case).
pub open spec fn key_at(a: Attrs, i: int, key: Seq<char>) -> bool {
    0 <= i < a.len() && eq_ignore_case(a[i].0, key)
}

/// The value of the first attribute with the key (any case), if any.
pub open spec fn attr_of(a: Attrs, key: Seq<char>) -> Option<Seq<char>> {
    if exists|i: int| key_at(a, i, key) {
        let i = choose|i: int| key_at(a, i, key) && forall|j: int| 0 <= j < i ==> !key_at(a, j, key);
        Some(a[i].1)
    } else {
        None
    }
}

/// The value of an attribute, or the empty text when there is none.
pub open spec fn attr_or_empty(a: Attrs, key: Seq<char>) -> Seq<char> {
    match attr_of(a, key) {
        Some(v) => v,
        None => Seq::empty(),
    }
}

/// The font spec with the id that was declared last, if any.
pub open spec fn font_of(fonts: Seq<FontView>, id: Seq<char>) -> Option<int> {
    if exists|i: int| 0 <= i < fonts.len() && fonts[i].id == id {
        Some(choose|i: int| 0 <= i < fonts.len() && fonts[i].id == id
            && forall|j: int| i < j < fonts.len() ==> fonts[j].id != id)
    } else {
        None
    }
}

/// A `<text>` opened with these attributes: its box, its font spec's size
/// and colour, bold/italic/bullet from the spec's family.
pub open spec fn opened(fonts: Seq<FontView>, a: Attrs) -> OpenView {
    let font = font_of(fonts, attr_or_empty(a, "font"@));
    let family = match font {
        Some(i) => fonts[i].family,
        None => Seq::empty(),
    };
    let face = face_of(family);
    OpenView {
        chunk: ChunkView {
            left: attr_of(a, "left"@),
            top: attr_of(a, "top"@),
            width: attr_of(a, "width"@),
            height: attr_of(a, "height"@),
            size: match font {
                Some(i) => fonts[i].size,
                None => None,
            },
            color: match font {
                Some(i) => fonts[i].color,
                None => None,
            },
            runs: Seq::empty(),
        },
        pending: Seq::empty(),
        bold: face.bold,
        italic: face.italic,
        bullet_font: face.bullet,
    }
}

/// The open chunk with its pending text moved into its runs and a toggle set.
pub open spec fn toggled(o: OpenView, bold: bool, italic: bool) -> OpenView {
    OpenView {
        chunk: ChunkView { runs: flushed(o.chunk.runs, o.pending, o.bold, o.italic), ..o.chunk },
        pending: Seq::empty(),
        bold,
        italic,
        ..o
    }
}

/// A chunk closed: it joins the last page when it is kept (see
/// [`finalized`]) and there is a page.
pub open spec fn closed(s: StateView, o: OpenView) -> StateView {
    match finalized(flushed(o.chunk.runs, o.pending, o.bold, o.italic), o.bullet_font) {
        Some(runs) => if s.pages.len() > 0 {
            let last = s.pages.last();
            StateView {
                pages: s.pages.drop_last().push(
                    PageView { chunks: last.chunks.push(ChunkView { runs, ..o.chunk }), ..last },
                ),
                ..s
            }
        } else {
            s
        },
        None => s,
    }
}

/// The state after an opening (or, with `empty`, self-closing) tag named `n`
/// (lower case).
pub open spec fn start_view(s: StateView, n: Seq<char>, a: Attrs, empty: bool) -> StateView {
    if n == "page"@ {
        StateView {
            pages: s.pages.push(PageView {
                width: attr_of(a, "width"@),
                height: attr_of(a, "height"@),
                chunks: Seq::empty(),
                images: Seq::empty(),
            }),
            fonts: Seq::empty(),
            ..s
        }
    } else if n == "fontspec"@ {
        StateView {
            fonts: s.fonts.push(FontView {
                id: attr_or_empty(a, "id"@),
                size: attr_of(a, "size"@),
                family: attr_or_empty(a, "family"@),
                color: attr_of(a, "color"@),
            }),
            ..s
        }
    } else if n == "text"@ {
        let o = opened(s.fonts, a);
        if empty {
            closed(StateView { open: None, ..s }, o)
        } else {
            StateView { open: Some(o), ..s }
        }
    } else if n == "b"@ {
        match s.open {
            Some(o) => StateView { open: Some(toggled(o, true, o.italic)), ..s },
            None => s,
        }
    } else if n == "i"@ {
        match s.open {
            Some(o) => StateView { open: Some(toggled(o, o.bold, true)), ..s },
            None => s,
        }
    } else if n == "image"@ {
        if s.pages.len() > 0 {
            let last = s.pages.last();
            StateView {
                pages: s.pages.drop_last().push(PageView {
                    images: last.images.push(PictureView {
                        left: attr_of(a, "left"@),
                        top: attr_of(a, "top"@),
                        width: attr_of(a, "width"@),
                        height: attr_of(a, "height"@),
                        src: attr_or_empty(a, "src"@),
                    }),
                    ..last
                }),
                ..s
            }
        } else {
            s
        }
    } else {
        s
    }
}

/// The state after a closing tag named `n` (lower case).
pub open spec fn end_view(s: StateView, n: Seq<char>) -> StateView {
    if n == "b"@ {
        match s.open {
            Some(o) => StateView { open: Some(toggled(o, false, o.italic)), ..s },
            None => s,
        }
    } else if n == "i"@ {
        match s.open {
            Some(o) => StateView { open: Some(toggled(o, o.bold, false)), ..s },
            None => s,
        }
    } else if n == "text"@ {
        match s.open {
            Some(o) => closed(StateView { open: None, ..s }, o),
            None => s,
        }
    } else {
        s
    }
}

/// The state after one event: tag names are read in any case; text goes to
/// the open chunk's pending text; everything else leaves the state as it is.
pub open spec fn step_view(s: StateView, ev: EventView) -> StateView {
    match ev {
        EventView::Start(n, a) => start_view(s, lower_seq(n), a, false),
        EventView::Empty(n, a) => start_view(s, lower_seq(n), a, true),
        EventView::End(n) => end_view(s, lower_seq(n)),
        EventView::Text(t) => match s.open {
            Some(o) => StateView { open: Some(OpenView { pending: o.pending + t, ..o }), ..s },
            None => s,
        },
        _ => s,
    }
}

/// The state after a run of events from the empty document.
pub open spec fn run_view(evs: Seq<EventView>) -> StateView
    decreases evs.len(),
{
    if evs.len() == 0 {
        StateView { pages: Seq::empty(), fonts: Seq::empty(), open: None }
    } else {
        step_view(run_view(evs.drop_last()), evs.last())
    }
}

/// The value of the first attribute with the key (any case).
pub fn attr(attrs: &Vec<(String, String)>, key: &str) -> (r: Option<String>)
    ensures
        r.deep_view() == attr_of(attrs.deep_view(), key@),
{
    let ghost a = attrs.deep_view();
    let n = attrs.len();
    let mut i: usize = 0;
    while i < n
        invariant
            n == attrs@.len(),
            a == attrs.deep_view(),
            i <= n,
            forall|j: int| 0 <= j < i ==> !key_at(a, j, key@),
        decreases n - i,
    {
        assert(a[i as int] == (attrs@[i as int].0@, attrs@[i as int].1@));
        if eq_ignore_ascii_case(attrs[i].0.as_str(), key) {
            proof {
                assert(key_at(a, i as int, key@));
                let c = choose|c: int| key_at(a, c, key@) && forall|j: int| 0 <= j < c ==> !key_at(a, j, key@);
                if c < i {
                } else if c > i {
                    assert(!key_at(a, i as int, key@));
                }
                assert(c == i);
            }
            return Some(string_of(attrs[i].1.as_str()));
        }
        i = i + 1;
    }
    None
}

fn attr_or_blank(attrs: &Vec<(String, String)>, key: &str) -> (r: String)
    ensures
        r@ == attr_or_empty(attrs.deep_view(), key@),
{
    match attr(attrs, key) {
        Some(v) => v,
        None => String::new(),
    }
}

/// The font spec with the id that was declared last.
fn find_font(fonts: &Vec<FontSpec>, id: &str) -> (r: Option<usize>)
    ensures
        r is Some ==> r->0 < fonts@.len() && font_of(fonts.deep_view(), id@) == Some(r->0 as int),
        match font_of(fonts.deep_view(), id@) {
            Some(i) => r == Some(i as usize),
            None => r is None,
        },
{
    let ghost f = fonts.deep_view();
    let n = fonts.len();
    let mut k: usize = n;
    while k > 0
        invariant
            n == fonts@.len(),
            f == fonts.deep_view(),
            k <= n,
            forall|j: int| k <= j < n ==> f[j].id != id@,
        decreases k,
    {
        assert(f[k - 1].id == fonts@[k - 1].id@);
        if str_eq(fonts[k - 1].id.as_str(), id) {
            proof {
                let i = (k - 1) as int;
                let c = choose|c: int| 0 <= c < f.len() && f[c].id == id@
                    && forall|j: int| c < j < f.len() ==> f[j].id != id@;
                if c < i {
                } else if c > i {
                }
                assert(c == i);
            }
            return Some(k - 1);
        }
        k = k - 1;
    }
    None
}

fn copy_opt(s: &Option<String>) -> (r: Option<String>)
    ensures
        r.deep_view() == s.deep_view(),
{
    match s {
        Some(v) => Some(string_of(v.as_str())),
        None => None,
    }
}

fn open_chunk(fonts: &Vec<FontSpec>, attrs: &Vec<(String, String)>) -> (r: OpenChunk)
    ensures
        r.deep_view() == opened(fonts.deep_view(), attrs.deep_view()),
{
    let id = attr_or_blank(attrs, "font");
    let font = find_font(fonts, id.as_str());
    let ghost fv = fonts.deep_view();
    let ghost fi = font_of(fv, id@);
    let (size, color, face) = match font {
        Some(i) => {
            assert(fv[i as int] == fonts@[i as int].deep_view());
            let sz = copy_opt(&fonts[i].size);
            let co = copy_opt(&fonts[i].color);
            let fa = font_face(fonts[i].family.as_str());
            assert(sz.deep_view() == fv[fi->0].size);
            assert(co.deep_view() == fv[fi->0].color);
            assert(fa == face_of(fv[fi->0].family));
            (sz, co, fa)
        },
        None => {
            proof {
                assert(Seq::<char>::empty() == ""@) by {
                    reveal_strlit("");
                }
            }
            (None, None, font_face(""))
        },
    };
    assert(size.deep_view() == match fi { Some(i) => fv[i].size, None => None });
    assert(color.deep_view() == match fi { Some(i) => fv[i].color, None => None });
    assert(face == face_of(match fi { Some(i) => fv[i].family, None => Seq::empty() }));
    let chunk = ChunkModel {
        left: attr(attrs, "left"),
        top: attr(attrs, "top"),
        width: attr(attrs, "width"),
        height: attr(attrs, "height"),
        size,
        color,
        runs: Vec::new(),
    };
    let r = OpenChunk { chunk, pending: String::new(), bold: face.bold, italic: face.italic, bullet_font: face.bullet };
    proof {
        let o = opened(fonts.deep_view(), attrs.deep_view());
        assert(r.deep_view().chunk.runs =~= Seq::<(Seq<char>, bool, bool)>::empty());
        assert(r.deep_view().pending =~= o.pending);
        assert(r.deep_view().chunk.left == o.chunk.left);
        assert(r.deep_view().chunk.size == o.chunk.size);
        assert(r.deep_view().chunk.color == o.chunk.color);
        assert(r.deep_view().chunk == o.chunk);
        assert(r.bold == o.bold);
        assert(r.italic == o.italic);
        assert(r.bullet_font == o.bullet_font);
    }
    r
}

fn toggle(o: &mut OpenChunk, bold: bool, italic: bool)
    ensures
        final(o).deep_view() == toggled(old(o).deep_view(), bold, italic),
{
    flush_run(&mut o.chunk.runs, &mut o.pending, o.bold, o.italic);
    o.bold = bold;
    o.italic = italic;
    assert(o.pending@ =~= Seq::<char>::empty());
}

/// Closes a chunk: kept chunks join the last page.
fn close_chunk(doc: &mut DocModel, o: OpenChunk)
    ensures
        final(doc).pages.deep_view() == closed(
            StateView { pages: old(doc).pages.deep_view(), fonts: Seq::empty(), open: None },
            o.deep_view(),
        ).pages,
{
    let ghost ov = o.deep_view();
    let OpenChunk { chunk, pending, bold, italic, bullet_font } = o;
    let ChunkModel { left, top, width, height, size, color, runs } = chunk;
    let kept = finalize_runs(runs, pending, bold, italic, bullet_font);
    match kept {
        Some(runs) => {
            let n = doc.pages.len();
            if n > 0 {
                let ghost rv = runs.deep_view();
                let ghost pv = doc.pages.deep_view();
                let mut last = doc.pages.pop().unwrap();
                let ghost before = last.chunks.deep_view();
                last.chunks.push(ChunkModel { left, top, width, height, size, color, runs });
                assert(last.chunks.deep_view() =~= before.push(ChunkView { runs: rv, ..ov.chunk }));
                doc.pages.push(last);
                assert(doc.pages.deep_view() =~= pv.drop_last().push(
                    PageView { chunks: pv.last().chunks.push(ChunkView { runs: rv, ..ov.chunk }), ..pv.last() }));
            }
        },
        None => {},
    }
}


fn start_tag(st: ParseState, name: &str, attrs: &Vec<(String, String)>, empty: bool) -> (r: ParseState)
    ensures
        r.deep_view() == start_view(st.deep_view(), lower_seq(name@), attrs.deep_view(), empty),
{
    let ghost sv = st.deep_view();
    let ghost a = attrs.deep_view();
    let lower = ascii_lowercase(name);
    let n = lower.as_str();
    let ParseState { mut doc, mut fonts, open } = st;
    if str_eq(n, "page") {
        let ghost pv = doc.pages.deep_view();
        let page = PageModel {
            width: attr(attrs, "width"),
            height: attr(attrs, "height"),
            chunks: Vec::new(),
            images: Vec::new(),
        };
        assert(page.deep_view().chunks =~= Seq::<ChunkView>::empty());
        assert(page.deep_view().images =~= Seq::<PictureView>::empty());
        doc.pages.push(page);
        let r = ParseState { doc, fonts: Vec::new(), open };
        assert(r.deep_view().pages =~= start_view(sv, lower_seq(name@), a, empty).pages);
        assert(r.deep_view().fonts =~= Seq::<FontView>::empty());
        r
    } else if str_eq(n, "fontspec") {
        let ghost fv = fonts.deep_view();
        let spec = FontSpec {
            id: attr_or_blank(attrs, "id"),
            size: attr(attrs, "size"),
            family: attr_or_blank(attrs, "family"),
            color: attr(attrs, "color"),
        };
        fonts.push(spec);
        let r = ParseState { doc, fonts, open };
        assert(r.deep_view().fonts =~= start_view(sv, lower_seq(name@), a, empty).fonts);
        r
    } else if str_eq(n, "text") {
        let o = open_chunk(&fonts, attrs);
        if empty {
            close_chunk(&mut doc, o);
            ParseState { doc, fonts, open: None }
        } else {
            ParseState { doc, fonts, open: Some(o) }
        }
    } else if str_eq(n, "b") || str_eq(n, "i") {
        let bold_tag = str_eq(n, "b");
        match open {
            Some(o) => {
                let mut o = o;
                let (b, i) = if bold_tag { (true, o.italic) } else { (o.bold, true) };
                toggle(&mut o, b, i);
                ParseState { doc, fonts, open: Some(o) }
            },
            None => ParseState { doc, fonts, open: None },
        }
    } else if str_eq(n, "image") {
        let k = doc.pages.len();
        if k > 0 {
            let ghost pv = doc.pages.deep_view();
            let mut last = doc.pages.pop().unwrap();
            let ghost before = last.images.deep_view();
            let img = ImageModel {
                left: attr(attrs, "left"),
                top: attr(attrs, "top"),
                width: attr(attrs, "width"),
                height: attr(attrs, "height"),
                src: attr_or_blank(attrs, "src"),
            };
            let ghost img_view = img.deep_view();
            last.images.push(img);
            assert(last.deep_view().images =~= before.push(img_view));
            doc.pages.push(last);
            let r = ParseState { doc, fonts, open };
            assert(r.deep_view().pages =~= start_view(sv, lower_seq(name@), a, empty).pages);
            r
        } else {
            ParseState { doc, fonts, open }
        }
    } else {
        ParseState { doc, fonts, open }
    }
}

fn end_tag(st: ParseState, name: &str) -> (r: ParseState)
    ensures
        r.deep_view() == end_view(st.deep_view(), lower_seq(name@)),
{
    let lower = ascii_lowercase(name);
    let n = lower.as_str();
    let ParseState { mut doc, fonts, open } = st;
    if str_eq(n, "b") || str_eq(n, "i") {
        let bold_tag = str_eq(n, "b");
        match open {
            Some(o) => {
                let mut o = o;
                let (b, i) = if bold_tag { (false, o.italic) } else { (o.bold, false) };
                toggle(&mut o, b, i);
                ParseState { doc, fonts, open: Some(o) }
            },
            None => ParseState { doc, fonts, open: None },
        }
    } else if str_eq(n, "text") {
        match open {
            Some(o) => {
                close_chunk(&mut doc, o);
                ParseState { doc, fonts, open: None }
            },
            None => ParseState { doc, fonts, open: None },
        }
    } else {
        ParseState { doc, fonts, open }
    }
}

/// The state after one event of the XML (see [`step_view`]): `<page>` starts
/// a page and forgets the font specs, `<fontspec>` declares one, `<text>`
/// opens a chunk in its font spec's face (closed at once when
/// self-closing), `<b>`/`<i>` and their closing tags split the runs,
/// `</text>` closes the chunk onto the last page, `<image>` joins the last
/// page, text goes to the open chunk.
pub fn parse_step(state: ParseState, ev: XmlEvent) -> (r: ParseState)
    ensures
        r.deep_view() == step_view(state.deep_view(), ev.deep_view()),
{
    match ev {
        XmlEvent::Start { name, attrs } => start_tag(state, name.as_str(), &attrs, false),
        XmlEvent::Empty { name, attrs } => start_tag(state, name.as_str(), &attrs, true),
        XmlEvent::End { name } => end_tag(state, name.as_str()),
        XmlEvent::Text(t) => {
            let ParseState { doc, fonts, open } = state;
            match open {
                Some(o) => {
                    let mut o = o;
                    o.pending.append(t.as_str());
                    ParseState { doc, fonts, open: Some(o) }
                },
                None => ParseState { doc, fonts, open: None },
            }
        },
        _ => state,
    }
}

/// The document the events describe, read from an empty state.
pub fn parse_events(evs: Vec<XmlEvent>) -> (d: DocModel)
    ensures
        d.pages.deep_view() == run_view(evs.deep_view()).pages,
{
    let ghost ev = evs.deep_view();
    let total = evs.len();
    assert(ev.len() == total);
    let mut st = ParseState { doc: DocModel { pages: Vec::new() }, fonts: Vec::new(), open: None };
    let mut rest = evs;
    let mut queue: Vec<XmlEvent> = Vec::new();
    // events are taken from the back: reverse them first
    while rest.len() > 0
        invariant
            queue.deep_view() == ev.skip(rest.deep_view().len() as int).reverse(),
            rest.deep_view() == ev.take(rest.deep_view().len() as int),
            rest.deep_view().len() <= ev.len(),
        decreases rest.len(),
    {
        let ghost before = rest.deep_view();
        let ghost qbefore = queue.deep_view();
        let e = rest.pop().unwrap();
        assert(e.deep_view() == before.last());
        queue.push(e);
        let ghost k = rest.deep_view().len() as int;
        assert(rest.deep_view() =~= ev.take(k));
        assert(ev.skip(k) =~= seq![ev[k]] + ev.skip(k + 1));
        assert(queue.deep_view() =~= qbefore.push(e.deep_view()));
        assert(ev.skip(k).reverse() =~= ev.skip(k + 1).reverse().push(ev[k]));
    }
    assert(st.deep_view().pages =~= run_view(ev.take(0)).pages);
    assert(st.deep_view() == run_view(ev.take(0))) by {
        assert(st.deep_view().fonts =~= Seq::<FontView>::empty());
    }
    let mut done: usize = 0;
    while queue.len() > 0
        invariant
            ev.len() <= usize::MAX,
            done + queue.deep_view().len() == ev.len(),
            queue.deep_view() == ev.skip(done as int).reverse(),
            st.deep_view() == run_view(ev.take(done as int)),
        decreases queue.len(),
    {
        let ghost qbefore = queue.deep_view();
        let e = queue.pop().unwrap();
        assert(e.deep_view() == qbefore.last());
        assert(qbefore.last() == ev[done as int]);
        assert(queue.deep_view() =~= qbefore.drop_last());
        assert(qbefore.drop_last() =~= ev.skip(done + 1).reverse());
        st = parse_step(st, e);
        assert(ev.take(done + 1).drop_last() =~= ev.take(done as int));
        done = done + 1;
    }
    assert(ev.take(ev.len() as int) =~= ev);
    st.doc
}

/// The face of a chunk's text follows the `<b>` and `<i>` tags around it:
/// inside an open chunk, after `<b>` (`<i>`) the text that follows is bold
/// (italic), after `</b>` (`</i>`) it is not, and the other style is left as
/// it was; the text read before the tag keeps the face it was read in, as
/// the end of the chunk's last run. Tag names are read in any case; the
/// pages are untouched.
pub proof fn lemma_style_tags(s: StateView, x: Seq<char>, n: Seq<char>, attrs: Attrs, opening: bool, y: Seq<char>)
    requires
        s.open is Some,
        lower_seq(n) == "b"@ || lower_seq(n) == "i"@,
    ensures
        ({
            let o = s.open->0;
            let tag = if opening { EventView::Start(n, attrs) } else { EventView::End(n) };
            let s3 = step_view(step_view(step_view(s, EventView::Text(x)), tag), EventView::Text(y));
            let before = o.pending + x;
            &&& s3.pages == s.pages
            &&& s3.open matches Some(p)
            &&& p.bold == (if lower_seq(n) == "b"@ { opening } else { o.bold })
            &&& p.italic == (if lower_seq(n) == "i"@ { opening } else { o.italic })
            &&& p.pending == y
            &&& (before.len() > 0 ==> {
                let r = p.chunk.runs.last();
                &&& p.chunk.runs.len() > 0
                &&& r.1 == o.bold
                &&& r.2 == o.italic
                &&& r.0.len() >= before.len()
                &&& r.0.subrange(r.0.len() - before.len(), r.0.len() as int) == before
            })
        }),
{
    reveal_strlit("b");
    reveal_strlit("i");
    reveal_strlit("page");
    reveal_strlit("fontspec");
    reveal_strlit("text");
    reveal_strlit("image");
    let o = s.open->0;
    let before = o.pending + x;
    let s1 = step_view(s, EventView::Text(x));
    let o1 = OpenView { pending: before, ..o };
    assert(s1 == StateView { open: Some(o1), ..s });
    let tag = if opening { EventView::Start(n, attrs) } else { EventView::End(n) };
    let s2 = step_view(s1, tag);
    let nb = if lower_seq(n) == "b"@ { opening } else { o.bold };
    let ni = if lower_seq(n) == "i"@ { opening } else { o.italic };
    assert("b"@[0] != "i"@[0]);
    assert("b"@.len() == 1 && "i"@.len() == 1 && "page"@.len() == 4 && "fontspec"@.len() == 8
        && "text"@.len() == 4 && "image"@.len() == 5);
    assert(s2 == StateView { open: Some(toggled(o1, nb, ni)), ..s1 });
    let runs = flushed(o.chunk.runs, before, o.bold, o.italic);
    assert(toggled(o1, nb, ni).chunk.runs == runs);
    if before.len() > 0 {
        let r = runs.last();
        if o.chunk.runs.len() > 0 && o.chunk.runs.last().1 == o.bold && o.chunk.runs.last().2 == o.italic {
            assert(r.0 == o.chunk.runs.last().0 + before);
            assert(r.0.subrange(r.0.len() - before.len(), r.0.len() as int) =~= before);
        } else {
            assert(r.0.subrange(r.0.len() - before.len(), r.0.len() as int) =~= before);
        }
    }
}

/// Closing a chunk whose text was all read without a style tag: text that
/// is not all whitespace joins the last page as one run in the chunk's
/// face; whitespace-only text becomes a bullet (neither bold nor italic)
/// when the chunk's font is a symbol or dingbat font and is dropped
/// otherwise. The chunk keeps its box, size and colour; earlier pages, the
/// page's images and the font specs are untouched, and no chunk stays open.
pub proof fn lemma_chunk_closes(s: StateView, n: Seq<char>)
    requires
        s.open matches Some(o) && o.chunk.runs.len() == 0,
        lower_seq(n) == "text"@,
        s.pages.len() > 0,
    ensures
        ({
            let o = s.open->0;
            let s2 = step_view(s, EventView::End(n));
            let last = s.pages.last();
            &&& s2.open is None
            &&& s2.fonts == s.fonts
            &&& s2.pages.len() == s.pages.len()
            &&& s2.pages.drop_last() == s.pages.drop_last()
            &&& s2.pages.last().images == last.images
            &&& s2.pages.last().width == last.width
            &&& s2.pages.last().height == last.height
            &&& s2.pages.last().chunks == if !blank(o.pending) {
                last.chunks.push(ChunkView { runs: seq![(o.pending, o.bold, o.italic)], ..o.chunk })
            } else if o.bullet_font {
                last.chunks.push(ChunkView { runs: seq![(seq!['\u{2022}'], false, false)], ..o.chunk })
            } else {
                last.chunks
            }
        }),
{
    reveal_strlit("b");
    reveal_strlit("i");
    reveal_strlit("text");
    assert("b"@.len() == 1 && "i"@.len() == 1 && "text"@.len() == 4);
    let o = s.open->0;
    let runs = flushed(o.chunk.runs, o.pending, o.bold, o.italic);
    if o.pending.len() == 0 {
        assert(runs =~= Seq::<(Seq<char>, bool, bool)>::empty());
    } else {
        assert(runs =~= seq![(o.pending, o.bold, o.italic)]);
    }
    if blank(o.pending) {
        assert forall|i: int| 0 <= i < runs.len() implies blank(#[trigger] runs[i].0) by {}
    } else {
        let k = choose|k: int| 0 <= k < o.pending.len() && !crate::text::is_ws(o.pending[k]);
        assert(!blank(runs[0].0));
    }
    let s2 = step_view(s, EventView::End(n));
    assert(s2.pages.drop_last() =~= s.pages.drop_last());
}

/// A `<page>` starts a new, empty last page with the size it gives and
/// forgets the font specs of the page before.
pub proof fn lemma_page_starts_fresh(s: StateView, n: Seq<char>, a: Attrs)
    requires
        lower_seq(n) == "page"@,
    ensures
        ({
            let s2 = step_view(s, EventView::Start(n, a));
            &&& s2.pages.len() == s.pages.len() + 1
            &&& s2.pages.drop_last() == s.pages
            &&& s2.pages.last() == PageView {
                width: attr_of(a, "width"@),
                height: attr_of(a, "height"@),
                chunks: Seq::empty(),
                images: Seq::empty(),
            }
            &&& s2.fonts.len() == 0
        }),
{
    let s2 = step_view(s, EventView::Start(n, a));
    assert(s2.pages.drop_last() =~= s.pages);
}

/// A `<text>` opens an empty chunk whose box is its own attributes and
/// whose size and colour come from the font spec declared last with its
/// `font` id.
pub proof fn lemma_chunk_takes_latest_font(s: StateView, n: Seq<char>, a: Attrs)
    requires
        lower_seq(n) == "text"@,
        s.fonts.len() > 0,
        attr_of(a, "font"@) == Some(s.fonts.last().id),
    ensures
        ({
            let s2 = step_view(s, EventView::Start(n, a));
            &&& s2.pages == s.pages
            &&& s2.open matches Some(o)
            &&& o.chunk.size == s.fonts.last().size
            &&& o.chunk.color == s.fonts.last().color
            &&& o.chunk.left == attr_of(a, "left"@)
            &&& o.chunk.top == attr_of(a, "top"@)
            &&& o.chunk.width == attr_of(a, "width"@)
            &&& o.chunk.height == attr_of(a, "height"@)
            &&& o.chunk.runs.len() == 0
            &&& o.pending.len() == 0
        }),
{
    reveal_strlit("page");
    reveal_strlit("text");
    reveal_strlit("fontspec");
    assert("page"@[0] != "text"@[0]);
    assert("fontspec"@.len() != "text"@.len());
    let k = s.fonts.len() - 1;
    let id = attr_or_empty(a, "font"@);
    assert(s.fonts[k].id == id);
    let i = font_of(s.fonts, id)->0;
    assert(i == k);
}

/// Text outside a chunk is ignored.
pub proof fn lemma_loose_text_ignored(s: StateView, t: Seq<char>)
    requires
        s.open is None,
    ensures
        step_view(s, EventView::Text(t)) == s,
{
}

#[verifier::external_type_specification]
#[verifier::external_body]
#[verifier::reject_recursive_types(R)]
pub struct ExXmlReader<R>(quick_xml::Reader<R>);

#[verifier::external_type_specification]
#[verifier::external_body]
pub struct ExBytesStart<'a>(quick_xml::events::BytesStart<'a>);

/// The attributes of a tag as key and value (`BytesStart::attributes`,
/// values by `Attribute::normalized_value` for XML 1.0), in order; an
/// attribute the reader cannot read, or whose value it cannot normalize, is
/// left out. Nothing is stated of them.
#[verifier::external_body]
fn tag_attrs(e: &BytesStart) -> Vec<(String, String)> {
    let mut out = Vec::new();
    for a in e.attributes() {
        if let Ok(a) = a {
            if let Ok(v) = a.normalized_value(quick_xml::XmlVersion::Implicit1_0) {
                out.push((a.key.as_ref().to_string(), v.into_owned()));
            }
        }
    }
    out
}

/// `Reader::read_event`: the next event of the XML, variant for variant
/// (text by `BytesText::xml10_content`); events the document model does not
/// read are `Other`; a failure carries the reader's message. Only
/// [`read_events`] calls it, which states what the events are.
#[verifier::external_body]
fn next_event(reader: &mut Reader<&[u8]>) -> core::result::Result<XmlEvent, String> {
    match reader.read_event() {
        Ok(Event::Start(e)) => Ok(XmlEvent::Start { name: e.name().as_ref().to_string(), attrs: tag_attrs(&e) }),
        Ok(Event::Empty(e)) => Ok(XmlEvent::Empty { name: e.name().as_ref().to_string(), attrs: tag_attrs(&e) }),
        Ok(Event::End(e)) => Ok(XmlEvent::End { name: e.name().as_ref().to_string() }),
        Ok(Event::Text(t)) => Ok(XmlEvent::Text(t.xml10_content().into_owned())),
        Ok(Event::Eof) => Ok(XmlEvent::Eof),
        Ok(_) => Ok(XmlEvent::Other),
        Err(e) => Err(e.to_string()),
    }
}

/// The events the XML tokenizer reads from the bytes up to the end of the
/// input, none when it fails on them (see [`read_events`]).
pub uninterp spec fn xml_events(bytes: Seq<u8>) -> Option<Seq<EventView>>;

/// Every event quick-xml's `Reader::read_event` reads from the bytes, in
/// order, up to the end of the input (converted by [`next_event`]); the
/// reader's message when it fails. The events are named by [`xml_events`].
#[verifier::external_body]
fn read_events(bytes: &[u8]) -> (r: core::result::Result<Vec<XmlEvent>, String>)
    ensures
        r is Ok <==> xml_events(bytes@) is Some,
        r is Ok ==> r->Ok_0.deep_view() == xml_events(bytes@)->0,
{
    let mut reader = Reader::from_reader(bytes);
    let mut out = Vec::new();
    loop {
        match next_event(&mut reader) {
            Ok(XmlEvent::Eof) => return Ok(out),
            Ok(e) => out.push(e),
            Err(m) => return Err(m),
        }
    }
}

/// Reads pdftohtml's XML from its bytes: the document that the tokenizer's
/// events describe (see [`parse_events`]); a document the tokenizer fails on
/// fails with `pdftohtml xml parse: <reason>`.
pub fn parse_xml(bytes: &[u8]) -> (r: crate::error::Result<DocModel>)
    ensures
        r is Err <==> xml_events(bytes@) is None,
        xml_events(bytes@) is Some ==> (r matches Ok(d) && d.pages.deep_view() == run_view(xml_events(bytes@)->0).pages),
        r is Err ==> (r->Err_0 matches crate::error::Error::Other(m)
            && crate::text::has_prefix(m@, "pdftohtml xml parse: "@)),
{
    match read_events(bytes) {
        Ok(evs) => Ok(parse_events(evs)),
        Err(m) => {
            let msg = crate::text::concat("pdftohtml xml parse: ", m.as_str());
            assert(msg@.take("pdftohtml xml parse: "@.len() as int) =~= "pdftohtml xml parse: "@);
            Err(crate::error::Error::Other(msg))
        },
    }
}

/// Where an `<image>`'s file is: its `src` when that is an absolute path,
/// else `src` below the directory pdftohtml wrote into.
pub fn image_path(src: &str, image_dir: &str) -> (r: String)
    ensures
        r@ == if crate::paths::absolute(src@) { src@ } else { crate::paths::joined(image_dir@, src@) },
{
    if crate::paths::path_is_absolute(src) {
        string_of(src)
    } else {
        crate::paths::path_join(image_dir, src)
    }
}

} // verus!
