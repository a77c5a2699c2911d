//! The document builder: lines are appended at a cursor that walks down the
//! page, and a new page is started whenever the next line would leave the
//! writable area. All lengths are integer physical units (the intended
//! scale is hundredths of a millimetre, but nothing depends on it).

use vstd::prelude::*;

use crate::DocError;
use crate::font::Font;
use crate::font::font_of_name;
use crate::font::resolve_font;

verus! {

/// Dimensions stay below this bound so that every cursor computation fits
/// comfortably in a `u64`.
pub const MAX_DIM: u64 = 0x7fff_ffff_ffff_ffff;

/// Page dimensions and the uniform margin kept on every side, in physical
/// units.
#[derive(Clone, Copy, Debug)]
pub struct Geometry {
    pub page_width: u64,
    pub page_height: u64,
    pub margin: u64,
}

/// Mathematical image of a `Geometry`.
pub struct GeomModel {
    pub page_width: int,
    pub page_height: int,
    pub margin: int,
}

impl View for Geometry {
    type V = GeomModel;

    open spec fn view(&self) -> GeomModel {
        GeomModel {
            page_width: self.page_width as int,
            page_height: self.page_height as int,
            margin: self.margin as int,
        }
    }
}

/// One placed line of text: its content and the baseline position it was
/// given when it was appended. Immutable once created.
#[derive(Debug)]
pub struct Line {
    pub text: String,
    pub x: u64,
    pub y: u64,
}

/// Mathematical image of a placed line.
pub struct LineModel {
    pub text: Seq<char>,
    pub x: int,
    pub y: int,
}

impl View for Line {
    type V = LineModel;

    open spec fn view(&self) -> LineModel {
        LineModel { text: self.text@, x: self.x as int, y: self.y as int }
    }
}

/// One page: its lines in insertion order.
#[derive(Debug)]
pub struct Page {
    pub lines: Vec<Line>,
}

impl View for Page {
    type V = Seq<LineModel>;

    open spec fn view(&self) -> Seq<LineModel> {
        self.lines@.map_values(|l: Line| l@)
    }
}

/// Mathematical image of a whole document: the construction parameters,
/// the pages built so far, and the cursor height on the last page.
pub struct DocModel {
    pub title: Seq<char>,
    pub font: Font,
    pub font_size: int,
    pub line_margin: int,
    pub geom: GeomModel,
    pub pages: Seq<Seq<LineModel>>,
    pub cursor_y: int,
}

/// The geometry admits at least one line per page, and every dimension is
/// small enough that cursor arithmetic cannot overflow.
pub open spec fn geom_ok(font_size: int, line_margin: int, g: GeomModel) -> bool {
    &&& 1 <= font_size
    &&& 0 <= line_margin
    &&& 0 <= g.margin
    &&& 2 * g.margin + font_size + line_margin <= g.page_height
    &&& g.page_height <= MAX_DIM
    &&& g.page_width <= MAX_DIM
}

impl DocModel {
    /// How far the cursor moves down after a line is placed.
    pub open spec fn advance(self) -> int {
        self.font_size + self.line_margin
    }

    /// Height of the writable area between the top and bottom margins.
    pub open spec fn writable_height(self) -> int {
        self.geom.page_height - 2 * self.geom.margin
    }

    /// Lowest baseline the cursor may reach.
    pub open spec fn writable_bottom(self) -> int {
        self.geom.page_height - self.geom.margin
    }

    /// How many lines fit on one page.
    pub open spec fn capacity(self) -> int {
        self.writable_height() / self.advance()
    }

    pub open spec fn geom_wf(self) -> bool {
        geom_ok(self.font_size, self.line_margin, self.geom)
    }

    /// Well-formedness: at least one page; every page but the last is full;
    /// only the very first page may be empty; the cursor sits right below
    /// the lines of the last page; and every line stands at the left margin,
    /// stacked from the top margin in steps of one advance.
    pub open spec fn wf(self) -> bool {
        &&& self.geom_wf()
        &&& 1 <= self.pages.len()
        &&& forall|i: int|
            0 <= i < self.pages.len() - 1 ==> (#[trigger] self.pages[i]).len() == self.capacity()
        &&& self.pages.last().len() <= self.capacity()
        &&& self.pages.len() > 1 ==> 1 <= self.pages.last().len()
        &&& self.cursor_y == self.geom.margin + self.pages.last().len() * self.advance()
        &&& forall|i: int, j: int|
            0 <= i < self.pages.len() && 0 <= j < self.pages[i].len() ==> {
                &&& (#[trigger] self.pages[i][j]).x == self.geom.margin
                &&& self.pages[i][j].y == self.geom.margin + j * self.advance()
            }
    }

    /// The line a document in this state would place next, were `text`
    /// appended as the line at index `j` of its page.
    pub open spec fn line_at(self, j: int, text: Seq<char>) -> LineModel {
        LineModel { text, x: self.geom.margin, y: self.geom.margin + j * self.advance() }
    }

    /// Whether placing one more line would carry the cursor past the
    /// writable bottom of the current page.
    pub open spec fn page_full(self) -> bool {
        self.cursor_y + self.advance() > self.writable_bottom()
    }

    /// The state after one `append_line`: either the line joins the last
    /// page at the cursor, or a fresh page is started with the line at its
    /// top; either way the cursor advances below the new line.
    pub open spec fn append_model(self, text: Seq<char>) -> DocModel {
        if self.page_full() {
            DocModel {
                pages: self.pages.push(seq![self.line_at(0, text)]),
                cursor_y: self.geom.margin + self.advance(),
                ..self
            }
        } else {
            DocModel {
                pages: self.pages.update(
                    self.pages.len() - 1,
                    self.pages.last().push(self.line_at(self.pages.last().len() as int, text)),
                ),
                cursor_y: self.cursor_y + self.advance(),
                ..self
            }
        }
    }
}

/// The state of a document just built: one empty page, cursor at the top
/// margin.
pub open spec fn fresh_model(
    title: Seq<char>,
    font: Font,
    font_size: int,
    line_margin: int,
    g: GeomModel,
) -> DocModel {
    DocModel {
        title,
        font,
        font_size,
        line_margin,
        geom: g,
        pages: seq![Seq::<LineModel>::empty()],
        cursor_y: g.margin,
    }
}

/// Everything a PDF byte-stream encoder needs to emit the document: page
/// geometry, title, font and size, and every page's lines in order, each
/// with the baseline position it was placed at.
#[derive(Debug)]
pub struct RenderPlan {
    pub title: String,
    pub font: Font,
    pub font_size: u64,
    pub geom: Geometry,
    pub pages: Vec<Page>,
}

/// Mathematical image of a render plan.
pub struct PlanModel {
    pub title: Seq<char>,
    pub font: Font,
    pub font_size: int,
    pub geom: GeomModel,
    pub pages: Seq<Seq<LineModel>>,
}

impl View for RenderPlan {
    type V = PlanModel;

    open spec fn view(&self) -> PlanModel {
        PlanModel {
            title: self.title@,
            font: self.font,
            font_size: self.font_size as int,
            geom: self.geom@,
            pages: self.pages@.map_values(|p: Page| p@),
        }
    }
}

/// The plan a document in state `d` saves to: the same content, with the
/// cursor forgotten.
pub open spec fn plan_of(d: DocModel) -> PlanModel {
    PlanModel {
        title: d.title,
        font: d.font,
        font_size: d.font_size,
        geom: d.geom,
        pages: d.pages,
    }
}

/// A document under construction. Lines are accumulated with
/// [`PdfDocument::append_line`]; [`PdfDocument::save`] consumes the
/// document and hands the whole content model to the caller for encoding.
#[derive(Debug)]
pub struct PdfDocument {
    title: String,
    font: Font,
    font_size: u64,
    line_margin: u64,
    geom: Geometry,
    pages: Vec<Page>,
    cursor_y: u64,
}

impl View for PdfDocument {
    type V = DocModel;

    closed spec fn view(&self) -> DocModel {
        DocModel {
            title: self.title@,
            font: self.font,
            font_size: self.font_size as int,
            line_margin: self.line_margin as int,
            geom: self.geom@,
            pages: self.pages@.map_values(|p: Page| p@),
            cursor_y: self.cursor_y as int,
        }
    }
}

impl PdfDocument {
    /// Well-formedness of the abstract state; established by `new` and
    /// preserved by every operation.
    pub open spec fn wf(&self) -> bool {
        self@.wf()
    }

    /// Builds an empty document: the font name is resolved against the
    /// built-in fonts, the first (empty) page is allocated, and the cursor
    /// is set to the top margin. The one way this fails is an unknown font
    /// name.
    pub fn new(
        title: String,
        font_name: &str,
        font_size: u64,
        line_margin: u64,
        geom: Geometry,
    ) -> (r: Result<PdfDocument, DocError>)
        requires
            geom_ok(font_size as int, line_margin as int, geom@),
        ensures
            r is Ok <==> font_of_name(font_name@) is Some,
            r is Err ==> r->Err_0 == DocError::FontLoadError,
            r is Ok ==> r->Ok_0@ == fresh_model(
                title@,
                font_of_name(font_name@)->0,
                font_size as int,
                line_margin as int,
                geom@,
            ),
            r is Ok ==> r->Ok_0.wf(),
    {
        let font = match resolve_font(font_name) {
            Ok(f) => f,
            Err(e) => {
                return Err(e);
            },
        };
        let mut pages: Vec<Page> = Vec::new();
        pages.push(Page { lines: Vec::new() });
        let doc = PdfDocument {
            title,
            font,
            font_size,
            line_margin,
            geom,
            pages,
            cursor_y: geom.margin,
        };
        proof {
            assert(doc@.pages =~~= seq![Seq::<LineModel>::empty()]);
        }
        Ok(doc)
    }

    /// Places `text` at the cursor on the current page and advances the
    /// cursor by one line height; if the advance would leave the writable
    /// area, a new page is started first and the line stands at its top.
    /// Never fails.
    pub fn append_line(&mut self, text: String)
        requires
            old(self).wf(),
        ensures
            final(self)@ == old(self)@.append_model(text@),
            final(self).wf(),
    {
        proof {
            lemma_append_preserves_wf(self@, text@);
            lemma_cursor_in_writable_area(self@);
        }
        let adv = self.font_size + self.line_margin;
        let bottom = self.geom.page_height - self.geom.margin;
        if self.cursor_y + adv > bottom {
            let line = Line { text, x: self.geom.margin, y: self.geom.margin };
            let mut lines: Vec<Line> = Vec::new();
            lines.push(line);
            self.pages.push(Page { lines });
            self.cursor_y = self.geom.margin + adv;
            proof {
                assert(self@.pages =~~= old(self)@.append_model(text@).pages);
            }
        } else {
            let y = self.cursor_y;
            let line = Line { text, x: self.geom.margin, y };
            let mut page = self.pages.pop().unwrap();
            page.lines.push(line);
            self.pages.push(page);
            self.cursor_y = y + adv;
            proof {
                assert(self@.pages =~~= old(self)@.append_model(text@).pages);
            }
        }
    }

    /// Serializes the document into the content model handed to the
    /// encoder: all pages in order, each page's lines in insertion order.
    /// Consumes the document; nothing can be appended after a save.
    pub fn save(self) -> (r: RenderPlan)
        ensures
            r@ == plan_of(self@),
    {
        RenderPlan {
            title: self.title,
            font: self.font,
            font_size: self.font_size,
            geom: self.geom,
            pages: self.pages,
        }
    }

    /// How many pages the document holds so far.
    pub fn page_count(&self) -> (n: usize)
        ensures
            n == self@.pages.len(),
    {
        self.pages.len()
    }
}

/// The cursor of a well-formed document sits inside the writable area:
/// no lower than the top margin, no lower down the page than the writable
/// bottom. This is the standing invariant of the data model.
pub proof fn lemma_cursor_in_writable_area(d: DocModel)
    requires
        d.wf(),
    ensures
        d.geom.margin <= d.cursor_y <= d.writable_bottom(),
{
    let l = d.pages.last().len() as int;
    let a = d.advance();
    let h = d.writable_height();
    assert(0 <= l * a) by (nonlinear_arith)
        requires 0 <= l && 1 <= a;
    assert(l * a <= d.capacity() * a) by (nonlinear_arith)
        requires l <= d.capacity() && 1 <= a;
    assert(d.capacity() * a <= h) by {
        vstd::arithmetic::div_mod::lemma_fundamental_div_mod(h, a);
        vstd::arithmetic::div_mod::lemma_mod_bound(h, a);
    }
}

/// One append keeps a document well-formed.
pub proof fn lemma_append_preserves_wf(d: DocModel, text: Seq<char>)
    requires
        d.wf(),
    ensures
        d.append_model(text).wf(),
{
    let a = d.advance();
    let h = d.writable_height();
    let cap = d.capacity();
    let next = d.append_model(text);
    lemma_cursor_in_writable_area(d);
    if d.page_full() {
        // the last page holds exactly `cap` lines: the cursor has walked
        // past the last slot, and it walks one advance per line
        assert(d.pages.last().len() == cap) by {
            let l = d.pages.last().len() as int;
            assert(l * a > h - a ==> l > cap - 1) by {
                if l * a > h - a {
                    assert((cap - 1) * a < l * a ==> cap - 1 < l) by (nonlinear_arith)
                        requires 1 <= a;
                    assert((cap - 1) * a <= h - a) by {
                        vstd::arithmetic::div_mod::lemma_fundamental_div_mod(h, a);
                        vstd::arithmetic::div_mod::lemma_mod_bound(h, a);
                        assert(cap * a <= h);
                        assert((cap - 1) * a == cap * a - a) by (nonlinear_arith);
                    }
                }
            }
        }
        assert(next.pages.last() =~= seq![d.line_at(0, text)]);
        assert(next.pages.last().len() == 1);
        assert(1 * a == a) by (nonlinear_arith);
        assert(next.cursor_y == next.geom.margin + next.pages.last().len() * next.advance());
        assert forall|i: int|
            0 <= i < next.pages.len() - 1 implies (#[trigger] next.pages[i]).len()
            == next.capacity() by {
            assert(next.pages[i] == d.pages[i]);
        }
        assert forall|i: int, j: int|
            0 <= i < next.pages.len() && 0 <= j < next.pages[i].len() implies {
                &&& (#[trigger] next.pages[i][j]).x == next.geom.margin
                &&& next.pages[i][j].y == next.geom.margin + j * next.advance()
            } by {
            if i < next.pages.len() - 1 {
                assert(next.pages[i] == d.pages[i]);
            } else {
                assert(next.pages[i][j] == d.line_at(0, text));
                assert(0 * a == 0) by (nonlinear_arith);
            }
        }
    } else {
        // the line fits: the cursor below it stays within the writable
        // bottom, so the page is not yet over capacity
        let l = d.pages.last().len() as int;
        assert(l + 1 <= cap) by {
            assert((l + 1) * a == l * a + a) by (nonlinear_arith);
            assert((l + 1) * a <= h);
            assert((l + 1) * a <= h ==> l + 1 <= cap) by {
                if l + 1 > cap {
                    assert((l + 1) * a >= (cap + 1) * a) by (nonlinear_arith)
                        requires 1 <= a && l + 1 >= cap + 1;
                    assert(cap * a + a > h) by {
                        vstd::arithmetic::div_mod::lemma_fundamental_div_mod(h, a);
                        vstd::arithmetic::div_mod::lemma_mod_bound(h, a);
                    }
                    assert((cap + 1) * a == cap * a + a) by (nonlinear_arith);
                }
            }
        }
        assert(next.pages.last() == d.pages.last().push(d.line_at(l, text)));
        assert(next.cursor_y == next.geom.margin + next.pages.last().len() * next.advance()) by {
            assert((l + 1) * a == l * a + a) by (nonlinear_arith);
        }
        assert forall|i: int|
            0 <= i < next.pages.len() - 1 implies (#[trigger] next.pages[i]).len()
            == next.capacity() by {
            assert(next.pages[i] == d.pages[i]);
        }
        assert forall|i: int, j: int|
            0 <= i < next.pages.len() && 0 <= j < next.pages[i].len() implies {
                &&& (#[trigger] next.pages[i][j]).x == next.geom.margin
                &&& next.pages[i][j].y == next.geom.margin + j * next.advance()
            } by {
            if i < next.pages.len() - 1 || j < l {
                assert(next.pages[i][j] == d.pages[i][j]);
            }
        }
    }
}

} // verus!
