//! The general laws of the builder, stated over the document model and
//! proved once for every input: what a grown document holds, how many
//! pages it spreads over, and that nothing but a document's own
//! construction parameters shapes it.

use vstd::prelude::*;

use crate::doc::DocModel;
use crate::doc::GeomModel;
use crate::doc::LineModel;
use crate::doc::fresh_model;
use crate::doc::geom_ok;
use crate::doc::lemma_append_preserves_wf;
use crate::font::Font;

verus! {

/// The texts of one page's lines, in order.
pub open spec fn page_texts(p: Seq<LineModel>) -> Seq<Seq<char>> {
    p.map_values(|l: LineModel| l.text)
}

/// The texts of a run of pages: page by page, each page's lines in order.
pub open spec fn pages_texts(pages: Seq<Seq<LineModel>>) -> Seq<Seq<char>>
    decreases pages.len(),
{
    if pages.len() == 0 {
        Seq::empty()
    } else {
        pages_texts(pages.drop_last()) + page_texts(pages.last())
    }
}

/// Every text in the document, in the order the lines were appended.
pub open spec fn doc_texts(d: DocModel) -> Seq<Seq<char>> {
    pages_texts(d.pages)
}

/// The document grown from `d` by appending `texts`, in order.
pub open spec fn build_model(d: DocModel, texts: Seq<Seq<char>>) -> DocModel
    decreases texts.len(),
{
    if texts.len() == 0 {
        d
    } else {
        build_model(d, texts.drop_last()).append_model(texts.last())
    }
}

/// Ceiling of `a / b`, for positive `b`.
pub open spec fn ceil_div(a: int, b: int) -> int {
    (a + b - 1) / b
}

/// One append appends one text: the document's texts grow by exactly the
/// appended line, at the end, whether or not a page boundary is crossed.
pub proof fn lemma_append_texts(d: DocModel, t: Seq<char>)
    requires
        d.wf(),
    ensures
        doc_texts(d.append_model(t)) == doc_texts(d).push(t),
{
    let next = d.append_model(t);
    if d.page_full() {
        assert(next.pages.drop_last() =~= d.pages);
        assert(page_texts(next.pages.last()) =~= seq![t]);
        assert(pages_texts(d.pages) + seq![t] =~= pages_texts(d.pages).push(t));
    } else {
        let last = d.pages.last();
        let line = d.line_at(last.len() as int, t);
        assert(next.pages.drop_last() =~= d.pages.drop_last());
        assert(next.pages.last() == last.push(line));
        assert(page_texts(last.push(line)) =~= page_texts(last).push(t));
        assert(pages_texts(d.pages.drop_last()) + page_texts(last).push(t) =~= (pages_texts(
            d.pages.drop_last(),
        ) + page_texts(last)).push(t));
    }
}

/// Growing a well-formed document keeps it well-formed.
pub proof fn lemma_build_wf(d: DocModel, texts: Seq<Seq<char>>)
    requires
        d.wf(),
    ensures
        build_model(d, texts).wf(),
    decreases texts.len(),
{
    if texts.len() > 0 {
        lemma_build_wf(d, texts.drop_last());
        lemma_append_preserves_wf(build_model(d, texts.drop_last()), texts.last());
    }
}

/// Growing a document adds exactly the appended texts, in order, after
/// whatever it already held.
pub proof fn lemma_build_texts(d: DocModel, texts: Seq<Seq<char>>)
    requires
        d.wf(),
    ensures
        doc_texts(build_model(d, texts)) == doc_texts(d) + texts,
    decreases texts.len(),
{
    if texts.len() == 0 {
        assert(doc_texts(d) + texts =~= doc_texts(d));
    } else {
        let dl = texts.drop_last();
        lemma_build_texts(d, dl);
        lemma_build_wf(d, dl);
        lemma_append_texts(build_model(d, dl), texts.last());
        assert((doc_texts(d) + dl).push(texts.last()) =~= doc_texts(d) + texts);
    }
}

/// A fresh document holds no text.
pub proof fn lemma_fresh_no_texts(d: DocModel)
    requires
        d.pages == seq![Seq::<LineModel>::empty()],
    ensures
        doc_texts(d) == Seq::<Seq<char>>::empty(),
{
    let e = Seq::<Seq<LineModel>>::empty();
    assert(d.pages.drop_last() =~= e);
    assert(pages_texts(e) == Seq::<Seq<char>>::empty());
    assert(page_texts(d.pages.last()) =~= Seq::<Seq<char>>::empty());
    assert(pages_texts(d.pages) == pages_texts(e) + page_texts(d.pages.last()));
    assert(pages_texts(e) + page_texts(d.pages.last()) =~= Seq::<Seq<char>>::empty());
}

/// Round trip, the builder's half: a document built from fresh by
/// appending `texts` holds exactly `texts`, in order. An encoder fed the
/// saved plan therefore emits those texts in that order.
pub proof fn lemma_round_trip(d0: DocModel, texts: Seq<Seq<char>>)
    requires
        d0.wf(),
        d0.pages == seq![Seq::<LineModel>::empty()],
    ensures
        doc_texts(build_model(d0, texts)) == texts,
{
    lemma_fresh_no_texts(d0);
    lemma_build_texts(d0, texts);
    assert(Seq::<Seq<char>>::empty() + texts =~= texts);
}

/// A freshly constructed document is well-formed and is a single page
/// with no text content: exactly what it saves to.
pub proof fn lemma_empty_document(
    title: Seq<char>,
    font: Font,
    font_size: int,
    line_margin: int,
    g: GeomModel,
)
    requires
        geom_ok(font_size, line_margin, g),
    ensures
        fresh_model(title, font, font_size, line_margin, g).wf(),
        fresh_model(title, font, font_size, line_margin, g).pages.len() == 1,
        fresh_model(title, font, font_size, line_margin, g).pages[0].len() == 0,
        doc_texts(fresh_model(title, font, font_size, line_margin, g)) == Seq::<Seq<char>>::empty(),
{
    let d = fresh_model(title, font, font_size, line_margin, g);
    assert(0 * d.advance() == 0) by (nonlinear_arith);
    lemma_fresh_no_texts(d);
}

/// The text count of a run of pages of which every one but the last
/// holds exactly `cap` lines.
proof fn lemma_uniform_pages_count(pages: Seq<Seq<LineModel>>, cap: int)
    requires
        1 <= pages.len(),
        forall|i: int| 0 <= i < pages.len() - 1 ==> (#[trigger] pages[i]).len() == cap,
    ensures
        pages_texts(pages).len() == (pages.len() - 1) * cap + pages.last().len(),
    decreases pages.len(),
{
    if pages.len() == 1 {
        assert(pages_texts(pages.drop_last()).len() == 0);
        assert((pages.len() - 1) * cap == 0) by (nonlinear_arith)
            requires pages.len() == 1;
    } else {
        let dl = pages.drop_last();
        lemma_uniform_pages_count(dl, cap);
        assert(dl.last().len() == cap);
        assert((dl.len() - 1) * cap + cap == (pages.len() - 1) * cap) by (nonlinear_arith)
            requires dl.len() == pages.len() - 1;
    }
}

/// A well-formed document's page count is fixed by its line count: one
/// page while it is empty, and one page for each started batch of
/// `capacity` lines after that.
pub proof fn lemma_wf_page_count(d: DocModel)
    requires
        d.wf(),
    ensures
        doc_texts(d).len() == 0 ==> d.pages.len() == 1,
        doc_texts(d).len() > 0 ==> d.pages.len() == ceil_div(doc_texts(d).len() as int, d.capacity()),
{
    let cap = d.capacity();
    let a = d.advance();
    let h = d.writable_height();
    let p = d.pages.len() as int;
    let l = d.pages.last().len() as int;
    lemma_uniform_pages_count(d.pages, cap);
    let n = doc_texts(d).len() as int;
    assert(1 <= cap) by {
        vstd::arithmetic::div_mod::lemma_fundamental_div_mod(h, a);
        vstd::arithmetic::div_mod::lemma_mod_bound(h, a);
        assert(cap * a >= 1 ==> cap >= 1) by (nonlinear_arith)
            requires 1 <= a;
    }
    if n == 0 {
        // no text: no page after the first was ever started
        if p > 1 {
            assert(n >= (p - 1) * cap + l);
            assert((p - 1) * cap >= 1 * 1) by (nonlinear_arith)
                requires p - 1 >= 1 && cap >= 1;
        }
    } else {
        // n == (p - 1) * cap + l with 0 < l <= cap pins the ceiling
        assert(1 <= l) by {
            if p == 1 {
                assert(n == (p - 1) * cap + l);
                assert((p - 1) * cap == 0) by (nonlinear_arith)
                    requires p == 1;
            }
        }
        assert(n + cap - 1 == p * cap + (l - 1)) by (nonlinear_arith)
            requires n == (p - 1) * cap + l;
        vstd::arithmetic::div_mod::lemma_fundamental_div_mod_converse(n + cap - 1, cap, p, l - 1);
    }
}

/// Page count under overflow: when the cumulative height of the appended
/// lines exceeds the writable height of one page, and the line advance
/// divides that height evenly, the built document has exactly
/// `ceil(total_height / writable_height)` pages.
pub proof fn lemma_page_count(d0: DocModel, texts: Seq<Seq<char>>)
    requires
        d0.wf(),
        d0.pages == seq![Seq::<LineModel>::empty()],
        d0.writable_height() % d0.advance() == 0,
        texts.len() * d0.advance() > d0.writable_height(),
    ensures
        build_model(d0, texts).pages.len() == ceil_div(
            texts.len() * d0.advance(),
            d0.writable_height(),
        ),
{
    let a = d0.advance();
    let h = d0.writable_height();
    let cap = d0.capacity();
    let n = texts.len() as int;
    let d = build_model(d0, texts);
    lemma_build_wf(d0, texts);
    lemma_round_trip(d0, texts);
    lemma_styling_independent(d0, texts);
    assert(d.capacity() == cap && d.advance() == a && d.writable_height() == h);
    lemma_wf_page_count(d);
    // the advance divides evenly, so a page's writable height is exactly
    // `capacity` advances
    assert(h == cap * a) by {
        vstd::arithmetic::div_mod::lemma_fundamental_div_mod(h, a);
    }
    assert(1 <= cap) by {
        assert(cap * a >= 1 ==> cap >= 1) by (nonlinear_arith)
            requires 1 <= a;
    }
    assert(n >= 1) by {
        assert(n * a > h >= a ==> n >= 1) by (nonlinear_arith)
            requires 1 <= a;
    }
    let p = d.pages.len() as int;
    assert(p == ceil_div(n, cap));
    // ceil_div(n, cap) and ceil_div(n * a, cap * a) are the same ceiling
    let q = (n + cap - 1) / cap;
    let r = (n + cap - 1) % cap;
    vstd::arithmetic::div_mod::lemma_fundamental_div_mod(n + cap - 1, cap);
    vstd::arithmetic::div_mod::lemma_mod_bound(n + cap - 1, cap);
    assert(n * a + cap * a - 1 == q * (cap * a) + (r * a + a - 1)) by (nonlinear_arith)
        requires n + cap - 1 == q * cap + r;
    assert(0 <= r * a + a - 1 < cap * a) by (nonlinear_arith)
        requires 0 <= r < cap && 1 <= a;
    assert(cap * a != 0) by (nonlinear_arith)
        requires 1 <= cap && 1 <= a;
    vstd::arithmetic::div_mod::lemma_fundamental_div_mod_converse(
        n * a + cap * a - 1,
        cap * a,
        q,
        r * a + a - 1,
    );
}

/// Nothing shared carries over between constructions: the title, font,
/// font size, line margin and geometry of a grown document are those of
/// its own construction, untouched by any sequence of appends (to it or
/// to any other document).
pub proof fn lemma_styling_independent(d: DocModel, texts: Seq<Seq<char>>)
    ensures
        build_model(d, texts).title == d.title,
        build_model(d, texts).font == d.font,
        build_model(d, texts).font_size == d.font_size,
        build_model(d, texts).line_margin == d.line_margin,
        build_model(d, texts).geom == d.geom,
    decreases texts.len(),
{
    if texts.len() > 0 {
        lemma_styling_independent(d, texts.drop_last());
    }
}

} // verus!
