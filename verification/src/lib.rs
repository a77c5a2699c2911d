//! A small document builder: text lines are appended one by one, stacked
//! vertically inside the page margins, and flowed onto new pages when the
//! writable area of the current page is full. Saving yields the logical
//! content model (page geometry, font, and every placed line in order) that
//! a PDF byte-stream encoder consumes.

use vstd::prelude::*;

mod doc;
mod font;
mod laws;

pub use doc::DocModel;
pub use doc::GeomModel;
pub use doc::Geometry;
pub use doc::Line;
pub use doc::LineModel;
pub use doc::MAX_DIM;
pub use doc::Page;
pub use doc::PdfDocument;
pub use doc::fresh_model;
pub use doc::geom_ok;
pub use doc::PlanModel;
pub use doc::RenderPlan;
pub use doc::lemma_append_preserves_wf;
pub use doc::lemma_cursor_in_writable_area;
pub use doc::plan_of;
pub use font::Font;
pub use font::font_of_name;
pub use font::resolve_font;
pub use laws::build_model;
pub use laws::ceil_div;
pub use laws::doc_texts;
pub use laws::lemma_append_texts;
pub use laws::lemma_build_texts;
pub use laws::lemma_build_wf;
pub use laws::lemma_empty_document;
pub use laws::lemma_fresh_no_texts;
pub use laws::lemma_page_count;
pub use laws::lemma_round_trip;
pub use laws::lemma_styling_independent;
pub use laws::lemma_wf_page_count;
pub use laws::page_texts;
pub use laws::pages_texts;

verus! {

/// The two ways an operation on a document can fail: the requested font is
/// not one the encoder can resolve, or the destination cannot be written.
#[derive(Clone, Copy, Debug, PartialEq, Eq, Structural)]
pub enum DocError {
    FontLoadError,
    IoError,
}

} // verus!
