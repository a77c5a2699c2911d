//! Round trip through a real encoder: the saved plan is rendered with
//! printpdf, the bytes are parsed back with lopdf, and the extracted text
//! must list the appended lines in order.

use pdf::Font;
use pdf::Geometry;
use pdf::PdfDocument;
use pdf::RenderPlan;

fn to_mm(units: u64) -> printpdf::Mm {
    printpdf::Mm(units as f32 / 100.0)
}

fn builtin_of(font: Font) -> printpdf::BuiltinFont {
    match font {
        Font::TimesRoman => printpdf::BuiltinFont::TimesRoman,
        Font::TimesBold => printpdf::BuiltinFont::TimesBold,
        Font::TimesItalic => printpdf::BuiltinFont::TimesItalic,
        Font::TimesBoldItalic => printpdf::BuiltinFont::TimesBoldItalic,
        Font::Helvetica => printpdf::BuiltinFont::Helvetica,
        Font::HelveticaBold => printpdf::BuiltinFont::HelveticaBold,
        Font::HelveticaOblique => printpdf::BuiltinFont::HelveticaOblique,
        Font::HelveticaBoldOblique => printpdf::BuiltinFont::HelveticaBoldOblique,
        Font::Courier => printpdf::BuiltinFont::Courier,
        Font::CourierBold => printpdf::BuiltinFont::CourierBold,
        Font::CourierOblique => printpdf::BuiltinFont::CourierOblique,
        Font::CourierBoldOblique => printpdf::BuiltinFont::CourierBoldOblique,
        Font::Symbol => printpdf::BuiltinFont::Symbol,
        Font::ZapfDingbats => printpdf::BuiltinFont::ZapfDingbats,
    }
}

/// Renders a plan to PDF bytes the same way the surrounding application
/// does: one printpdf page per plan page, one text run per line.
fn encode(plan: &RenderPlan) -> Vec<u8> {
    let w = to_mm(plan.geom.page_width);
    let h = to_mm(plan.geom.page_height);
    let (doc, first_page, first_layer) =
        printpdf::PdfDocument::new(plan.title.clone(), w, h, "Layer 1");
    let font = doc.add_builtin_font(builtin_of(plan.font)).unwrap();
    let size_pt = plan.font_size as f32 / 100.0;
    for (i, page) in plan.pages.iter().enumerate() {
        let (page_idx, layer_idx) = if i == 0 {
            (first_page, first_layer)
        } else {
            doc.add_page(w, h, "Layer 1")
        };
        let layer = doc.get_page(page_idx).get_layer(layer_idx);
        for line in &page.lines {
            // the model's y runs down from the page top; PDF's runs up
            let y_pdf = printpdf::Mm((plan.geom.page_height - line.y) as f32 / 100.0);
            layer.use_text(line.text.clone(), size_pt, to_mm(line.x), y_pdf, &font);
        }
    }
    doc.save_to_bytes().unwrap()
}

fn extracted_lines(bytes: &[u8]) -> Vec<Vec<String>> {
    let parsed = lopdf::Document::load_mem(bytes).unwrap();
    let mut out: Vec<Vec<String>> = Vec::new();
    for page_number in parsed.get_pages().keys() {
        let text = parsed.extract_text(&[*page_number]).unwrap();
        out.push(
            text.lines().map(|l| l.trim().to_string()).filter(|l| !l.is_empty()).collect(),
        );
    }
    out
}

#[test]
fn saved_document_parses_back_to_the_same_lines() {
    let geom = Geometry { page_width: 21000, page_height: 29700, margin: 2000 };
    let mut doc =
        PdfDocument::new(String::from("Round trip"), "Helvetica", 1200, 600, geom).unwrap();
    let lines =
        vec!["the first line", "the second line", "the third line", "the fourth line"];
    for l in &lines {
        doc.append_line(String::from(*l));
    }
    let plan = doc.save();
    let bytes = encode(&plan);
    let parsed = extracted_lines(&bytes);
    let flat: Vec<String> = parsed.into_iter().flatten().collect();
    assert_eq!(flat, lines);
}

#[test]
fn saved_document_keeps_page_breaks() {
    // writable height 8000, advance 4000: two lines per page
    let geom = Geometry { page_width: 21000, page_height: 10000, margin: 1000 };
    let mut doc = PdfDocument::new(String::from("Pages"), "Courier", 3000, 1000, geom).unwrap();
    for l in ["one", "two", "three", "four", "five"] {
        doc.append_line(String::from(l));
    }
    let plan = doc.save();
    assert_eq!(plan.pages.len(), 3);
    let parsed = extracted_lines(&encode(&plan));
    assert_eq!(parsed.len(), 3);
    assert_eq!(parsed[0], vec!["one", "two"]);
    assert_eq!(parsed[1], vec!["three", "four"]);
    assert_eq!(parsed[2], vec!["five"]);
}

#[test]
fn empty_document_encodes_to_a_valid_single_page_pdf() {
    let geom = Geometry { page_width: 21000, page_height: 29700, margin: 2000 };
    let doc = PdfDocument::new(String::from("Blank"), "Times-Roman", 1200, 50, geom).unwrap();
    let plan = doc.save();
    let bytes = encode(&plan);
    let parsed = lopdf::Document::load_mem(&bytes).unwrap();
    assert_eq!(parsed.get_pages().len(), 1);
    let text = parsed.extract_text(&[1]).unwrap();
    assert!(text.trim().is_empty());
}
