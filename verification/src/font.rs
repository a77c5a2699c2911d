//! The fourteen built-in fonts every PDF encoder resolves, and the lookup
//! from their standard PostScript names.

use vstd::prelude::*;
use vstd::string::StrSliceExecFns;

use crate::DocError;

verus! {

/// One of the fourteen standard built-in fonts. A document refers to its
/// font through this value; the encoder maps it to its own font handle.
#[derive(Clone, Copy, Debug, PartialEq, Eq, Structural)]
pub enum Font {
    TimesRoman,
    TimesBold,
    TimesItalic,
    TimesBoldItalic,
    Helvetica,
    HelveticaBold,
    HelveticaOblique,
    HelveticaBoldOblique,
    Courier,
    CourierBold,
    CourierOblique,
    CourierBoldOblique,
    Symbol,
    ZapfDingbats,
}

/// The font, if any, whose standard PostScript name is `name`.
pub open spec fn font_of_name(name: Seq<char>) -> Option<Font> {
    if name == "Times-Roman"@ {
        Some(Font::TimesRoman)
    } else if name == "Times-Bold"@ {
        Some(Font::TimesBold)
    } else if name == "Times-Italic"@ {
        Some(Font::TimesItalic)
    } else if name == "Times-BoldItalic"@ {
        Some(Font::TimesBoldItalic)
    } else if name == "Helvetica"@ {
        Some(Font::Helvetica)
    } else if name == "Helvetica-Bold"@ {
        Some(Font::HelveticaBold)
    } else if name == "Helvetica-Oblique"@ {
        Some(Font::HelveticaOblique)
    } else if name == "Helvetica-BoldOblique"@ {
        Some(Font::HelveticaBoldOblique)
    } else if name == "Courier"@ {
        Some(Font::Courier)
    } else if name == "Courier-Bold"@ {
        Some(Font::CourierBold)
    } else if name == "Courier-Oblique"@ {
        Some(Font::CourierOblique)
    } else if name == "Courier-BoldOblique"@ {
        Some(Font::CourierBoldOblique)
    } else if name == "Symbol"@ {
        Some(Font::Symbol)
    } else if name == "ZapfDingbats"@ {
        Some(Font::ZapfDingbats)
    } else {
        None
    }
}

/// Character-by-character string equality, decided against the views.
fn str_eq(a: &str, b: &str) -> (r: bool)
    ensures
        r == (a@ == b@),
{
    let a_len = a.unicode_len();
    let b_len = b.unicode_len();
    if a_len != b_len {
        assert(a@ != b@) by {
            assert(a@.len() != b@.len());
        }
        return false;
    }
    let mut i: usize = 0;
    while i < a_len
        invariant
            i <= a_len,
            a_len == a@.len(),
            a_len == b@.len(),
            forall|j: int| 0 <= j < i ==> a@[j] == b@[j],
        decreases a_len - i,
    {
        if a.get_char(i) != b.get_char(i) {
            return false;
        }
        i += 1;
    }
    proof {
        assert(a@ =~= b@);
    }
    true
}

/// Resolves a font name to its built-in font; an unknown name is the one
/// condition under which a document cannot be constructed.
pub fn resolve_font(name: &str) -> (r: Result<Font, DocError>)
    ensures
        r is Ok <==> font_of_name(name@) is Some,
        r is Ok ==> r->Ok_0 == font_of_name(name@)->0,
        r is Err ==> r->Err_0 == DocError::FontLoadError,
{
    if str_eq(name, "Times-Roman") {
        Ok(Font::TimesRoman)
    } else if str_eq(name, "Times-Bold") {
        Ok(Font::TimesBold)
    } else if str_eq(name, "Times-Italic") {
        Ok(Font::TimesItalic)
    } else if str_eq(name, "Times-BoldItalic") {
        Ok(Font::TimesBoldItalic)
    } else if str_eq(name, "Helvetica") {
        Ok(Font::Helvetica)
    } else if str_eq(name, "Helvetica-Bold") {
        Ok(Font::HelveticaBold)
    } else if str_eq(name, "Helvetica-Oblique") {
        Ok(Font::HelveticaOblique)
    } else if str_eq(name, "Helvetica-BoldOblique") {
        Ok(Font::HelveticaBoldOblique)
    } else if str_eq(name, "Courier") {
        Ok(Font::Courier)
    } else if str_eq(name, "Courier-Bold") {
        Ok(Font::CourierBold)
    } else if str_eq(name, "Courier-Oblique") {
        Ok(Font::CourierOblique)
    } else if str_eq(name, "Courier-BoldOblique") {
        Ok(Font::CourierBoldOblique)
    } else if str_eq(name, "Symbol") {
        Ok(Font::Symbol)
    } else if str_eq(name, "ZapfDingbats") {
        Ok(Font::ZapfDingbats)
    } else {
        Err(DocError::FontLoadError)
    }
}

} // verus!
