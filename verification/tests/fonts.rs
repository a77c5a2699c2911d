use pdf::DocError;
use pdf::Font;
use pdf::resolve_font;

#[test]
fn every_builtin_font_resolves() {
    let table: Vec<(&str, Font)> = vec![
        ("Times-Roman", Font::TimesRoman),
        ("Times-Bold", Font::TimesBold),
        ("Times-Italic", Font::TimesItalic),
        ("Times-BoldItalic", Font::TimesBoldItalic),
        ("Helvetica", Font::Helvetica),
        ("Helvetica-Bold", Font::HelveticaBold),
        ("Helvetica-Oblique", Font::HelveticaOblique),
        ("Helvetica-BoldOblique", Font::HelveticaBoldOblique),
        ("Courier", Font::Courier),
        ("Courier-Bold", Font::CourierBold),
        ("Courier-Oblique", Font::CourierOblique),
        ("Courier-BoldOblique", Font::CourierBoldOblique),
        ("Symbol", Font::Symbol),
        ("ZapfDingbats", Font::ZapfDingbats),
    ];
    for (name, font) in table {
        assert_eq!(resolve_font(name).unwrap(), font);
    }
}

#[test]
fn lookup_is_case_sensitive() {
    assert_eq!(resolve_font("courier").unwrap_err(), DocError::FontLoadError);
    assert_eq!(resolve_font("TIMES-ROMAN").unwrap_err(), DocError::FontLoadError);
}

#[test]
fn near_misses_do_not_resolve() {
    assert_eq!(resolve_font("").unwrap_err(), DocError::FontLoadError);
    assert_eq!(resolve_font("Times").unwrap_err(), DocError::FontLoadError);
    assert_eq!(resolve_font("Times-Roman ").unwrap_err(), DocError::FontLoadError);
    assert_eq!(resolve_font("Helvetica-BoldObliqu").unwrap_err(), DocError::FontLoadError);
}
