use cups_http_gateway::print_options::{
    media_dims_tenths_mm, ColorMode, DocumentFormat, MediaSize, Orientation, Sides,
};

#[test]
fn mime_types_of_named_formats() {
    assert_eq!(DocumentFormat::PlainText.mime_type(), "text/plain");
    assert_eq!(DocumentFormat::Pdf.mime_type(), "application/pdf");
    assert_eq!(DocumentFormat::PostScript.mime_type(), "application/postscript");
    assert_eq!(DocumentFormat::Png.mime_type(), "image/png");
    assert_eq!(DocumentFormat::Jpeg.mime_type(), "image/jpeg");
    assert_eq!(DocumentFormat::Raw("application/vnd.zebra-zpl".to_owned()).mime_type(), "application/vnd.zebra-zpl");
}

#[test]
fn from_mime_reads_known_and_custom_types() {
    assert!(matches!(DocumentFormat::from_mime("text/plain"), DocumentFormat::PlainText));
    assert!(matches!(DocumentFormat::from_mime("application/pdf"), DocumentFormat::Pdf));
    assert!(matches!(DocumentFormat::from_mime("application/postscript"), DocumentFormat::PostScript));
    assert!(matches!(DocumentFormat::from_mime("image/png"), DocumentFormat::Png));
    assert!(matches!(DocumentFormat::from_mime("image/jpeg"), DocumentFormat::Jpeg));
    assert!(matches!(DocumentFormat::from_mime("image/jpg"), DocumentFormat::Jpeg));
    match DocumentFormat::from_mime("application/octet-stream") {
        DocumentFormat::Raw(m) => assert_eq!(m, "application/octet-stream"),
        other => panic!("unexpected {other:?}"),
    }
}

#[test]
fn mime_round_trip_except_jpg_alias() {
    for m in ["text/plain", "application/pdf", "image/png", "image/jpeg", "x-custom/thing"] {
        assert_eq!(DocumentFormat::from_mime(m).mime_type(), m);
    }
    assert_eq!(DocumentFormat::from_mime("image/jpg").mime_type(), "image/jpeg");
}

#[test]
fn only_plain_text_is_text() {
    assert!(DocumentFormat::PlainText.is_text());
    assert!(!DocumentFormat::Pdf.is_text());
    assert!(!DocumentFormat::Raw("text/plain; charset=utf-8".to_owned()).is_text());
}

#[test]
fn sides_keywords_round_trip() {
    for s in [Sides::OneSided, Sides::TwoSidedLongEdge, Sides::TwoSidedShortEdge] {
        assert_eq!(Sides::from_keyword(s.as_ipp_keyword()), Some(s));
    }
    assert_eq!(Sides::TwoSidedShortEdge.as_ipp_keyword(), "two-sided-short-edge");
    assert_eq!(Sides::from_keyword("duplex"), None);
    assert_eq!(Sides::default(), Sides::OneSided);
}

#[test]
fn color_keywords_round_trip_and_grayscale_alias() {
    for c in [ColorMode::Color, ColorMode::Monochrome, ColorMode::Auto] {
        assert_eq!(ColorMode::from_keyword(c.as_ipp_keyword()), Some(c));
    }
    assert_eq!(ColorMode::from_keyword("grayscale"), Some(ColorMode::Monochrome));
    assert_eq!(ColorMode::Monochrome.as_ipp_keyword(), "monochrome");
    assert_eq!(ColorMode::from_keyword("Color"), None);
}

#[test]
fn orientation_keywords_and_enums() {
    assert_eq!(Orientation::from_keyword("portrait"), Some(Orientation::Portrait));
    assert_eq!(Orientation::from_keyword("landscape"), Some(Orientation::Landscape));
    assert_eq!(Orientation::from_keyword("reverse-portrait"), Some(Orientation::ReversePortrait));
    assert_eq!(Orientation::from_keyword("reverse-landscape"), Some(Orientation::ReverseLandscape));
    assert_eq!(Orientation::from_keyword("upside-down"), None);
    assert_eq!(Orientation::Portrait.as_ipp_enum(), 3);
    assert_eq!(Orientation::Landscape.as_ipp_enum(), 4);
    assert_eq!(Orientation::ReversePortrait.as_ipp_enum(), 5);
    assert_eq!(Orientation::ReverseLandscape.as_ipp_enum(), 6);
}

#[test]
fn media_keywords_round_trip() {
    for k in [
        "iso_a3", "iso_a4", "iso_a5", "iso_a6", "na_letter", "na_legal", "na_executive",
        "na_index-4x6", "custom_80x297mm", "custom_58x297mm", "custom_100x150mm",
    ] {
        assert_eq!(MediaSize::from_keyword(k).as_cups_keyword(), k);
    }
    assert!(matches!(MediaSize::from_keyword("custom_80x297mm"), MediaSize::ThermalReceipt80mm));
    assert!(matches!(MediaSize::from_keyword("na_letter"), MediaSize::Letter));
    match MediaSize::from_keyword("custom_100x150mm") {
        MediaSize::Custom(s) => assert_eq!(s, "custom_100x150mm"),
        other => panic!("unexpected {other:?}"),
    }
}

#[test]
fn custom_media_with_a_named_keyword_reads_back_named() {
    let m = MediaSize::Custom("iso_a4".to_owned());
    assert!(matches!(MediaSize::from_keyword(m.as_cups_keyword()), MediaSize::A4));
}

#[test]
fn page_dimensions_in_tenths_of_mm() {
    assert_eq!(media_dims_tenths_mm(Some(&MediaSize::A3)), (2970, 4200));
    assert_eq!(media_dims_tenths_mm(Some(&MediaSize::Letter)), (2159, 2794));
    assert_eq!(media_dims_tenths_mm(Some(&MediaSize::Label4x6)), (1016, 1524));
    assert_eq!(media_dims_tenths_mm(Some(&MediaSize::ThermalReceipt80mm)), (2100, 2970));
    assert_eq!(media_dims_tenths_mm(Some(&MediaSize::A4)), (2100, 2970));
    assert_eq!(media_dims_tenths_mm(None), (2100, 2970));
}
