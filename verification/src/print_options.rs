//! Typed print options and the IPP / CUPS keywords they travel as.
use vstd::prelude::*;

use crate::text::{owned, text_eq};

verus! {

// ── DocumentFormat ─────────────────────────────────────────────────────────

/// Typed MIME format. Use `Raw` for anything CUPS supports that isn't listed here.
#[derive(Debug, Clone)]
pub enum DocumentFormat {
    PlainText,
    Pdf,
    PostScript,
    Png,
    Jpeg,
    /// Thermal receipt printers (ESC/POS), label printers (ZPL), or any custom MIME.
    Raw(String),
}

/// The mathematical value of a `DocumentFormat`: a custom MIME type is its characters.
pub enum DocumentFormatView {
    PlainText,
    Pdf,
    PostScript,
    Png,
    Jpeg,
    Raw(Seq<char>),
}

impl View for DocumentFormat {
    type V = DocumentFormatView;

    open spec fn view(&self) -> DocumentFormatView {
        match self {
            DocumentFormat::PlainText => DocumentFormatView::PlainText,
            DocumentFormat::Pdf => DocumentFormatView::Pdf,
            DocumentFormat::PostScript => DocumentFormatView::PostScript,
            DocumentFormat::Png => DocumentFormatView::Png,
            DocumentFormat::Jpeg => DocumentFormatView::Jpeg,
            DocumentFormat::Raw(m) => DocumentFormatView::Raw(m@),
        }
    }
}

/// The MIME type a format is sent to CUPS as.
pub open spec fn mime_of(f: DocumentFormatView) -> Seq<char> {
    match f {
        DocumentFormatView::PlainText => "text/plain"@,
        DocumentFormatView::Pdf => "application/pdf"@,
        DocumentFormatView::PostScript => "application/postscript"@,
        DocumentFormatView::Png => "image/png"@,
        DocumentFormatView::Jpeg => "image/jpeg"@,
        DocumentFormatView::Raw(m) => m,
    }
}

/// The format named by a MIME type; `image/jpg` is accepted for JPEG, and any
/// other unknown type is kept as it is.
pub open spec fn format_of_mime(s: Seq<char>) -> DocumentFormatView {
    if s == "text/plain"@ {
        DocumentFormatView::PlainText
    } else if s == "application/pdf"@ {
        DocumentFormatView::Pdf
    } else if s == "application/postscript"@ {
        DocumentFormatView::PostScript
    } else if s == "image/png"@ {
        DocumentFormatView::Png
    } else if s == "image/jpeg"@ || s == "image/jpg"@ {
        DocumentFormatView::Jpeg
    } else {
        DocumentFormatView::Raw(s)
    }
}

/// The MIME types that `from_mime` maps to a named format.
pub open spec fn is_known_mime(s: Seq<char>) -> bool {
    s == "text/plain"@ || s == "application/pdf"@ || s == "application/postscript"@ || s
        == "image/png"@ || s == "image/jpeg"@ || s == "image/jpg"@
}

impl DocumentFormat {
    pub fn mime_type(&self) -> (r: &str)
        ensures
            r@ == mime_of(self@),
    {
        match self {
            DocumentFormat::PlainText => "text/plain",
            DocumentFormat::Pdf => "application/pdf",
            DocumentFormat::PostScript => "application/postscript",
            DocumentFormat::Png => "image/png",
            DocumentFormat::Jpeg => "image/jpeg",
            DocumentFormat::Raw(mime) => mime.as_str(),
        }
    }

    pub fn from_mime(s: &str) -> (r: Self)
        ensures
            r@ == format_of_mime(s@),
    {
        if text_eq(s, "text/plain") {
            DocumentFormat::PlainText
        } else if text_eq(s, "application/pdf") {
            DocumentFormat::Pdf
        } else if text_eq(s, "application/postscript") {
            DocumentFormat::PostScript
        } else if text_eq(s, "image/png") {
            DocumentFormat::Png
        } else if text_eq(s, "image/jpeg") || text_eq(s, "image/jpg") {
            DocumentFormat::Jpeg
        } else {
            DocumentFormat::Raw(owned(s))
        }
    }

    /// Whether the content arrives as plain UTF-8 (no base64 needed).
    pub fn is_text(&self) -> (r: bool)
        ensures
            r == (self@ is PlainText),
    {
        match self {
            DocumentFormat::PlainText => true,
            _ => false,
        }
    }
}

/// Reading a MIME type and writing it back gives the same text, except that
/// `image/jpg` comes back as `image/jpeg`.
pub proof fn lemma_mime_round_trip(s: Seq<char>)
    ensures
        mime_of(format_of_mime(s)) == (if s == "image/jpg"@ { "image/jpeg"@ } else { s }),
{
    reveal_strlit("text/plain");
    reveal_strlit("application/pdf");
    reveal_strlit("application/postscript");
    reveal_strlit("image/png");
    reveal_strlit("image/jpeg");
    reveal_strlit("image/jpg");
    assert("text/plain"@.len() == 10);
    assert("application/pdf"@.len() == 15);
    assert("application/postscript"@.len() == 22);
    assert("image/png"@.len() == 9);
    assert("image/jpeg"@.len() == 10);
    assert("image/jpg"@.len() == 9);
    assert("text/plain"@[0] != "image/jpeg"@[0]);
    assert("image/png"@[6] != "image/jpg"@[6]);
}

/// Writing a format as its MIME type and reading it back gives the same format,
/// unless it is a custom type whose text is one of the known MIME types.
pub proof fn lemma_format_round_trip(f: DocumentFormatView)
    requires
        !(f matches DocumentFormatView::Raw(m) && is_known_mime(m)),
    ensures
        format_of_mime(mime_of(f)) == f,
{
    reveal_strlit("text/plain");
    reveal_strlit("application/pdf");
    reveal_strlit("application/postscript");
    reveal_strlit("image/png");
    reveal_strlit("image/jpeg");
    reveal_strlit("image/jpg");
    assert("text/plain"@.len() == 10);
    assert("application/pdf"@.len() == 15);
    assert("application/postscript"@.len() == 22);
    assert("image/png"@.len() == 9);
    assert("image/jpeg"@.len() == 10);
    assert("image/jpg"@.len() == 9);
    assert("text/plain"@[0] != "image/jpeg"@[0]);
    assert("image/png"@[6] != "image/jpg"@[6]);
}

// ── Sides ──────────────────────────────────────────────────────────────────

/// Duplex / sides selection.
#[derive(Debug, Clone, Copy, Default, PartialEq, Eq)]
pub enum Sides {
    #[default]
    OneSided,
    TwoSidedLongEdge,
    TwoSidedShortEdge,
}

/// The IPP `sides` keyword of a selection.
pub open spec fn sides_keyword(s: Sides) -> Seq<char> {
    match s {
        Sides::OneSided => "one-sided"@,
        Sides::TwoSidedLongEdge => "two-sided-long-edge"@,
        Sides::TwoSidedShortEdge => "two-sided-short-edge"@,
    }
}

/// The selection named by an IPP `sides` keyword, if any.
pub open spec fn sides_of_keyword(s: Seq<char>) -> Option<Sides> {
    if s == "one-sided"@ {
        Some(Sides::OneSided)
    } else if s == "two-sided-long-edge"@ {
        Some(Sides::TwoSidedLongEdge)
    } else if s == "two-sided-short-edge"@ {
        Some(Sides::TwoSidedShortEdge)
    } else {
        None
    }
}

impl Sides {
    pub fn as_ipp_keyword(&self) -> (r: &'static str)
        ensures
            r@ == sides_keyword(*self),
    {
        match self {
            Sides::OneSided => "one-sided",
            Sides::TwoSidedLongEdge => "two-sided-long-edge",
            Sides::TwoSidedShortEdge => "two-sided-short-edge",
        }
    }

    pub fn from_keyword(s: &str) -> (r: Option<Self>)
        ensures
            r == sides_of_keyword(s@),
    {
        if text_eq(s, "one-sided") {
            Some(Sides::OneSided)
        } else if text_eq(s, "two-sided-long-edge") {
            Some(Sides::TwoSidedLongEdge)
        } else if text_eq(s, "two-sided-short-edge") {
            Some(Sides::TwoSidedShortEdge)
        } else {
            None
        }
    }
}

/// Every selection reads back from its own keyword.
pub proof fn lemma_sides_round_trip(s: Sides)
    ensures
        sides_of_keyword(sides_keyword(s)) == Some(s),
{
    reveal_strlit("one-sided");
    reveal_strlit("two-sided-long-edge");
    reveal_strlit("two-sided-short-edge");
    assert("one-sided"@.len() == 9);
    assert("two-sided-long-edge"@.len() == 19);
    assert("two-sided-short-edge"@.len() == 20);
}

// ── ColorMode ──────────────────────────────────────────────────────────────

/// Color vs monochrome.
#[derive(Debug, Clone, Copy, PartialEq, Eq)]
pub enum ColorMode {
    Color,
    Monochrome,
    Auto,
}

/// The IPP `print-color-mode` keyword of a mode.
pub open spec fn color_keyword(c: ColorMode) -> Seq<char> {
    match c {
        ColorMode::Color => "color"@,
        ColorMode::Monochrome => "monochrome"@,
        ColorMode::Auto => "auto"@,
    }
}

/// The mode named by a keyword; `grayscale` is accepted for monochrome.
pub open spec fn color_of_keyword(s: Seq<char>) -> Option<ColorMode> {
    if s == "color"@ {
        Some(ColorMode::Color)
    } else if s == "monochrome"@ || s == "grayscale"@ {
        Some(ColorMode::Monochrome)
    } else if s == "auto"@ {
        Some(ColorMode::Auto)
    } else {
        None
    }
}

impl ColorMode {
    pub fn as_ipp_keyword(&self) -> (r: &'static str)
        ensures
            r@ == color_keyword(*self),
    {
        match self {
            ColorMode::Color => "color",
            ColorMode::Monochrome => "monochrome",
            ColorMode::Auto => "auto",
        }
    }

    pub fn from_keyword(s: &str) -> (r: Option<Self>)
        ensures
            r == color_of_keyword(s@),
    {
        if text_eq(s, "color") {
            Some(ColorMode::Color)
        } else if text_eq(s, "monochrome") || text_eq(s, "grayscale") {
            Some(ColorMode::Monochrome)
        } else if text_eq(s, "auto") {
            Some(ColorMode::Auto)
        } else {
            None
        }
    }
}

/// Every mode reads back from its own keyword.
pub proof fn lemma_color_round_trip(c: ColorMode)
    ensures
        color_of_keyword(color_keyword(c)) == Some(c),
{
    reveal_strlit("color");
    reveal_strlit("monochrome");
    reveal_strlit("grayscale");
    reveal_strlit("auto");
    assert("color"@.len() == 5);
    assert("monochrome"@.len() == 10);
    assert("grayscale"@.len() == 9);
    assert("auto"@.len() == 4);
}

// ── Orientation ────────────────────────────────────────────────────────────

/// Page orientation.
#[derive(Debug, Clone, Copy, PartialEq, Eq)]
pub enum Orientation {
    Portrait,
    Landscape,
    ReversePortrait,
    ReverseLandscape,
}

/// The IPP `orientation-requested` enum value of an orientation.
pub open spec fn orientation_enum(o: Orientation) -> i32 {
    match o {
        Orientation::Portrait => 3,
        Orientation::Landscape => 4,
        Orientation::ReversePortrait => 5,
        Orientation::ReverseLandscape => 6,
    }
}

/// The orientation named by a keyword, if any.
pub open spec fn orientation_of_keyword(s: Seq<char>) -> Option<Orientation> {
    if s == "portrait"@ {
        Some(Orientation::Portrait)
    } else if s == "landscape"@ {
        Some(Orientation::Landscape)
    } else if s == "reverse-portrait"@ {
        Some(Orientation::ReversePortrait)
    } else if s == "reverse-landscape"@ {
        Some(Orientation::ReverseLandscape)
    } else {
        None
    }
}

impl Orientation {
    /// IPP enum value for `orientation-requested`.
    pub fn as_ipp_enum(&self) -> (r: i32)
        ensures
            r == orientation_enum(*self),
    {
        match self {
            Orientation::Portrait => 3,
            Orientation::Landscape => 4,
            Orientation::ReversePortrait => 5,
            Orientation::ReverseLandscape => 6,
        }
    }

    pub fn from_keyword(s: &str) -> (r: Option<Self>)
        ensures
            r == orientation_of_keyword(s@),
    {
        if text_eq(s, "portrait") {
            Some(Orientation::Portrait)
        } else if text_eq(s, "landscape") {
            Some(Orientation::Landscape)
        } else if text_eq(s, "reverse-portrait") {
            Some(Orientation::ReversePortrait)
        } else if text_eq(s, "reverse-landscape") {
            Some(Orientation::ReverseLandscape)
        } else {
            None
        }
    }
}

/// The IPP enum values are 3 to 6 and tell the orientations apart.
pub proof fn lemma_orientation_enum(a: Orientation, b: Orientation)
    ensures
        3 <= orientation_enum(a) <= 6,
        orientation_enum(a) == orientation_enum(b) ==> a == b,
{
}

// ── MediaSize ──────────────────────────────────────────────────────────────

/// Paper / label size forwarded to CUPS as a media keyword.
///
/// Use `Custom` for thermal receipt rolls (`custom_80x297mm`, `custom_58x297mm`)
/// or any size not listed here. The string must be a valid CUPS media keyword.
#[derive(Debug, Clone)]
pub enum MediaSize {
    A3,
    A4,
    A5,
    A6,
    Letter,
    Legal,
    Executive,
    /// 4×6 in — common shipping / label format.
    Label4x6,
    /// 80 mm wide receipt roll (common thermal receipt printer).
    ThermalReceipt80mm,
    /// 58 mm wide receipt roll (compact thermal printer).
    ThermalReceipt58mm,
    /// Any CUPS media keyword not covered above, e.g. `"custom_100x150mm"`.
    Custom(String),
}

/// The mathematical value of a `MediaSize`: a custom keyword is its characters.
pub enum MediaSizeView {
    A3,
    A4,
    A5,
    A6,
    Letter,
    Legal,
    Executive,
    Label4x6,
    ThermalReceipt80mm,
    ThermalReceipt58mm,
    Custom(Seq<char>),
}

impl View for MediaSize {
    type V = MediaSizeView;

    open spec fn view(&self) -> MediaSizeView {
        match self {
            MediaSize::A3 => MediaSizeView::A3,
            MediaSize::A4 => MediaSizeView::A4,
            MediaSize::A5 => MediaSizeView::A5,
            MediaSize::A6 => MediaSizeView::A6,
            MediaSize::Letter => MediaSizeView::Letter,
            MediaSize::Legal => MediaSizeView::Legal,
            MediaSize::Executive => MediaSizeView::Executive,
            MediaSize::Label4x6 => MediaSizeView::Label4x6,
            MediaSize::ThermalReceipt80mm => MediaSizeView::ThermalReceipt80mm,
            MediaSize::ThermalReceipt58mm => MediaSizeView::ThermalReceipt58mm,
            MediaSize::Custom(s) => MediaSizeView::Custom(s@),
        }
    }
}

/// The CUPS media keyword of a size.
pub open spec fn media_keyword(m: MediaSizeView) -> Seq<char> {
    match m {
        MediaSizeView::A3 => "iso_a3"@,
        MediaSizeView::A4 => "iso_a4"@,
        MediaSizeView::A5 => "iso_a5"@,
        MediaSizeView::A6 => "iso_a6"@,
        MediaSizeView::Letter => "na_letter"@,
        MediaSizeView::Legal => "na_legal"@,
        MediaSizeView::Executive => "na_executive"@,
        MediaSizeView::Label4x6 => "na_index-4x6"@,
        MediaSizeView::ThermalReceipt80mm => "custom_80x297mm"@,
        MediaSizeView::ThermalReceipt58mm => "custom_58x297mm"@,
        MediaSizeView::Custom(s) => s,
    }
}

/// The size named by a CUPS media keyword; any other keyword is kept as a custom size.
pub open spec fn media_of_keyword(s: Seq<char>) -> MediaSizeView {
    if s == "iso_a3"@ {
        MediaSizeView::A3
    } else if s == "iso_a4"@ {
        MediaSizeView::A4
    } else if s == "iso_a5"@ {
        MediaSizeView::A5
    } else if s == "iso_a6"@ {
        MediaSizeView::A6
    } else if s == "na_letter"@ {
        MediaSizeView::Letter
    } else if s == "na_legal"@ {
        MediaSizeView::Legal
    } else if s == "na_executive"@ {
        MediaSizeView::Executive
    } else if s == "na_index-4x6"@ {
        MediaSizeView::Label4x6
    } else if s == "custom_80x297mm"@ {
        MediaSizeView::ThermalReceipt80mm
    } else if s == "custom_58x297mm"@ {
        MediaSizeView::ThermalReceipt58mm
    } else {
        MediaSizeView::Custom(s)
    }
}

/// The keywords that `MediaSize::from_keyword` maps to a named size.
pub open spec fn is_named_media(s: Seq<char>) -> bool {
    s == "iso_a3"@ || s == "iso_a4"@ || s == "iso_a5"@ || s == "iso_a6"@ || s == "na_letter"@ || s
        == "na_legal"@ || s == "na_executive"@ || s == "na_index-4x6"@ || s == "custom_80x297mm"@
        || s == "custom_58x297mm"@
}

impl MediaSize {
    pub fn as_cups_keyword(&self) -> (r: &str)
        ensures
            r@ == media_keyword(self@),
    {
        match self {
            MediaSize::A3 => "iso_a3",
            MediaSize::A4 => "iso_a4",
            MediaSize::A5 => "iso_a5",
            MediaSize::A6 => "iso_a6",
            MediaSize::Letter => "na_letter",
            MediaSize::Legal => "na_legal",
            MediaSize::Executive => "na_executive",
            MediaSize::Label4x6 => "na_index-4x6",
            MediaSize::ThermalReceipt80mm => "custom_80x297mm",
            MediaSize::ThermalReceipt58mm => "custom_58x297mm",
            MediaSize::Custom(s) => s.as_str(),
        }
    }

    pub fn from_keyword(s: &str) -> (r: Self)
        ensures
            r@ == media_of_keyword(s@),
    {
        if text_eq(s, "iso_a3") {
            MediaSize::A3
        } else if text_eq(s, "iso_a4") {
            MediaSize::A4
        } else if text_eq(s, "iso_a5") {
            MediaSize::A5
        } else if text_eq(s, "iso_a6") {
            MediaSize::A6
        } else if text_eq(s, "na_letter") {
            MediaSize::Letter
        } else if text_eq(s, "na_legal") {
            MediaSize::Legal
        } else if text_eq(s, "na_executive") {
            MediaSize::Executive
        } else if text_eq(s, "na_index-4x6") {
            MediaSize::Label4x6
        } else if text_eq(s, "custom_80x297mm") {
            MediaSize::ThermalReceipt80mm
        } else if text_eq(s, "custom_58x297mm") {
            MediaSize::ThermalReceipt58mm
        } else {
            MediaSize::Custom(owned(s))
        }
    }
}

proof fn reveal_media_literals()
    ensures
        "iso_a3"@.len() == 6,
        "iso_a4"@.len() == 6,
        "iso_a5"@.len() == 6,
        "iso_a6"@.len() == 6,
        "na_letter"@.len() == 9,
        "na_legal"@.len() == 8,
        "na_executive"@.len() == 12,
        "na_index-4x6"@.len() == 12,
        "custom_80x297mm"@.len() == 15,
        "custom_58x297mm"@.len() == 15,
        "iso_a3"@[5] != "iso_a4"@[5],
        "iso_a3"@[5] != "iso_a5"@[5],
        "iso_a3"@[5] != "iso_a6"@[5],
        "iso_a4"@[5] != "iso_a5"@[5],
        "iso_a4"@[5] != "iso_a6"@[5],
        "iso_a5"@[5] != "iso_a6"@[5],
        "na_executive"@[3] != "na_index-4x6"@[3],
        "custom_80x297mm"@[7] != "custom_58x297mm"@[7],
{
    reveal_strlit("iso_a3");
    reveal_strlit("iso_a4");
    reveal_strlit("iso_a5");
    reveal_strlit("iso_a6");
    reveal_strlit("na_letter");
    reveal_strlit("na_legal");
    reveal_strlit("na_executive");
    reveal_strlit("na_index-4x6");
    reveal_strlit("custom_80x297mm");
    reveal_strlit("custom_58x297mm");
    assert("iso_a3"@.len() == 6);
    assert("iso_a4"@.len() == 6);
    assert("iso_a5"@.len() == 6);
    assert("iso_a6"@.len() == 6);
    assert("na_letter"@.len() == 9);
    assert("na_legal"@.len() == 8);
    assert("na_executive"@.len() == 12);
    assert("na_index-4x6"@.len() == 12);
    assert("custom_80x297mm"@.len() == 15);
    assert("custom_58x297mm"@.len() == 15);
    assert("iso_a3"@[5] != "iso_a4"@[5]);
    assert("iso_a3"@[5] != "iso_a5"@[5]);
    assert("iso_a3"@[5] != "iso_a6"@[5]);
    assert("iso_a4"@[5] != "iso_a5"@[5]);
    assert("iso_a4"@[5] != "iso_a6"@[5]);
    assert("iso_a5"@[5] != "iso_a6"@[5]);
    assert("na_executive"@[3] != "na_index-4x6"@[3]);
    assert("custom_80x297mm"@[7] != "custom_58x297mm"@[7]);
}

/// Any media keyword read as a size and written back is the same keyword.
pub proof fn lemma_media_keyword_round_trip(s: Seq<char>)
    ensures
        media_keyword(media_of_keyword(s)) == s,
{
}

/// A size written as its keyword and read back is the same size, unless it is
/// a custom size whose keyword is one of the named ones.
pub proof fn lemma_media_size_round_trip(m: MediaSizeView)
    requires
        !(m matches MediaSizeView::Custom(s) && is_named_media(s)),
    ensures
        media_of_keyword(media_keyword(m)) == m,
{
    reveal_media_literals();
}

// ── PrintJobOptions ────────────────────────────────────────────────────────

/// IPP job attributes forwarded to CUPS with each print job.
///
/// All fields are optional — omitted fields use the printer's configured defaults.
#[derive(Debug, Clone, Default)]
pub struct PrintJobOptions {
    pub copies: Option<u32>,
    pub media: Option<MediaSize>,
    pub sides: Option<Sides>,
    pub color_mode: Option<ColorMode>,
    pub orientation: Option<Orientation>,
}


// ── Page sizes ─────────────────────────────────────────────────────────────

/// Page width and height in tenths of a millimetre for a media size; A4 for
/// A4, the thermal rolls, custom sizes and no size at all.
pub open spec fn page_dims(media: Option<MediaSizeView>) -> (u32, u32) {
    match media {
        Some(MediaSizeView::A3) => (2970, 4200),
        Some(MediaSizeView::A5) => (1480, 2100),
        Some(MediaSizeView::A6) => (1050, 1480),
        Some(MediaSizeView::Letter) => (2159, 2794),
        Some(MediaSizeView::Legal) => (2159, 3556),
        Some(MediaSizeView::Executive) => (1842, 2667),
        Some(MediaSizeView::Label4x6) => (1016, 1524),
        _ => (2100, 2970),
    }
}

/// Page width and height of a media size, in tenths of a millimetre.
pub fn media_dims_tenths_mm(media: Option<&MediaSize>) -> (r: (u32, u32))
    ensures
        r == page_dims(match media {
            Some(m) => Some(m@),
            None => None,
        }),
{
    match media {
        Some(MediaSize::A3) => (2970, 4200),
        Some(MediaSize::A5) => (1480, 2100),
        Some(MediaSize::A6) => (1050, 1480),
        Some(MediaSize::Letter) => (2159, 2794),
        Some(MediaSize::Legal) => (2159, 3556),
        Some(MediaSize::Executive) => (1842, 2667),
        Some(MediaSize::Label4x6) => (1016, 1524),
        _ => (2100, 2970),
    }
}

// ── Page-size laws ─────────────────────────────────────────────────────────

/// The page of the size a media keyword names.
pub open spec fn keyword_page(k: Seq<char>) -> (u32, u32) {
    page_dims(Some(media_of_keyword(k)))
}

/// The ISO A-series keyword `iso_aN`.
pub open spec fn iso_keyword(n: int) -> Seq<char> {
    "iso_a"@.push((48 + n) as char)
}

/// The next ISO 216 size: the long side halved (rounded down to a whole
/// millimetre) becomes the short side, the short side becomes the long one.
pub open spec fn iso_halved(page: (u32, u32)) -> (u32, u32) {
    ((page.1 / 20 * 10) as u32, page.0)
}

/// A length of a quarter inches in tenths of a millimetre, to the nearest.
pub open spec fn quarter_inches(q: int) -> u32 {
    ((q * 635 + 5) / 10) as u32
}

/// The paper sizes named by keyword: the ISO A and US sizes.
pub open spec fn is_paper_keyword(s: Seq<char>) -> bool {
    s == "iso_a3"@ || s == "iso_a4"@ || s == "iso_a5"@ || s == "iso_a6"@ || s == "na_letter"@ || s
        == "na_legal"@ || s == "na_executive"@ || s == "na_index-4x6"@
}

proof fn lemma_iso_keywords()
    ensures
        iso_keyword(3) == "iso_a3"@,
        iso_keyword(4) == "iso_a4"@,
        iso_keyword(5) == "iso_a5"@,
        iso_keyword(6) == "iso_a6"@,
{
    reveal_strlit("iso_a");
    reveal_strlit("iso_a3");
    reveal_strlit("iso_a4");
    reveal_strlit("iso_a5");
    reveal_strlit("iso_a6");
    assert(iso_keyword(3) =~= "iso_a3"@);
    assert(iso_keyword(4) =~= "iso_a4"@);
    assert(iso_keyword(5) =~= "iso_a5"@);
    assert(iso_keyword(6) =~= "iso_a6"@);
}

/// ISO 216: `iso_a4` is 210 × 297 mm, and each of `iso_a3` to `iso_a6` is
/// the one before it halved across its long side.
pub proof fn lemma_iso_a_series(n: int)
    requires
        3 <= n <= 5,
    ensures
        keyword_page(iso_keyword(4)) == (2100u32, 2970u32),
        keyword_page(iso_keyword(n + 1)) == iso_halved(keyword_page(iso_keyword(n))),
{
    lemma_iso_keywords();
    reveal_media_literals();
}

/// The US sizes are their inch sizes: Letter 8½ × 11 in, Legal 8½ × 14 in,
/// Executive 7¼ × 10½ in and the 4 × 6 in index card; so Legal is Letter
/// made 3 in longer.
pub proof fn lemma_us_sizes_in_inches()
    ensures
        keyword_page("na_letter"@) == (quarter_inches(34), quarter_inches(44)),
        keyword_page("na_legal"@) == (quarter_inches(34), quarter_inches(56)),
        keyword_page("na_executive"@) == (quarter_inches(29), quarter_inches(42)),
        keyword_page("na_index-4x6"@) == (quarter_inches(16), quarter_inches(24)),
        keyword_page("na_legal"@).0 == keyword_page("na_letter"@).0,
        keyword_page("na_legal"@).1 == keyword_page("na_letter"@).1 + quarter_inches(12),
{
    reveal_media_literals();
}

/// Each paper keyword names its own sheet, in portrait: two different paper
/// keywords never give the same page, and every page is taller than wide.
pub proof fn lemma_paper_pages_distinct(a: Seq<char>, b: Seq<char>)
    requires
        is_paper_keyword(a),
        is_paper_keyword(b),
    ensures
        a != b ==> keyword_page(a) != keyword_page(b),
        keyword_page(a).0 < keyword_page(a).1,
{
    reveal_media_literals();
}

} // verus!
