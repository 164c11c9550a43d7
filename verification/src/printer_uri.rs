//! Parsed IPP addresses that remember the text they were parsed from.
use vstd::prelude::*;

use ipp::prelude::Uri;

verus! {

#[verifier::external_type_specification]
#[verifier::external_body]
pub struct ExUri(Uri);

/// What `Uri::from_str` reports for a text: `None` when it parses, else the
/// error's message.
pub uninterp spec fn uri_parse_error(text: Seq<char>) -> Option<Seq<char>>;

/// A URI together with the text it was parsed from. Only `parse_uri` makes one.
pub struct PrinterUri {
    uri: Uri,
    text: String,
}

impl PrinterUri {
    /// The text this URI was parsed from.
    pub closed spec fn text_view(&self) -> Seq<char> {
        self.text@
    }

    /// The text this URI was parsed from.
    pub fn text(&self) -> (r: &str)
        ensures
            r@ == self.text_view(),
    {
        self.text.as_str()
    }

    /// The parsed URI.
    pub fn uri(&self) -> &Uri {
        &self.uri
    }
}

/// `<Uri as FromStr>::from_str`. Trusted: whether the text parses, and the
/// message when it does not, are a function of the text, named
/// `uri_parse_error`; a parsed URI is kept together with the very text it was
/// parsed from.
#[verifier::external_body]
pub(crate) fn parse_uri(text: String) -> (r: Result<PrinterUri, String>)
    ensures
        r is Ok <==> uri_parse_error(text@) is None,
        r matches Err(m) ==> uri_parse_error(text@) == Some(m@),
        r matches Ok(u) ==> u.text_view() == text@,
{
    match text.parse::<Uri>() {
        Ok(uri) => Ok(PrinterUri { uri, text }),
        Err(e) => Err(format!("{e}")),
    }
}

} // verus!
