//! The gateway's errors, their messages, and the HTTP answer each one gets.
use vstd::prelude::*;

use crate::models::ErrorResponse;
use crate::text::{
    concat, contains, contains_text, decimal, joined, owned, push_decimal, push_joined, push_text,
    views,
};

verus! {

/// Why base64 content could not be decoded.
#[derive(Debug, Clone, Copy, PartialEq, Eq)]
pub enum Base64Error {
    /// An invalid byte was found in the input: its offset and value.
    InvalidByte(usize, u8),
    /// The length of the input, as measured in valid base64 symbols, is invalid.
    InvalidLength(usize),
    /// The last non-padding symbol has nonzero bits that would be discarded: its offset and value.
    InvalidLastSymbol(usize, u8),
    /// The padding was absent or incorrect.
    InvalidPadding,
}

/// The text of a base64 decoding error.
pub open spec fn base64_error_text(e: Base64Error) -> Seq<char> {
    match e {
        Base64Error::InvalidByte(index, byte) => "Invalid symbol "@ + decimal(byte as nat)
            + ", offset "@ + decimal(index as nat) + "."@,
        Base64Error::InvalidLength(len) => "Invalid input length: "@ + decimal(len as nat),
        Base64Error::InvalidLastSymbol(index, byte) => "Invalid last symbol "@ + decimal(
            byte as nat,
        ) + ", offset "@ + decimal(index as nat) + "."@,
        Base64Error::InvalidPadding => "Invalid padding"@,
    }
}

/// Errors of the CUPS adapter and of the requests it serves.
#[derive(Debug, Clone)]
pub enum CupsError {
    /// The IPP exchange failed; the transport error's message.
    Transport(String),
    /// CUPS answered with an unsuccessful status; the status code's name.
    IppStatus(String),
    PrinterNotFound(String),
    MissingAttribute(&'static str),
    InvalidUri(String),
    Base64(Base64Error),
    FormatNotSupported { requested: String, supported: Vec<String> },
    ConversionError(String),
}

/// The message of an error.
pub open spec fn error_text(e: CupsError) -> Seq<char> {
    match e {
        CupsError::Transport(m) => "IPP transport error: "@ + m@,
        CupsError::IppStatus(s) => "IPP status error: "@ + s@,
        CupsError::PrinterNotFound(p) => "Printer not found: "@ + p@,
        CupsError::MissingAttribute(a) => "Missing attribute: "@ + a@,
        CupsError::InvalidUri(u) => "Invalid URI: "@ + u@,
        CupsError::Base64(b) => "Base64 decode error: "@ + base64_error_text(b),
        CupsError::FormatNotSupported { requested, supported } => "format '"@ + requested@
            + "' not supported; printer accepts: "@ + joined(views(supported@), ", "@),
        CupsError::ConversionError(m) => "image conversion failed: "@ + m@,
    }
}

fn push_base64_error(out: &mut String, e: &Base64Error)
    ensures
        final(out)@ == old(out)@ + base64_error_text(*e),
{
    match e {
        Base64Error::InvalidByte(index, byte) => {
            push_text(out, "Invalid symbol ");
            push_decimal(out, *byte as u64);
            push_text(out, ", offset ");
            push_decimal(out, *index as u64);
            push_text(out, ".");
        },
        Base64Error::InvalidLength(len) => {
            push_text(out, "Invalid input length: ");
            push_decimal(out, *len as u64);
        },
        Base64Error::InvalidLastSymbol(index, byte) => {
            push_text(out, "Invalid last symbol ");
            push_decimal(out, *byte as u64);
            push_text(out, ", offset ");
            push_decimal(out, *index as u64);
            push_text(out, ".");
        },
        Base64Error::InvalidPadding => {
            push_text(out, "Invalid padding");
        },
    }
    assert(out@ =~= old(out)@ + base64_error_text(*e));
}

impl CupsError {
    /// The error's message, as its `Display` renders it.
    pub fn message(&self) -> (r: String)
        ensures
            r@ == error_text(*self),
    {
        match self {
            CupsError::Transport(m) => concat("IPP transport error: ", m.as_str()),
            CupsError::IppStatus(s) => concat("IPP status error: ", s.as_str()),
            CupsError::PrinterNotFound(p) => concat("Printer not found: ", p.as_str()),
            CupsError::MissingAttribute(a) => concat("Missing attribute: ", a),
            CupsError::InvalidUri(u) => concat("Invalid URI: ", u.as_str()),
            CupsError::Base64(b) => {
                let mut out = owned("Base64 decode error: ");
                push_base64_error(&mut out, b);
                out
            },
            CupsError::FormatNotSupported { requested, supported } => {
                let mut out = concat("format '", requested.as_str());
                push_text(&mut out, "' not supported; printer accepts: ");
                push_joined(&mut out, supported, ", ");
                assert(out@ =~= error_text(*self));
                out
            },
            CupsError::ConversionError(m) => concat("image conversion failed: ", m.as_str()),
        }
    }
}

// ── HTTP answers ───────────────────────────────────────────────────────────

/// The HTTP status and message for an unsuccessful IPP status name:
/// client errors are the caller's fault (400), anything else is CUPS's (502).
pub open spec fn ipp_status_answer(raw: Seq<char>) -> (u16, Seq<char>) {
    if contains_text(raw, "DocumentFormatNotSupported"@) {
        (400, "printer does not support this document format: "@ + raw)
    } else if contains_text(raw, "AttributesNotSupported"@) || contains_text(
        raw,
        "AttributeValuesNotSupported"@,
    ) {
        (400, "printer does not support one or more job options: "@ + raw)
    } else if contains_text(raw, "ClientError"@) {
        (400, "invalid print request: "@ + raw)
    } else {
        (502, "CUPS error: "@ + raw)
    }
}

/// `ClientError` IPP codes → 400; everything else → 502.
pub fn ipp_status_to_http(raw: &str) -> (r: (u16, String))
    ensures
        r.0 == ipp_status_answer(raw@).0,
        r.1@ == ipp_status_answer(raw@).1,
{
    if contains(raw, "DocumentFormatNotSupported") {
        return (400, concat("printer does not support this document format: ", raw));
    }
    if contains(raw, "AttributesNotSupported") || contains(raw, "AttributeValuesNotSupported") {
        return (400, concat("printer does not support one or more job options: ", raw));
    }
    if contains(raw, "ClientError") {
        return (400, concat("invalid print request: ", raw));
    }
    (502, concat("CUPS error: ", raw))
}

/// An unsuccessful IPP status is the caller's fault (400) exactly when its
/// name mentions a client error or an unsupported format or attribute;
/// otherwise CUPS's (502).
pub proof fn lemma_ipp_status_class(raw: Seq<char>)
    ensures
        ipp_status_answer(raw).0 == 400 <==> (contains_text(raw, "ClientError"@) || contains_text(
            raw,
            "DocumentFormatNotSupported"@,
        ) || contains_text(raw, "AttributesNotSupported"@) || contains_text(
            raw,
            "AttributeValuesNotSupported"@,
        )),
        ipp_status_answer(raw).0 == 400 || ipp_status_answer(raw).0 == 502,
{
}

/// The HTTP status and message for an error.
pub open spec fn http_answer(e: CupsError) -> (u16, Seq<char>) {
    match e {
        CupsError::PrinterNotFound(name) => (404, "printer not found: "@ + name@),
        CupsError::Base64(_) => (400, "content is not valid base64"@),
        CupsError::FormatNotSupported { requested, supported } => (
            400,
            "format '"@ + requested@ + "' not supported by this printer; accepted: "@ + joined(
                views(supported@),
                ", "@,
            ),
        ),
        CupsError::IppStatus(raw) => ipp_status_answer(raw@),
        CupsError::InvalidUri(_) => (500, error_text(e)),
        CupsError::MissingAttribute(_) => (500, error_text(e)),
        CupsError::Transport(_) => (502, error_text(e)),
        CupsError::ConversionError(_) => (500, error_text(e)),
    }
}

/// Maps a [`CupsError`] to an HTTP status code and JSON error body.
pub fn into_http_error(e: &CupsError) -> (r: (u16, ErrorResponse))
    ensures
        r.0 == http_answer(*e).0,
        r.1.error@ == http_answer(*e).1,
        r.1.ok == false,
        r.1.code == r.0,
{
    let (http_status, message) = match e {
        CupsError::PrinterNotFound(name) => (404u16, concat("printer not found: ", name.as_str())),
        CupsError::Base64(_) => (400u16, owned("content is not valid base64")),
        CupsError::FormatNotSupported { requested, supported } => {
            let mut out = concat("format '", requested.as_str());
            push_text(&mut out, "' not supported by this printer; accepted: ");
            push_joined(&mut out, supported, ", ");
            assert(out@ =~= http_answer(*e).1);
            (400u16, out)
        },
        CupsError::IppStatus(raw) => ipp_status_to_http(raw.as_str()),
        CupsError::InvalidUri(_) | CupsError::MissingAttribute(_) => (500u16, e.message()),
        CupsError::Transport(_) => (502u16, e.message()),
        CupsError::ConversionError(_) => (500u16, e.message()),
    };
    (http_status, ErrorResponse { ok: false, error: message, code: http_status })
}

/// Every error is answered with 400, 404, 500 or 502.
pub proof fn lemma_http_status_range(e: CupsError)
    ensures
        http_answer(e).0 == 400 || http_answer(e).0 == 404 || http_answer(e).0 == 500
            || http_answer(e).0 == 502,
{
}

} // verus!
