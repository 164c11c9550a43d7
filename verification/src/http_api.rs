//! What the HTTP handlers compute: decoding print content, mapping request
//! options to job options, and building response bodies.
use vstd::prelude::*;
use vstd::utf8::encode_utf8;

use base64::engine::general_purpose::STANDARD;
use base64::{DecodeError, Engine};

use crate::errors::{Base64Error, CupsError};
use crate::models::{HttpPrintOptions, JobInfo, JobsResponse, PrintRequest, PrinterInfoResponse};
use crate::print_options::{
    color_of_keyword, format_of_mime, media_of_keyword, orientation_of_keyword, sides_of_keyword,
    ColorMode, DocumentFormat, MediaSize, Orientation, PrintJobOptions, Sides,
};
use crate::printer::{JobDetail, PrinterInfo};

verus! {

// ── Content ────────────────────────────────────────────────────────────────

/// What the standard base64 engine (RFC 4648 alphabet, canonical padding)
/// makes of some input: the decoded bytes, or why decoding failed.
pub uninterp spec fn base64_standard_decode(input: Seq<u8>) -> Result<Seq<u8>, Base64Error>;

/// `base64::Engine::decode` with the standard engine. Trusted: the result,
/// bytes or error, is a function of the input, named `base64_standard_decode`.
#[verifier::external_body]
fn standard_decode(input: &[u8]) -> (r: Result<Vec<u8>, Base64Error>)
    ensures
        match r {
            Ok(v) => base64_standard_decode(input@) == Ok::<Seq<u8>, Base64Error>(v@),
            Err(e) => base64_standard_decode(input@) == Err::<Seq<u8>, Base64Error>(e),
        },
{
    match STANDARD.decode(input) {
        Ok(v) => Ok(v),
        Err(DecodeError::InvalidByte(i, b)) => Err(Base64Error::InvalidByte(i, b)),
        Err(DecodeError::InvalidLength(n)) => Err(Base64Error::InvalidLength(n)),
        Err(DecodeError::InvalidLastSymbol(i, b)) => Err(Base64Error::InvalidLastSymbol(i, b)),
        Err(DecodeError::InvalidPadding) => Err(Base64Error::InvalidPadding),
    }
}

/// Plain text arrives as UTF-8; all other formats must be base64-encoded.
pub fn decode_content(content: &str, format: &DocumentFormat) -> (r: Result<Vec<u8>, CupsError>)
    ensures
        format@ is PlainText ==> (r matches Ok(v) && v@ == encode_utf8(content@)),
        !(format@ is PlainText) ==> match base64_standard_decode(encode_utf8(content@)) {
            Ok(bytes) => r matches Ok(v) && v@ == bytes,
            Err(e) => r matches Err(err) && err == CupsError::Base64(e),
        },
{
    if format.is_text() {
        Ok(vstd::slice::slice_to_vec(content.as_bytes()))
    } else {
        match standard_decode(content.as_bytes()) {
            Ok(v) => Ok(v),
            Err(e) => Err(CupsError::Base64(e)),
        }
    }
}

// ── Options ────────────────────────────────────────────────────────────────

/// How request options become job options: copies pass through, a media
/// keyword always names a size, and sides, color mode and orientation are
/// kept only when their keyword is known.
pub open spec fn options_mapped(http: HttpPrintOptions, o: PrintJobOptions) -> bool {
    &&& o.copies == http.copies
    &&& match http.media {
        Some(s) => o.media matches Some(m) && m@ == media_of_keyword(s@),
        None => o.media is None,
    }
    &&& o.sides == match http.sides {
        Some(s) => sides_of_keyword(s@),
        None => None,
    }
    &&& o.color_mode == match http.color_mode {
        Some(s) => color_of_keyword(s@),
        None => None,
    }
    &&& o.orientation == match http.orientation {
        Some(s) => orientation_of_keyword(s@),
        None => None,
    }
}

pub fn map_options(http: &HttpPrintOptions) -> (r: PrintJobOptions)
    ensures
        options_mapped(*http, r),
{
    PrintJobOptions {
        copies: http.copies,
        media: match &http.media {
            Some(s) => Some(MediaSize::from_keyword(s.as_str())),
            None => None,
        },
        sides: match &http.sides {
            Some(s) => Sides::from_keyword(s.as_str()),
            None => None,
        },
        color_mode: match &http.color_mode {
            Some(s) => ColorMode::from_keyword(s.as_str()),
            None => None,
        },
        orientation: match &http.orientation {
            Some(s) => Orientation::from_keyword(s.as_str()),
            None => None,
        },
    }
}

/// Request options with nothing set.
pub open spec fn no_options(o: PrintJobOptions) -> bool {
    o.copies is None && o.media is None && o.sides is None && o.color_mode is None
        && o.orientation is None
}

/// A print request made ready for CUPS: its format, its decoded bytes and its job options.
pub fn prepare_print_job(body: &PrintRequest) -> (r: Result<
    (DocumentFormat, Vec<u8>, PrintJobOptions),
    CupsError,
>)
    ensures
        format_of_mime(body.format@) is PlainText ==> (r matches Ok(job) && job.1@
            == encode_utf8(body.content@)),
        !(format_of_mime(body.format@) is PlainText) ==> match base64_standard_decode(
            encode_utf8(body.content@),
        ) {
            Ok(bytes) => r matches Ok(job) && job.1@ == bytes,
            Err(e) => r matches Err(err) && err == CupsError::Base64(e),
        },
        r matches Ok(job) ==> job.0@ == format_of_mime(body.format@) && match body.options {
            Some(http) => options_mapped(http, job.2),
            None => no_options(job.2),
        },
{
    let format = DocumentFormat::from_mime(body.format.as_str());
    let data = decode_content(body.content.as_str(), &format)?;
    let options = match &body.options {
        Some(http) => map_options(http),
        None => PrintJobOptions {
            copies: None,
            media: None,
            sides: None,
            color_mode: None,
            orientation: None,
        },
    };
    Ok((format, data, options))
}

// ── Responses ──────────────────────────────────────────────────────────────

/// The body answering a printer query.
pub fn printer_info_response(info: PrinterInfo) -> (r: PrinterInfoResponse)
    ensures
        r.name@ == info.name@,
        r.status@ == info.state@,
        r.jobs == info.queued_jobs,
{
    PrinterInfoResponse { name: info.name, status: info.state, jobs: info.queued_jobs }
}

/// The body answering a job listing: one entry per job, in order.
pub fn jobs_response(jobs: Vec<JobDetail>) -> (r: JobsResponse)
    ensures
        r.jobs@.len() == jobs@.len(),
        forall|i: int|
            0 <= i < jobs@.len() ==> #[trigger] r.jobs@[i].id == jobs@[i].id && r.jobs@[i].name@
                == jobs@[i].name@ && r.jobs@[i].status@ == jobs@[i].state@,
{
    let mut out: Vec<JobInfo> = Vec::new();
    let mut i: usize = 0;
    while i < jobs.len()
        invariant
            i <= jobs@.len(),
            out@.len() == i,
            forall|k: int|
                0 <= k < i ==> #[trigger] out@[k].id == jobs@[k].id && out@[k].name@
                    == jobs@[k].name@ && out@[k].status@ == jobs@[k].state@,
        decreases jobs@.len() - i,
    {
        let j = &jobs[i];
        out.push(JobInfo { id: j.id, name: j.name.clone(), status: j.state.clone() });
        i = i + 1;
    }
    JobsResponse { jobs: out }
}

} // verus!
