use cups_http_gateway::errors::{into_http_error, ipp_status_to_http, Base64Error, CupsError};

#[test]
fn printer_not_found_is_404() {
    let (status, body) = into_http_error(&CupsError::PrinterNotFound("office".to_owned()));
    assert_eq!(status, 404);
    assert_eq!(body.code, 404);
    assert!(!body.ok);
    assert_eq!(body.error, "printer not found: office");
}

#[test]
fn bad_base64_is_400() {
    let (status, body) = into_http_error(&CupsError::Base64(Base64Error::InvalidPadding));
    assert_eq!(status, 400);
    assert_eq!(body.error, "content is not valid base64");
}

#[test]
fn unsupported_format_lists_accepted_ones() {
    let e = CupsError::FormatNotSupported {
        requested: "image/gif".to_owned(),
        supported: vec!["application/pdf".to_owned(), "image/png".to_owned()],
    };
    let (status, body) = into_http_error(&e);
    assert_eq!(status, 400);
    assert_eq!(body.error, "format 'image/gif' not supported by this printer; accepted: application/pdf, image/png");
    assert_eq!(e.message(), "format 'image/gif' not supported; printer accepts: application/pdf, image/png");
}

#[test]
fn internal_errors_are_500_with_their_message() {
    let (status, body) = into_http_error(&CupsError::InvalidUri("invalid uri character".to_owned()));
    assert_eq!(status, 500);
    assert_eq!(body.error, "Invalid URI: invalid uri character");
    let (status, body) = into_http_error(&CupsError::MissingAttribute("job-id"));
    assert_eq!(status, 500);
    assert_eq!(body.error, "Missing attribute: job-id");
    let (status, body) = into_http_error(&CupsError::ConversionError("bad png".to_owned()));
    assert_eq!(status, 500);
    assert_eq!(body.error, "image conversion failed: bad png");
}

#[test]
fn transport_errors_are_502() {
    let (status, body) = into_http_error(&CupsError::Transport("connection refused".to_owned()));
    assert_eq!(status, 502);
    assert_eq!(body.error, "IPP transport error: connection refused");
}

#[test]
fn ipp_status_errors_by_class() {
    assert_eq!(
        ipp_status_to_http("ClientErrorDocumentFormatNotSupported"),
        (400, "printer does not support this document format: ClientErrorDocumentFormatNotSupported".to_owned())
    );
    assert_eq!(
        ipp_status_to_http("ClientErrorAttributeValuesNotSupported"),
        (400, "printer does not support one or more job options: ClientErrorAttributeValuesNotSupported".to_owned())
    );
    assert_eq!(
        ipp_status_to_http("ClientErrorAttributesOrValuesNotSupported"),
        (400, "invalid print request: ClientErrorAttributesOrValuesNotSupported".to_owned())
    );
    assert_eq!(ipp_status_to_http("ServerErrorBusy"), (502, "CUPS error: ServerErrorBusy".to_owned()));
    let (status, body) = into_http_error(&CupsError::IppStatus("ClientErrorNotAuthorized".to_owned()));
    assert_eq!(status, 400);
    assert_eq!(body.error, "invalid print request: ClientErrorNotAuthorized");
}

#[test]
fn error_messages() {
    assert_eq!(CupsError::IppStatus("ServerErrorBusy".to_owned()).message(), "IPP status error: ServerErrorBusy");
    assert_eq!(CupsError::PrinterNotFound("p".to_owned()).message(), "Printer not found: p");
    assert_eq!(CupsError::Base64(Base64Error::InvalidByte(3, 33)).message(), "Base64 decode error: Invalid symbol 33, offset 3.");
    assert_eq!(CupsError::Base64(Base64Error::InvalidLength(5)).message(), "Base64 decode error: Invalid input length: 5");
    assert_eq!(CupsError::Base64(Base64Error::InvalidLastSymbol(2, 66)).message(), "Base64 decode error: Invalid last symbol 66, offset 2.");
    assert_eq!(CupsError::Base64(Base64Error::InvalidPadding).message(), "Base64 decode error: Invalid padding");
}
