use cups_http_gateway::errors::{Base64Error, CupsError};
use cups_http_gateway::http_api::{
    decode_content, jobs_response, map_options, prepare_print_job, printer_info_response,
};
use cups_http_gateway::models::{HttpPrintOptions, PrintRequest};
use cups_http_gateway::print_options::{ColorMode, DocumentFormat, MediaSize, Orientation, Sides};
use cups_http_gateway::printer::{JobDetail, PrinterInfo};

#[test]
fn plain_text_is_sent_as_utf8() {
    assert_eq!(decode_content("héllo", &DocumentFormat::PlainText).unwrap(), "héllo".as_bytes().to_vec());
}

#[test]
fn other_formats_are_base64_decoded() {
    assert_eq!(decode_content("aGVsbG8=", &DocumentFormat::Pdf).unwrap(), b"hello".to_vec());
    assert_eq!(decode_content("", &DocumentFormat::Png).unwrap(), Vec::<u8>::new());
}

#[test]
fn invalid_base64_is_reported() {
    match decode_content("aGVsbG8", &DocumentFormat::Pdf) {
        Err(CupsError::Base64(Base64Error::InvalidPadding)) => {},
        other => panic!("unexpected {other:?}"),
    }
    assert!(matches!(decode_content("!!!!", &DocumentFormat::Jpeg), Err(CupsError::Base64(_))));
}

#[test]
fn options_map_known_keywords() {
    let http = HttpPrintOptions {
        copies: Some(2),
        media: Some("custom_58x297mm".to_owned()),
        sides: Some("two-sided-short-edge".to_owned()),
        color_mode: Some("grayscale".to_owned()),
        orientation: Some("reverse-landscape".to_owned()),
    };
    let o = map_options(&http);
    assert_eq!(o.copies, Some(2));
    assert!(matches!(o.media, Some(MediaSize::ThermalReceipt58mm)));
    assert_eq!(o.sides, Some(Sides::TwoSidedShortEdge));
    assert_eq!(o.color_mode, Some(ColorMode::Monochrome));
    assert_eq!(o.orientation, Some(Orientation::ReverseLandscape));
}

#[test]
fn options_drop_unknown_keywords_but_keep_custom_media() {
    let http = HttpPrintOptions {
        copies: None,
        media: Some("custom_100x150mm".to_owned()),
        sides: Some("duplex".to_owned()),
        color_mode: Some("sepia".to_owned()),
        orientation: None,
    };
    let o = map_options(&http);
    assert_eq!(o.copies, None);
    assert!(matches!(o.media, Some(MediaSize::Custom(ref s)) if s == "custom_100x150mm"));
    assert_eq!(o.sides, None);
    assert_eq!(o.color_mode, None);
    assert_eq!(o.orientation, None);
    let empty = map_options(&HttpPrintOptions::default());
    assert!(empty.copies.is_none() && empty.media.is_none() && empty.sides.is_none());
}

#[test]
fn print_request_is_prepared() {
    let body = PrintRequest {
        content: "SGVsbG8=".to_owned(),
        format: "image/jpg".to_owned(),
        job_name: Some("photo".to_owned()),
        options: None,
    };
    let (format, data, options) = prepare_print_job(&body).unwrap();
    assert!(matches!(format, DocumentFormat::Jpeg));
    assert_eq!(data, b"Hello".to_vec());
    assert!(options.copies.is_none() && options.media.is_none() && options.orientation.is_none());
}

#[test]
fn print_request_with_bad_content_fails() {
    let body = PrintRequest {
        content: "not base64!".to_owned(),
        format: "application/pdf".to_owned(),
        job_name: None,
        options: Some(HttpPrintOptions { copies: Some(1), ..HttpPrintOptions::default() }),
    };
    assert!(matches!(prepare_print_job(&body), Err(CupsError::Base64(_))));
}

#[test]
fn response_bodies() {
    let r = printer_info_response(PrinterInfo { name: "office".to_owned(), state: "idle".to_owned(), queued_jobs: 2 });
    assert_eq!((r.name.as_str(), r.status.as_str(), r.jobs), ("office", "idle", 2));
    let jobs = jobs_response(vec![
        JobDetail { id: 5, name: "a".to_owned(), state: "completed".to_owned() },
        JobDetail { id: 6, name: "b".to_owned(), state: "pending".to_owned() },
    ]);
    assert_eq!(jobs.jobs.len(), 2);
    assert_eq!((jobs.jobs[1].id, jobs.jobs[1].name.as_str(), jobs.jobs[1].status.as_str()), (6, "b", "pending"));
}
