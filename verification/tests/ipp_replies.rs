use cups_http_gateway::cups_client::{
    assert_success, capability_attribute_names, get_jobs_attributes, info_attribute_names,
    parse_jobs, parse_print_job_reply, parse_printer_capabilities, parse_printer_info,
    parse_printers, print_job_attributes,
};
use cups_http_gateway::errors::CupsError;
use cups_http_gateway::ipp_model::{
    ipp_keyword, ipp_keywords, job_state_str, printer_state_str, DelimiterTag, IppAttribute,
    IppAttributeGroup, IppResponse, IppValue,
};
use cups_http_gateway::print_options::{
    ColorMode, DocumentFormat, MediaSize, Orientation, PrintJobOptions, Sides,
};

fn attr(name: &str, value: IppValue) -> IppAttribute {
    IppAttribute { name: name.to_owned(), value }
}

fn kw(s: &str) -> IppValue {
    IppValue::Keyword(s.to_owned())
}

fn group(tag: DelimiterTag, attributes: Vec<IppAttribute>) -> IppAttributeGroup {
    IppAttributeGroup { tag, attributes }
}

fn reply(status_code: u16, status_name: &str, groups: Vec<IppAttributeGroup>) -> IppResponse {
    IppResponse { status_code, status_name: status_name.to_owned(), groups }
}

#[test]
fn keyword_of_text_values_and_debug_of_others() {
    assert_eq!(ipp_keyword(&kw("iso_a4")), "iso_a4");
    assert_eq!(ipp_keyword(&IppValue::MimeMediaType("image/png".to_owned())), "image/png");
    assert_eq!(ipp_keyword(&IppValue::NameWithoutLanguage("office".to_owned())), "office");
    assert_eq!(ipp_keyword(&IppValue::TextWithoutLanguage("HP LaserJet".to_owned())), "HP LaserJet");
    assert_eq!(ipp_keyword(&IppValue::Integer(5)), "Integer(5)");
    assert_eq!(ipp_keyword(&IppValue::Enum(-3)), "Enum(-3)");
    assert_eq!(ipp_keyword(&IppValue::Other("Boolean(true)".to_owned())), "Boolean(true)");
    assert_eq!(
        ipp_keyword(&IppValue::Array(vec![kw("a\"b"), IppValue::Integer(2)])),
        "Array([Keyword(\"a\\\"b\"), Integer(2)])"
    );
}

#[test]
fn keywords_of_arrays_and_scalars() {
    assert_eq!(ipp_keywords(&IppValue::Array(vec![kw("one-sided"), kw("two-sided-long-edge")])),
        vec!["one-sided".to_owned(), "two-sided-long-edge".to_owned()]);
    assert_eq!(ipp_keywords(&kw("color")), vec!["color".to_owned()]);
    assert_eq!(ipp_keywords(&IppValue::Array(vec![])), Vec::<String>::new());
}

#[test]
fn printer_and_job_state_names() {
    assert_eq!(printer_state_str(&IppValue::Enum(3)), "idle");
    assert_eq!(printer_state_str(&IppValue::Enum(4)), "processing");
    assert_eq!(printer_state_str(&IppValue::Enum(5)), "stopped");
    assert_eq!(printer_state_str(&IppValue::Enum(9)), "unknown(9)");
    assert_eq!(printer_state_str(&IppValue::Integer(3)), "unknown");
    assert_eq!(job_state_str(&IppValue::Enum(3)), "pending");
    assert_eq!(job_state_str(&IppValue::Enum(4)), "pending-held");
    assert_eq!(job_state_str(&IppValue::Enum(5)), "processing");
    assert_eq!(job_state_str(&IppValue::Enum(6)), "processing-stopped");
    assert_eq!(job_state_str(&IppValue::Enum(7)), "canceled");
    assert_eq!(job_state_str(&IppValue::Enum(8)), "aborted");
    assert_eq!(job_state_str(&IppValue::Enum(9)), "completed");
    assert_eq!(job_state_str(&IppValue::Enum(-1)), "unknown(-1)");
    assert_eq!(job_state_str(&kw("pending")), "unknown");
}

#[test]
fn successful_statuses_are_0_to_2() {
    for code in [0u16, 1, 2] {
        assert!(assert_success(&reply(code, "SuccessfulOk", vec![])).is_ok());
    }
    match assert_success(&reply(0x0500, "ServerErrorInternalError", vec![])) {
        Err(CupsError::IppStatus(s)) => assert_eq!(s, "ServerErrorInternalError"),
        other => panic!("unexpected {other:?}"),
    }
}

#[test]
fn printer_names_from_printer_groups() {
    let r = reply(0, "SuccessfulOk", vec![
        group(DelimiterTag::OperationAttributes, vec![attr("printer-name", IppValue::NameWithoutLanguage("ignored".to_owned()))]),
        group(DelimiterTag::PrinterAttributes, vec![attr("printer-name", IppValue::NameWithoutLanguage("office".to_owned()))]),
        group(DelimiterTag::PrinterAttributes, vec![attr("printer-name", kw("not-a-name"))]),
        group(DelimiterTag::PrinterAttributes, vec![attr("printer-state", IppValue::Enum(3))]),
        group(DelimiterTag::PrinterAttributes, vec![attr("printer-name", IppValue::NameWithoutLanguage("receipt".to_owned()))]),
    ]);
    assert_eq!(parse_printers(&r).unwrap(), vec!["office".to_owned(), "receipt".to_owned()]);
}

#[test]
fn printer_list_fails_on_error_status() {
    assert!(matches!(parse_printers(&reply(0x0400, "ClientErrorBadRequest", vec![])), Err(CupsError::IppStatus(_))));
}

#[test]
fn capabilities_from_reply() {
    let r = reply(0, "SuccessfulOk", vec![group(DelimiterTag::PrinterAttributes, vec![
        attr("printer-make-and-model", IppValue::TextWithoutLanguage("Epson TM-T20".to_owned())),
        attr("printer-state", IppValue::Enum(4)),
        attr("printer-state-reasons", kw("none")),
        attr("document-format-supported", IppValue::Array(vec![
            IppValue::MimeMediaType("application/pdf".to_owned()),
            IppValue::MimeMediaType("image/png".to_owned()),
        ])),
        attr("media-supported", IppValue::Array(vec![kw("custom_80x297mm")])),
        attr("media-default", kw("custom_80x297mm")),
        attr("sides-default", kw("one-sided")),
        attr("print-color-mode-default", kw("monochrome")),
    ])]);
    let c = parse_printer_capabilities("receipt", &r).unwrap();
    assert_eq!(c.make_and_model, "Epson TM-T20");
    assert_eq!(c.state, "processing");
    assert_eq!(c.state_reasons, vec!["none".to_owned()]);
    assert_eq!(c.formats_supported, vec!["application/pdf".to_owned(), "image/png".to_owned()]);
    assert_eq!(c.media_supported, vec!["custom_80x297mm".to_owned()]);
    assert_eq!(c.media_default, "custom_80x297mm");
    assert!(c.media_ready.is_empty());
    assert!(c.sides_supported.is_empty());
    assert_eq!(c.sides_default, "one-sided");
    assert!(c.color_modes_supported.is_empty());
    assert_eq!(c.color_mode_default, "monochrome");
}

#[test]
fn capabilities_defaults_and_later_groups_win() {
    let r = reply(0, "SuccessfulOk", vec![
        group(DelimiterTag::PrinterAttributes, vec![attr("media-default", kw("iso_a4"))]),
        group(DelimiterTag::JobAttributes, vec![attr("media-default", kw("iso_a5"))]),
        group(DelimiterTag::PrinterAttributes, vec![attr("media-default", kw("na_letter"))]),
    ]);
    let c = parse_printer_capabilities("p", &r).unwrap();
    assert_eq!(c.media_default, "na_letter");
    assert_eq!(c.state, "unknown");
    assert_eq!(c.make_and_model, "");
}

#[test]
fn not_found_reply_names_the_printer() {
    let r = reply(0x0406, "ClientErrorNotFound", vec![]);
    match parse_printer_capabilities("ghost", &r) {
        Err(CupsError::PrinterNotFound(p)) => assert_eq!(p, "ghost"),
        other => panic!("unexpected {other:?}"),
    }
    assert!(matches!(parse_printer_info("ghost", &r), Err(CupsError::PrinterNotFound(_))));
    assert!(matches!(parse_print_job_reply("ghost", &r), Err(CupsError::PrinterNotFound(_))));
    assert!(matches!(parse_jobs("ghost", &r), Err(CupsError::PrinterNotFound(_))));
}

#[test]
fn printer_info_from_reply() {
    let r = reply(0, "SuccessfulOk", vec![group(DelimiterTag::PrinterAttributes, vec![
        attr("printer-state", IppValue::Enum(5)),
        attr("queued-job-count", IppValue::Integer(7)),
    ])]);
    let info = parse_printer_info("office", &r).unwrap();
    assert_eq!(info.name, "office");
    assert_eq!(info.state, "stopped");
    assert_eq!(info.queued_jobs, 7);
}

#[test]
fn printer_info_negative_or_missing_count_is_zero() {
    let r = reply(0, "SuccessfulOk", vec![group(DelimiterTag::PrinterAttributes, vec![
        attr("queued-job-count", IppValue::Integer(-2)),
    ])]);
    let info = parse_printer_info("office", &r).unwrap();
    assert_eq!(info.queued_jobs, 0);
    assert_eq!(info.state, "unknown");
    let r = reply(0, "SuccessfulOk", vec![
        group(DelimiterTag::PrinterAttributes, vec![attr("queued-job-count", IppValue::Integer(4))]),
        group(DelimiterTag::PrinterAttributes, vec![attr("queued-job-count", kw("many"))]),
    ]);
    assert_eq!(parse_printer_info("office", &r).unwrap().queued_jobs, 4);
}

#[test]
fn job_id_is_the_first_integer_in_a_job_group() {
    let r = reply(0, "SuccessfulOk", vec![
        group(DelimiterTag::OperationAttributes, vec![attr("job-id", IppValue::Integer(1))]),
        group(DelimiterTag::JobAttributes, vec![attr("job-id", kw("x"))]),
        group(DelimiterTag::JobAttributes, vec![attr("job-id", IppValue::Integer(42))]),
        group(DelimiterTag::JobAttributes, vec![attr("job-id", IppValue::Integer(43))]),
    ]);
    assert_eq!(parse_print_job_reply("p", &r).unwrap(), 42);
}

#[test]
fn missing_job_id_is_an_error() {
    let r = reply(0, "SuccessfulOk", vec![group(DelimiterTag::JobAttributes, vec![])]);
    match parse_print_job_reply("p", &r) {
        Err(CupsError::MissingAttribute(a)) => assert_eq!(a, "job-id"),
        other => panic!("unexpected {other:?}"),
    }
}

#[test]
fn jobs_from_reply() {
    let r = reply(0, "SuccessfulOk", vec![
        group(DelimiterTag::JobAttributes, vec![
            attr("job-id", IppValue::Integer(12)),
            attr("job-name", IppValue::NameWithoutLanguage("receipt".to_owned())),
            attr("job-state", IppValue::Enum(9)),
        ]),
        group(DelimiterTag::PrinterAttributes, vec![attr("job-id", IppValue::Integer(99))]),
        group(DelimiterTag::JobAttributes, vec![
            attr("job-name", IppValue::TextWithoutLanguage("label".to_owned())),
        ]),
        group(DelimiterTag::JobAttributes, vec![attr("job-name", kw("odd"))]),
    ]);
    let jobs = parse_jobs("p", &r).unwrap();
    assert_eq!(jobs.len(), 3);
    assert_eq!((jobs[0].id, jobs[0].name.as_str(), jobs[0].state.as_str()), (12, "receipt", "completed"));
    assert_eq!((jobs[1].id, jobs[1].name.as_str(), jobs[1].state.as_str()), (0, "label", "unknown"));
    assert_eq!((jobs[2].id, jobs[2].name.as_str(), jobs[2].state.as_str()), (0, "", "unknown"));
}

fn plan_names(plan: &[(DelimiterTag, IppAttribute)]) -> Vec<String> {
    plan.iter().map(|(_, a)| a.name.clone()).collect()
}

#[test]
fn print_job_attributes_for_pdf_with_options() {
    let options = PrintJobOptions {
        copies: Some(3),
        media: Some(MediaSize::A4),
        sides: Some(Sides::TwoSidedLongEdge),
        color_mode: Some(ColorMode::Monochrome),
        orientation: Some(Orientation::Landscape),
    };
    let plan = print_job_attributes(&DocumentFormat::Pdf, &options);
    assert_eq!(plan_names(&plan), vec![
        "document-format", "copies", "media", "sides", "print-color-mode", "orientation-requested",
        "media-top-margin", "media-left-margin", "media-right-margin", "media-bottom-margin",
    ]);
    assert_eq!(plan[0].0, DelimiterTag::OperationAttributes);
    assert!(matches!(&plan[0].1.value, IppValue::MimeMediaType(m) if m == "application/pdf"));
    assert!(plan[1..].iter().all(|(t, _)| *t == DelimiterTag::JobAttributes));
    assert!(matches!(plan[1].1.value, IppValue::Integer(3)));
    assert!(matches!(&plan[2].1.value, IppValue::Keyword(k) if k == "iso_a4"));
    assert!(matches!(&plan[3].1.value, IppValue::Keyword(k) if k == "two-sided-long-edge"));
    assert!(matches!(&plan[4].1.value, IppValue::Keyword(k) if k == "monochrome"));
    assert!(matches!(plan[5].1.value, IppValue::Enum(4)));
    assert!(matches!(plan[6].1.value, IppValue::Integer(0)));
}

#[test]
fn print_job_attributes_for_images_and_raw() {
    let plan = print_job_attributes(&DocumentFormat::Png, &PrintJobOptions::default());
    assert_eq!(plan_names(&plan), vec!["document-format", "print-scaling"]);
    assert!(matches!(&plan[1].1.value, IppValue::Keyword(k) if k == "none"));
    let plan = print_job_attributes(&DocumentFormat::Raw("application/vnd.escpos".to_owned()), &PrintJobOptions::default());
    assert_eq!(plan_names(&plan), vec!["document-format"]);
    assert!(matches!(&plan[0].1.value, IppValue::MimeMediaType(m) if m == "application/vnd.escpos"));
}

#[test]
fn copies_beyond_i32_are_capped() {
    let options = PrintJobOptions { copies: Some(u32::MAX), ..PrintJobOptions::default() };
    let plan = print_job_attributes(&DocumentFormat::PlainText, &options);
    assert!(matches!(plan[1].1.value, IppValue::Integer(i32::MAX)));
}

#[test]
fn request_attribute_lists() {
    assert_eq!(capability_attribute_names().len(), 11);
    assert_eq!(capability_attribute_names()[0], "printer-make-and-model");
    assert_eq!(info_attribute_names(), vec!["printer-name", "printer-state", "queued-job-count"]);
    let jobs = get_jobs_attributes();
    assert_eq!(plan_names(&jobs), vec!["requested-attributes", "which-jobs"]);
    match &jobs[0].1.value {
        IppValue::Array(items) => assert_eq!(items.len(), 3),
        other => panic!("unexpected {other:?}"),
    }
}
