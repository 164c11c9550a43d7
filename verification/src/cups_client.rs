//! The CUPS adapter's logic: where requests go, what they carry, and what
//! CUPS's replies mean. Sending and receiving is the caller's part.
use vstd::prelude::*;

use crate::errors::CupsError;
use crate::printer_uri::{parse_uri, uri_parse_error, PrinterUri};
use crate::ipp_model::{
    find_attribute, groups_view, ipp_keyword, ipp_keywords, job_state_str, job_state_text,
    keyword_text, keyword_texts, last_value, lookup, printer_state_str, printer_state_text,
    status_is_success, DelimiterTag, GroupView, IppAttribute, IppAttributeGroup, IppResponse,
    IppValue, IppValueView, STATUS_NOT_FOUND,
};
use crate::print_options::{
    color_keyword, media_keyword, mime_of, orientation_enum, sides_keyword, DocumentFormat,
    DocumentFormatView, PrintJobOptions,
};
use crate::printer::{CapabilitiesView, JobDetail, PrinterCapabilities, PrinterInfo};
use crate::text::{decimal, owned, push_decimal, push_text, views};

verus! {

// ── Addresses ──────────────────────────────────────────────────────────────

/// A CUPS server reached over IPP-over-HTTP.
#[derive(Clone)]
pub struct CupsClient {
    host: String,
    port: u16,
}

/// `http://host:port` followed by `path`.
pub open spec fn server_uri_text(host: Seq<char>, port: u16, path: Seq<char>) -> Seq<char> {
    "http://"@ + host + ":"@ + decimal(port as nat) + path
}

impl CupsClient {
    /// The server's host name.
    pub closed spec fn host_text(&self) -> Seq<char> {
        self.host@
    }

    /// The server's port.
    pub closed spec fn port_number(&self) -> u16 {
        self.port
    }

    pub fn new(host: &str, port: u16) -> (r: Self)
        ensures
            r.host_text() == host@,
            r.port_number() == port,
    {
        CupsClient { host: owned(host), port }
    }

    fn server_uri(&self, path: &str) -> (r: String)
        ensures
            r@ == server_uri_text(self.host_text(), self.port_number(), path@),
    {
        let mut s = owned("http://");
        push_text(&mut s, self.host.as_str());
        push_text(&mut s, ":");
        push_decimal(&mut s, self.port as u64);
        push_text(&mut s, path);
        assert(s@ =~= server_uri_text(self.host_text(), self.port_number(), path@));
        s
    }

    /// The text of a printer's URI: `http://host:port/printers/name`.
    /// (The ipp crate speaks IPP-over-HTTP, not HTTPS.)
    pub fn printer_uri_text(&self, printer: &str) -> (r: String)
        ensures
            r@ == server_uri_text(self.host_text(), self.port_number(), "/printers/"@ + printer@),
    {
        let path = crate::text::concat("/printers/", printer);
        self.server_uri(path.as_str())
    }

    /// The text of the server's root URI: `http://host:port/`.
    pub fn root_uri_text(&self) -> (r: String)
        ensures
            r@ == server_uri_text(self.host_text(), self.port_number(), "/"@),
    {
        self.server_uri("/")
    }

    /// A printer's URI, or `InvalidUri` with the parser's message.
    pub fn printer_uri(&self, printer: &str) -> (r: Result<PrinterUri, CupsError>)
        ensures
            r matches Ok(u) ==> u.text_view() == server_uri_text(
                self.host_text(),
                self.port_number(),
                "/printers/"@ + printer@,
            ),
            r is Ok <==> uri_parse_error(
                server_uri_text(self.host_text(), self.port_number(), "/printers/"@ + printer@),
            ) is None,
            r matches Err(e) ==> e matches CupsError::InvalidUri(m) && uri_parse_error(
                server_uri_text(self.host_text(), self.port_number(), "/printers/"@ + printer@),
            ) == Some(m@),
    {
        let text = self.printer_uri_text(printer);
        match parse_uri(text) {
            Ok(u) => Ok(u),
            Err(m) => Err(CupsError::InvalidUri(m)),
        }
    }

    /// The server's root URI, or `InvalidUri` with the parser's message.
    pub fn root_uri(&self) -> (r: Result<PrinterUri, CupsError>)
        ensures
            r matches Ok(u) ==> u.text_view() == server_uri_text(
                self.host_text(),
                self.port_number(),
                "/"@,
            ),
            r is Ok <==> uri_parse_error(
                server_uri_text(self.host_text(), self.port_number(), "/"@),
            ) is None,
            r matches Err(e) ==> e matches CupsError::InvalidUri(m) && uri_parse_error(
                server_uri_text(self.host_text(), self.port_number(), "/"@),
            ) == Some(m@),
    {
        let text = self.root_uri_text();
        match parse_uri(text) {
            Ok(u) => Ok(u),
            Err(m) => Err(CupsError::InvalidUri(m)),
        }
    }
}

// ── Reply status ───────────────────────────────────────────────────────────

/// Succeeds when the reply's status is one of the successful ones; otherwise
/// `IppStatus` with the status code's name.
pub fn assert_success(resp: &IppResponse) -> (r: Result<(), CupsError>)
    ensures
        r is Ok <==> status_is_success(resp.status_code),
        r matches Err(e) ==> e matches CupsError::IppStatus(s) && s@ == resp.status_name@,
{
    if resp.status_code <= 2 {
        Ok(())
    } else {
        Err(CupsError::IppStatus(resp.status_name.clone()))
    }
}

/// What a reply about one printer says before its attributes are read:
/// `client-error-not-found` is `PrinterNotFound`, any other failure is `IppStatus`.
pub open spec fn reply_accepted(printer: Seq<char>, resp: IppResponse, r: Result<(), CupsError>) -> bool {
    &&& resp.status_code == STATUS_NOT_FOUND ==> (r matches Err(e) && e matches CupsError::PrinterNotFound(p) && p@ == printer)
    &&& resp.status_code != STATUS_NOT_FOUND && !status_is_success(resp.status_code) ==> (r matches Err(e) && e matches CupsError::IppStatus(s) && s@ == resp.status_name@)
    &&& r is Ok <==> status_is_success(resp.status_code)
}

fn check_printer_reply(printer: &str, resp: &IppResponse) -> (r: Result<(), CupsError>)
    ensures
        reply_accepted(printer@, *resp, r),
{
    if resp.status_code == STATUS_NOT_FOUND {
        return Err(CupsError::PrinterNotFound(owned(printer)));
    }
    assert_success(resp)
}

// ── get_printers ───────────────────────────────────────────────────────────

/// The `printer-name` of each printer-attributes group that has one, in order.
pub open spec fn printer_names(groups: Seq<GroupView>) -> Seq<Seq<char>>
    decreases groups.len(),
{
    if groups.len() == 0 {
        Seq::empty()
    } else {
        let rest = printer_names(groups.drop_last());
        let g = groups.last();
        if g.0 == DelimiterTag::PrinterAttributes {
            match lookup(g.1, "printer-name"@) {
                Some(IppValueView::NameWithoutLanguage(n)) => rest.push(n),
                _ => rest,
            }
        } else {
            rest
        }
    }
}

/// The printer names in a CUPS-Get-Printers reply.
pub fn parse_printers(resp: &IppResponse) -> (r: Result<Vec<String>, CupsError>)
    ensures
        r is Ok <==> status_is_success(resp.status_code),
        r matches Err(e) ==> e matches CupsError::IppStatus(s) && s@ == resp.status_name@,
        r matches Ok(names) ==> views(names@) == printer_names(groups_view(resp.groups@)),
{
    assert_success(resp)?;
    let ghost gs = groups_view(resp.groups@);
    let mut names: Vec<String> = Vec::new();
    let mut i: usize = 0;
    while i < resp.groups.len()
        invariant
            gs == groups_view(resp.groups@),
            i <= gs.len(),
            views(names@) == printer_names(gs.take(i as int)),
        decreases gs.len() - i,
    {
        let g = &resp.groups[i];
        assert(gs.take(i + 1).drop_last() =~= gs.take(i as int));
        assert(gs.take(i + 1).last() == g@);
        if g.tag == DelimiterTag::PrinterAttributes {
            match find_attribute(g, "printer-name") {
                Some(IppValue::NameWithoutLanguage(name)) => {
                    names.push(name.clone());
                    assert(views(names@) =~= printer_names(gs.take(i + 1)));
                },
                _ => {},
            }
        }
        i = i + 1;
    }
    assert(gs.take(gs.len() as int) =~= gs);
    Ok(names)
}

// ── get_printer_capabilities ───────────────────────────────────────────────

/// The text of a printer attribute, or `default` when no printer group has it.
pub open spec fn text_field(groups: Seq<GroupView>, name: Seq<char>, default: Seq<char>) -> Seq<char> {
    match last_value(groups, DelimiterTag::PrinterAttributes, name) {
        Some(v) => keyword_text(v),
        None => default,
    }
}

/// The texts of a multi-valued printer attribute, or none when no printer group has it.
pub open spec fn list_field(groups: Seq<GroupView>, name: Seq<char>) -> Seq<Seq<char>> {
    match last_value(groups, DelimiterTag::PrinterAttributes, name) {
        Some(v) => keyword_texts(v),
        None => Seq::empty(),
    }
}

/// The printer state named by the last `printer-state`, or `unknown`.
pub open spec fn state_field(groups: Seq<GroupView>) -> Seq<char> {
    match last_value(groups, DelimiterTag::PrinterAttributes, "printer-state"@) {
        Some(v) => printer_state_text(v),
        None => "unknown"@,
    }
}

/// The capabilities described by the printer-attributes groups of a reply;
/// where several groups give an attribute, the last one counts.
pub open spec fn capabilities_of(groups: Seq<GroupView>) -> CapabilitiesView {
    CapabilitiesView {
        make_and_model: text_field(groups, "printer-make-and-model"@, Seq::empty()),
        state: state_field(groups),
        state_reasons: list_field(groups, "printer-state-reasons"@),
        formats_supported: list_field(groups, "document-format-supported"@),
        media_supported: list_field(groups, "media-supported"@),
        media_default: text_field(groups, "media-default"@, Seq::empty()),
        media_ready: list_field(groups, "media-ready"@),
        sides_supported: list_field(groups, "sides-supported"@),
        sides_default: text_field(groups, "sides-default"@, Seq::empty()),
        color_modes_supported: list_field(groups, "print-color-mode-supported"@),
        color_mode_default: text_field(groups, "print-color-mode-default"@, Seq::empty()),
    }
}

fn read_text_field(groups: &Vec<IppAttributeGroup>, name: &str) -> (r: String)
    ensures
        r@ == text_field(groups_view(groups@), name@, Seq::empty()),
{
    match crate::ipp_model::find_last_value(groups, DelimiterTag::PrinterAttributes, name) {
        Some(v) => ipp_keyword(v),
        None => String::new(),
    }
}

fn read_list_field(groups: &Vec<IppAttributeGroup>, name: &str) -> (r: Vec<String>)
    ensures
        views(r@) == list_field(groups_view(groups@), name@),
{
    match crate::ipp_model::find_last_value(groups, DelimiterTag::PrinterAttributes, name) {
        Some(v) => ipp_keywords(v),
        None => {
            let out: Vec<String> = Vec::new();
            assert(views(out@) =~= Seq::<Seq<char>>::empty());
            out
        },
    }
}

/// The attributes asked for in a capabilities request.
pub fn capability_attribute_names() -> (r: Vec<&'static str>)
    ensures
        r@.map_values(|s: &str| s@) == seq![
            "printer-make-and-model"@,
            "printer-state"@,
            "printer-state-reasons"@,
            "document-format-supported"@,
            "media-supported"@,
            "media-default"@,
            "media-ready"@,
            "sides-supported"@,
            "sides-default"@,
            "print-color-mode-supported"@,
            "print-color-mode-default"@,
        ],
{
    let r = vec![
        "printer-make-and-model",
        "printer-state",
        "printer-state-reasons",
        "document-format-supported",
        "media-supported",
        "media-default",
        "media-ready",
        "sides-supported",
        "sides-default",
        "print-color-mode-supported",
        "print-color-mode-default",
    ];
    assert(r@.map_values(|s: &str| s@) =~= seq![
        "printer-make-and-model"@,
        "printer-state"@,
        "printer-state-reasons"@,
        "document-format-supported"@,
        "media-supported"@,
        "media-default"@,
        "media-ready"@,
        "sides-supported"@,
        "sides-default"@,
        "print-color-mode-supported"@,
        "print-color-mode-default"@,
    ]);
    r
}

/// A printer's capabilities from a Get-Printer-Attributes reply.
pub fn parse_printer_capabilities(printer: &str, resp: &IppResponse) -> (r: Result<
    PrinterCapabilities,
    CupsError,
>)
    ensures
        reply_accepted(printer@, *resp, match r {
            Ok(_) => Ok(()),
            Err(e) => Err(e),
        }),
        r matches Ok(c) ==> c@ == capabilities_of(groups_view(resp.groups@)),
{
    check_printer_reply(printer, resp)?;
    let groups = &resp.groups;
    let state = match crate::ipp_model::find_last_value(
        groups,
        DelimiterTag::PrinterAttributes,
        "printer-state",
    ) {
        Some(v) => printer_state_str(v),
        None => owned("unknown"),
    };
    let caps = PrinterCapabilities {
        make_and_model: read_text_field(groups, "printer-make-and-model"),
        state,
        state_reasons: read_list_field(groups, "printer-state-reasons"),
        formats_supported: read_list_field(groups, "document-format-supported"),
        media_supported: read_list_field(groups, "media-supported"),
        media_default: read_text_field(groups, "media-default"),
        media_ready: read_list_field(groups, "media-ready"),
        sides_supported: read_list_field(groups, "sides-supported"),
        sides_default: read_text_field(groups, "sides-default"),
        color_modes_supported: read_list_field(groups, "print-color-mode-supported"),
        color_mode_default: read_text_field(groups, "print-color-mode-default"),
    };
    Ok(caps)
}

/// A list of keywords as an IPP array value.
pub open spec fn keyword_array(ks: Seq<Seq<char>>) -> IppValueView {
    IppValueView::Array(ks.map_values(|k: Seq<char>| IppValueView::Keyword(k)))
}

/// The texts of a keyword array are its keywords.
proof fn lemma_keyword_array_texts(ks: Seq<Seq<char>>)
    ensures
        keyword_texts(keyword_array(ks)) == ks,
{
    assert(keyword_texts(keyword_array(ks)) =~= ks);
}

/// An attribute that no group holds has no last value.
proof fn lemma_last_value_absent(groups: Seq<GroupView>, tag: DelimiterTag, name: Seq<char>)
    requires
        absent_everywhere(groups, name),
    ensures
        last_value(groups, tag, name) is None,
    decreases groups.len(),
{
    if groups.len() > 0 {
        assert(lookup(groups[groups.len() - 1].1, name) is None);
        let rest = groups.drop_last();
        assert forall|i: int| 0 <= i < rest.len() implies lookup(#[trigger] rest[i].1, name) is None by {
            assert(rest[i] == groups[i]);
        }
        lemma_last_value_absent(rest, tag, name);
    }
}

/// Each list of capabilities is read from the attribute of its own name in
/// the printer group that ends the reply: when that group lists keywords under
/// `sides-supported`, `print-color-mode-supported`, `media-supported`,
/// `media-ready`, `document-format-supported` or `printer-state-reasons`,
/// those keywords, in order, are the supported sides, color modes and media,
/// the loaded media, the supported formats and the state reasons, whatever
/// earlier groups said.
pub proof fn lemma_capability_lists_by_name(
    earlier: Seq<GroupView>,
    attrs: Seq<(Seq<char>, IppValueView)>,
    sides: Seq<Seq<char>>,
    modes: Seq<Seq<char>>,
    media: Seq<Seq<char>>,
    ready: Seq<Seq<char>>,
    formats: Seq<Seq<char>>,
    reasons: Seq<Seq<char>>,
)
    ensures
        ({
            let c = capabilities_of(earlier.push((DelimiterTag::PrinterAttributes, attrs)));
            &&& lookup(attrs, "sides-supported"@) == Some(keyword_array(sides)) ==> c.sides_supported
                == sides
            &&& lookup(attrs, "print-color-mode-supported"@) == Some(keyword_array(modes))
                ==> c.color_modes_supported == modes
            &&& lookup(attrs, "media-supported"@) == Some(keyword_array(media)) ==> c.media_supported
                == media
            &&& lookup(attrs, "media-ready"@) == Some(keyword_array(ready)) ==> c.media_ready == ready
            &&& lookup(attrs, "document-format-supported"@) == Some(keyword_array(formats))
                ==> c.formats_supported == formats
            &&& lookup(attrs, "printer-state-reasons"@) == Some(keyword_array(reasons))
                ==> c.state_reasons == reasons
        }),
{
    let gs = earlier.push((DelimiterTag::PrinterAttributes, attrs));
    assert(gs.last() == (DelimiterTag::PrinterAttributes, attrs));
    lemma_keyword_array_texts(sides);
    lemma_keyword_array_texts(modes);
    lemma_keyword_array_texts(media);
    lemma_keyword_array_texts(ready);
    lemma_keyword_array_texts(formats);
    lemma_keyword_array_texts(reasons);
}

/// Each single-valued capability is read from the attribute of its own name
/// in the printer group that ends the reply: the keyword under `sides-default`,
/// `print-color-mode-default` and `media-default` is the default sides, color
/// mode and medium, the text under `printer-make-and-model` is the model, and
/// a `printer-state` of 3, 4 or 5 reads as idle, processing or stopped.
pub proof fn lemma_capability_defaults_by_name(
    earlier: Seq<GroupView>,
    attrs: Seq<(Seq<char>, IppValueView)>,
    sides: Seq<char>,
    mode: Seq<char>,
    medium: Seq<char>,
    model: Seq<char>,
)
    ensures
        ({
            let c = capabilities_of(earlier.push((DelimiterTag::PrinterAttributes, attrs)));
            &&& lookup(attrs, "sides-default"@) == Some(IppValueView::Keyword(sides)) ==> c.sides_default
                == sides
            &&& lookup(attrs, "print-color-mode-default"@) == Some(IppValueView::Keyword(mode))
                ==> c.color_mode_default == mode
            &&& lookup(attrs, "media-default"@) == Some(IppValueView::Keyword(medium))
                ==> c.media_default == medium
            &&& lookup(attrs, "printer-make-and-model"@) == Some(IppValueView::TextWithoutLanguage(model))
                ==> c.make_and_model == model
            &&& lookup(attrs, "printer-state"@) == Some(IppValueView::Enum(3)) ==> c.state == "idle"@
            &&& lookup(attrs, "printer-state"@) == Some(IppValueView::Enum(4)) ==> c.state
                == "processing"@
            &&& lookup(attrs, "printer-state"@) == Some(IppValueView::Enum(5)) ==> c.state == "stopped"@
        }),
{
    let gs = earlier.push((DelimiterTag::PrinterAttributes, attrs));
    assert(gs.last() == (DelimiterTag::PrinterAttributes, attrs));
}

/// A capability that no group of the reply mentions is empty: without its
/// attribute a list (sides, color modes, media, loaded media, formats, state
/// reasons) has no entries and a default has no text.
pub proof fn lemma_capability_lists_absent(groups: Seq<GroupView>)
    ensures
        absent_everywhere(groups, "sides-supported"@) ==> capabilities_of(groups).sides_supported
            == Seq::<Seq<char>>::empty(),
        absent_everywhere(groups, "print-color-mode-supported"@)
            ==> capabilities_of(groups).color_modes_supported == Seq::<Seq<char>>::empty(),
        absent_everywhere(groups, "media-supported"@) ==> capabilities_of(groups).media_supported
            == Seq::<Seq<char>>::empty(),
        absent_everywhere(groups, "media-ready"@) ==> capabilities_of(groups).media_ready == Seq::<
            Seq<char>,
        >::empty(),
        absent_everywhere(groups, "document-format-supported"@)
            ==> capabilities_of(groups).formats_supported == Seq::<Seq<char>>::empty(),
        absent_everywhere(groups, "printer-state-reasons"@) ==> capabilities_of(groups).state_reasons
            == Seq::<Seq<char>>::empty(),
        absent_everywhere(groups, "sides-default"@) ==> capabilities_of(groups).sides_default
            == Seq::<char>::empty(),
        absent_everywhere(groups, "print-color-mode-default"@)
            ==> capabilities_of(groups).color_mode_default == Seq::<char>::empty(),
        absent_everywhere(groups, "media-default"@) ==> capabilities_of(groups).media_default
            == Seq::<char>::empty(),
{
    let names = seq![
        "sides-supported"@,
        "print-color-mode-supported"@,
        "media-supported"@,
        "media-ready"@,
        "document-format-supported"@,
        "printer-state-reasons"@,
        "sides-default"@,
        "print-color-mode-default"@,
        "media-default"@,
    ];
    assert forall|k: int| 0 <= k < names.len() && absent_everywhere(groups, #[trigger] names[k]) implies last_value(
        groups,
        DelimiterTag::PrinterAttributes,
        names[k],
    ) is None by {
        lemma_last_value_absent(groups, DelimiterTag::PrinterAttributes, names[k]);
    }
    assert(names[0] == "sides-supported"@);
    assert(names[1] == "print-color-mode-supported"@);
    assert(names[2] == "media-supported"@);
    assert(names[3] == "media-ready"@);
    assert(names[4] == "document-format-supported"@);
    assert(names[5] == "printer-state-reasons"@);
    assert(names[6] == "sides-default"@);
    assert(names[7] == "print-color-mode-default"@);
    assert(names[8] == "media-default"@);
}

/// A group of another kind added at the end does not change the last value
/// of a printer attribute.
proof fn lemma_last_value_other_group(groups: Seq<GroupView>, g: GroupView, name: Seq<char>)
    requires
        g.0 != DelimiterTag::PrinterAttributes,
    ensures
        last_value(groups.push(g), DelimiterTag::PrinterAttributes, name) == last_value(
            groups,
            DelimiterTag::PrinterAttributes,
            name,
        ),
{
    assert(groups.push(g).drop_last() =~= groups);
}

/// Only printer groups describe the printer: a group of any other kind (job,
/// operation, unsupported attributes) leaves the capabilities as they were.
pub proof fn lemma_capabilities_ignore_other_groups(groups: Seq<GroupView>, g: GroupView)
    requires
        g.0 != DelimiterTag::PrinterAttributes,
    ensures
        capabilities_of(groups.push(g)) == capabilities_of(groups),
{
    assert forall|name: Seq<char>| #[trigger] last_value(groups.push(g), DelimiterTag::PrinterAttributes, name)
        == last_value(groups, DelimiterTag::PrinterAttributes, name) by {
        lemma_last_value_other_group(groups, g, name);
    }
}

/// No group of the reply holds an attribute of this name.
pub open spec fn absent_everywhere(groups: Seq<GroupView>, name: Seq<char>) -> bool {
    forall|i: int| 0 <= i < groups.len() ==> lookup(#[trigger] groups[i].1, name) is None
}

// ── get_printer_info ───────────────────────────────────────────────────────

/// The value of the last `name` attribute, in a group tagged `tag`, that is an integer.
pub open spec fn last_integer(groups: Seq<GroupView>, tag: DelimiterTag, name: Seq<char>) -> Option<i32>
    decreases groups.len(),
{
    if groups.len() == 0 {
        None
    } else {
        let g = groups.last();
        match lookup(g.1, name) {
            Some(IppValueView::Integer(n)) if g.0 == tag => Some(n),
            _ => last_integer(groups.drop_last(), tag, name),
        }
    }
}

/// The number of queued jobs: the last integer `queued-job-count`, 0 when
/// there is none or it is negative.
pub open spec fn queued_jobs_of(groups: Seq<GroupView>) -> u32 {
    match last_integer(groups, DelimiterTag::PrinterAttributes, "queued-job-count"@) {
        Some(n) => if n >= 0 {
            n as u32
        } else {
            0
        },
        None => 0,
    }
}

/// The attributes asked for in a printer-info request.
pub fn info_attribute_names() -> (r: Vec<&'static str>)
    ensures
        r@.map_values(|s: &str| s@) == seq!["printer-name"@, "printer-state"@, "queued-job-count"@],
{
    let r = vec!["printer-name", "printer-state", "queued-job-count"];
    assert(r@.map_values(|s: &str| s@) =~= seq!["printer-name"@, "printer-state"@, "queued-job-count"@]);
    r
}

/// A printer's name, state and queue length from a Get-Printer-Attributes reply.
pub fn parse_printer_info(printer: &str, resp: &IppResponse) -> (r: Result<PrinterInfo, CupsError>)
    ensures
        reply_accepted(printer@, *resp, match r {
            Ok(_) => Ok(()),
            Err(e) => Err(e),
        }),
        r matches Ok(info) ==> info.name@ == printer@ && info.state@ == state_field(
            groups_view(resp.groups@),
        ) && info.queued_jobs == queued_jobs_of(groups_view(resp.groups@)),
{
    check_printer_reply(printer, resp)?;
    let ghost gs = groups_view(resp.groups@);
    let state = match crate::ipp_model::find_last_value(
        &resp.groups,
        DelimiterTag::PrinterAttributes,
        "printer-state",
    ) {
        Some(v) => printer_state_str(v),
        None => owned("unknown"),
    };
    let mut queued: u32 = 0;
    let mut found = false;
    let mut i: usize = resp.groups.len();
    assert(gs.take(gs.len() as int) =~= gs);
    while i > 0 && !found
        invariant
            gs == groups_view(resp.groups@),
            i <= gs.len(),
            found ==> queued == queued_jobs_of(gs),
            !found ==> queued == 0,
            !found ==> last_integer(gs, DelimiterTag::PrinterAttributes, "queued-job-count"@)
                == last_integer(gs.take(i as int), DelimiterTag::PrinterAttributes, "queued-job-count"@),
        decreases i,
    {
        let g = &resp.groups[i - 1];
        assert(gs.take(i as int).last() == g@);
        assert(gs.take(i as int).drop_last() =~= gs.take(i - 1));
        if g.tag == DelimiterTag::PrinterAttributes {
            match find_attribute(g, "queued-job-count") {
                Some(IppValue::Integer(n)) => {
                    assert(last_integer(gs.take(i as int), DelimiterTag::PrinterAttributes, "queued-job-count"@) == Some(*n));
                    queued = if *n >= 0 {
                        *n as u32
                    } else {
                        0
                    };
                    found = true;
                },
                _ => {},
            }
        }
        i = i - 1;
    }
    proof {
        if !found {
            assert(gs.take(i as int).len() == 0);
        }
    }
    assert(state@ == state_field(gs));
    assert(queued == queued_jobs_of(gs));
    Ok(PrinterInfo { name: owned(printer), state, queued_jobs: queued })
}

// ── print_job ──────────────────────────────────────────────────────────────

/// A planned attribute: its group, name and value.
pub type PlannedAttribute = (DelimiterTag, (Seq<char>, IppValueView));

/// An optional job attribute.
pub open spec fn job_attr_if(present: bool, name: Seq<char>, value: IppValueView) -> Seq<PlannedAttribute> {
    if present {
        seq![(DelimiterTag::JobAttributes, (name, value))]
    } else {
        Seq::empty()
    }
}

/// `copies` as an IPP integer: the count, capped at `i32::MAX`.
pub open spec fn copies_value(c: u32) -> i32 {
    if c <= i32::MAX {
        c as i32
    } else {
        i32::MAX
    }
}

/// The attributes a Print-Job request carries besides the printer URI, the
/// job name and the document: the document format, the chosen options, and,
/// for images, no scaling, for PDF, zero margins.
pub open spec fn print_job_plan(format: DocumentFormatView, options: PrintJobOptions) -> Seq<PlannedAttribute> {
    seq![(DelimiterTag::OperationAttributes, ("document-format"@, IppValueView::MimeMediaType(mime_of(format))))]
        + job_attr_if(options.copies is Some, "copies"@, IppValueView::Integer(copies_value(options.copies->0)))
        + job_attr_if(options.media is Some, "media"@, IppValueView::Keyword(media_keyword(options.media->0@)))
        + job_attr_if(options.sides is Some, "sides"@, IppValueView::Keyword(sides_keyword(options.sides->0)))
        + job_attr_if(options.color_mode is Some, "print-color-mode"@, IppValueView::Keyword(color_keyword(options.color_mode->0)))
        + job_attr_if(options.orientation is Some, "orientation-requested"@, IppValueView::Enum(orientation_enum(options.orientation->0)))
        + job_attr_if(format is Jpeg || format is Png, "print-scaling"@, IppValueView::Keyword("none"@))
        + job_attr_if(format is Pdf, "media-top-margin"@, IppValueView::Integer(0))
        + job_attr_if(format is Pdf, "media-left-margin"@, IppValueView::Integer(0))
        + job_attr_if(format is Pdf, "media-right-margin"@, IppValueView::Integer(0))
        + job_attr_if(format is Pdf, "media-bottom-margin"@, IppValueView::Integer(0))
}

/// The planned attributes as values.
pub open spec fn plan_view(plan: Seq<(DelimiterTag, IppAttribute)>) -> Seq<PlannedAttribute> {
    Seq::new(plan.len(), |i: int| (plan[i].0, plan[i].1@))
}

fn push_job_attr(plan: &mut Vec<(DelimiterTag, IppAttribute)>, name: &str, value: IppValue)
    ensures
        plan_view(final(plan)@) == plan_view(old(plan)@) + job_attr_if(true, name@, value@),
{
    plan.push((DelimiterTag::JobAttributes, IppAttribute { name: owned(name), value }));
    assert(plan_view(plan@) =~= plan_view(old(plan)@) + job_attr_if(true, name@, value@));
}

/// The attributes to add to a Print-Job request, in order.
pub fn print_job_attributes(format: &DocumentFormat, options: &PrintJobOptions) -> (r: Vec<
    (DelimiterTag, IppAttribute),
>)
    ensures
        plan_view(r@) == print_job_plan(format@, *options),
{
    let ghost f = format@;
    let mut plan: Vec<(DelimiterTag, IppAttribute)> = Vec::new();
    plan.push(
        (
            DelimiterTag::OperationAttributes,
            IppAttribute {
                name: owned("document-format"),
                value: IppValue::MimeMediaType(owned(format.mime_type())),
            },
        ),
    );
    let ghost p0 = plan_view(plan@);
    assert(p0 =~= seq![(DelimiterTag::OperationAttributes, ("document-format"@, IppValueView::MimeMediaType(mime_of(f))))]);
    if let Some(copies) = options.copies {
        let n: i32 = if copies <= 2147483647u32 {
            copies as i32
        } else {
            2147483647i32
        };
        push_job_attr(&mut plan, "copies", IppValue::Integer(n));
    }
    let ghost p1 = plan_view(plan@);
    assert(p1 =~= p0 + job_attr_if(options.copies is Some, "copies"@, IppValueView::Integer(copies_value(options.copies->0))));
    if let Some(media) = &options.media {
        push_job_attr(&mut plan, "media", IppValue::Keyword(owned(media.as_cups_keyword())));
    }
    let ghost p2 = plan_view(plan@);
    assert(p2 =~= p1 + job_attr_if(options.media is Some, "media"@, IppValueView::Keyword(media_keyword(options.media->0@))));
    if let Some(sides) = &options.sides {
        push_job_attr(&mut plan, "sides", IppValue::Keyword(owned(sides.as_ipp_keyword())));
    }
    let ghost p3 = plan_view(plan@);
    assert(p3 =~= p2 + job_attr_if(options.sides is Some, "sides"@, IppValueView::Keyword(sides_keyword(options.sides->0))));
    if let Some(color_mode) = &options.color_mode {
        push_job_attr(&mut plan, "print-color-mode", IppValue::Keyword(owned(color_mode.as_ipp_keyword())));
    }
    let ghost p4 = plan_view(plan@);
    assert(p4 =~= p3 + job_attr_if(options.color_mode is Some, "print-color-mode"@, IppValueView::Keyword(color_keyword(options.color_mode->0))));
    if let Some(orientation) = &options.orientation {
        push_job_attr(&mut plan, "orientation-requested", IppValue::Enum(orientation.as_ipp_enum()));
    }
    let ghost p5 = plan_view(plan@);
    assert(p5 =~= p4 + job_attr_if(options.orientation is Some, "orientation-requested"@, IppValueView::Enum(orientation_enum(options.orientation->0))));
    // Images sent to page-based printers print at native size from the top-left
    // of the printable area instead of being centered on the sheet.
    let image = match format {
        DocumentFormat::Jpeg | DocumentFormat::Png => true,
        _ => false,
    };
    if image {
        push_job_attr(&mut plan, "print-scaling", IppValue::Keyword(owned("none")));
    }
    let ghost p6 = plan_view(plan@);
    assert(p6 =~= p5 + job_attr_if(f is Jpeg || f is Png, "print-scaling"@, IppValueView::Keyword("none"@)));
    // PDF content starts from the top-left of the physical paper rather than
    // after the printer's default margin offset.
    let pdf = match format {
        DocumentFormat::Pdf => true,
        _ => false,
    };
    if pdf {
        push_job_attr(&mut plan, "media-top-margin", IppValue::Integer(0));
        push_job_attr(&mut plan, "media-left-margin", IppValue::Integer(0));
        push_job_attr(&mut plan, "media-right-margin", IppValue::Integer(0));
        push_job_attr(&mut plan, "media-bottom-margin", IppValue::Integer(0));
    }
    assert(plan_view(plan@) =~= print_job_plan(f, *options));
    plan
}

/// An element is in a concatenation exactly when it is in one of the parts.
proof fn lemma_concat_contains<A>(a: Seq<A>, b: Seq<A>, x: A)
    ensures
        (a + b).contains(x) <==> a.contains(x) || b.contains(x),
{
    if (a + b).contains(x) {
        let i = choose|i: int| 0 <= i < (a + b).len() && (a + b)[i] == x;
        if i < a.len() {
            assert(a[i] == x);
        } else {
            assert(b[i - a.len()] == x);
        }
    }
    if a.contains(x) {
        let i = choose|i: int| 0 <= i < a.len() && a[i] == x;
        assert((a + b)[i] == x);
    }
    if b.contains(x) {
        let i = choose|i: int| 0 <= i < b.len() && b[i] == x;
        assert((a + b)[a.len() + i] == x);
    }
}

/// An optional job attribute holds an entry exactly when it is present and the entry is it.
proof fn lemma_job_attr_if_contains(present: bool, name: Seq<char>, value: IppValueView, x: PlannedAttribute)
    ensures
        job_attr_if(present, name, value).contains(x) <==> present && x == (
            DelimiterTag::JobAttributes,
            (name, value),
        ),
{
    if present && x == (DelimiterTag::JobAttributes, (name, value)) {
        assert(job_attr_if(present, name, value)[0] == x);
    }
}

/// What a Print-Job plan holds: the document format, each option that is
/// set, no scaling for images and zero margins for PDF.
proof fn lemma_plan_contains(format: DocumentFormatView, options: PrintJobOptions, x: PlannedAttribute)
    ensures
        print_job_plan(format, options).contains(x) <==> {
            ||| x == (DelimiterTag::OperationAttributes, ("document-format"@, IppValueView::MimeMediaType(mime_of(format))))
            ||| options.copies is Some && x == (DelimiterTag::JobAttributes, ("copies"@, IppValueView::Integer(copies_value(options.copies->0))))
            ||| options.media is Some && x == (DelimiterTag::JobAttributes, ("media"@, IppValueView::Keyword(media_keyword(options.media->0@))))
            ||| options.sides is Some && x == (DelimiterTag::JobAttributes, ("sides"@, IppValueView::Keyword(sides_keyword(options.sides->0))))
            ||| options.color_mode is Some && x == (DelimiterTag::JobAttributes, ("print-color-mode"@, IppValueView::Keyword(color_keyword(options.color_mode->0))))
            ||| options.orientation is Some && x == (DelimiterTag::JobAttributes, ("orientation-requested"@, IppValueView::Enum(orientation_enum(options.orientation->0))))
            ||| (format is Jpeg || format is Png) && x == (DelimiterTag::JobAttributes, ("print-scaling"@, IppValueView::Keyword("none"@)))
            ||| format is Pdf && x == (DelimiterTag::JobAttributes, ("media-top-margin"@, IppValueView::Integer(0)))
            ||| format is Pdf && x == (DelimiterTag::JobAttributes, ("media-left-margin"@, IppValueView::Integer(0)))
            ||| format is Pdf && x == (DelimiterTag::JobAttributes, ("media-right-margin"@, IppValueView::Integer(0)))
            ||| format is Pdf && x == (DelimiterTag::JobAttributes, ("media-bottom-margin"@, IppValueView::Integer(0)))
        },
{
    let head = seq![(DelimiterTag::OperationAttributes, ("document-format"@, IppValueView::MimeMediaType(mime_of(format))))];
    let s1 = job_attr_if(options.copies is Some, "copies"@, IppValueView::Integer(copies_value(options.copies->0)));
    let s2 = job_attr_if(options.media is Some, "media"@, IppValueView::Keyword(media_keyword(options.media->0@)));
    let s3 = job_attr_if(options.sides is Some, "sides"@, IppValueView::Keyword(sides_keyword(options.sides->0)));
    let s4 = job_attr_if(options.color_mode is Some, "print-color-mode"@, IppValueView::Keyword(color_keyword(options.color_mode->0)));
    let s5 = job_attr_if(options.orientation is Some, "orientation-requested"@, IppValueView::Enum(orientation_enum(options.orientation->0)));
    let s6 = job_attr_if(format is Jpeg || format is Png, "print-scaling"@, IppValueView::Keyword("none"@));
    let s7 = job_attr_if(format is Pdf, "media-top-margin"@, IppValueView::Integer(0));
    let s8 = job_attr_if(format is Pdf, "media-left-margin"@, IppValueView::Integer(0));
    let s9 = job_attr_if(format is Pdf, "media-right-margin"@, IppValueView::Integer(0));
    let s10 = job_attr_if(format is Pdf, "media-bottom-margin"@, IppValueView::Integer(0));
    if head.contains(x) {
        let i = choose|i: int| 0 <= i < head.len() && head[i] == x;
        assert(head[0] == x);
    }
    if x == head[0] {
        assert(head[0] == x);
    }
    lemma_job_attr_if_contains(options.copies is Some, "copies"@, IppValueView::Integer(copies_value(options.copies->0)), x);
    lemma_job_attr_if_contains(options.media is Some, "media"@, IppValueView::Keyword(media_keyword(options.media->0@)), x);
    lemma_job_attr_if_contains(options.sides is Some, "sides"@, IppValueView::Keyword(sides_keyword(options.sides->0)), x);
    lemma_job_attr_if_contains(options.color_mode is Some, "print-color-mode"@, IppValueView::Keyword(color_keyword(options.color_mode->0)), x);
    lemma_job_attr_if_contains(options.orientation is Some, "orientation-requested"@, IppValueView::Enum(orientation_enum(options.orientation->0)), x);
    lemma_job_attr_if_contains(format is Jpeg || format is Png, "print-scaling"@, IppValueView::Keyword("none"@), x);
    lemma_job_attr_if_contains(format is Pdf, "media-top-margin"@, IppValueView::Integer(0), x);
    lemma_job_attr_if_contains(format is Pdf, "media-left-margin"@, IppValueView::Integer(0), x);
    lemma_job_attr_if_contains(format is Pdf, "media-right-margin"@, IppValueView::Integer(0), x);
    lemma_job_attr_if_contains(format is Pdf, "media-bottom-margin"@, IppValueView::Integer(0), x);
    lemma_concat_contains(head, s1, x);
    lemma_concat_contains(head + s1, s2, x);
    lemma_concat_contains(head + s1 + s2, s3, x);
    lemma_concat_contains(head + s1 + s2 + s3, s4, x);
    lemma_concat_contains(head + s1 + s2 + s3 + s4, s5, x);
    lemma_concat_contains(head + s1 + s2 + s3 + s4 + s5, s6, x);
    lemma_concat_contains(head + s1 + s2 + s3 + s4 + s5 + s6, s7, x);
    lemma_concat_contains(head + s1 + s2 + s3 + s4 + s5 + s6 + s7, s8, x);
    lemma_concat_contains(head + s1 + s2 + s3 + s4 + s5 + s6 + s7 + s8, s9, x);
    lemma_concat_contains(head + s1 + s2 + s3 + s4 + s5 + s6 + s7 + s8 + s9, s10, x);
    assert(print_job_plan(format, options) == head + s1 + s2 + s3 + s4 + s5 + s6 + s7 + s8 + s9 + s10);
}

proof fn reveal_plan_names()
    ensures
        "print-scaling"@.len() == 13,
        "copies"@.len() == 6,
        "media"@.len() == 5,
        "sides"@.len() == 5,
        "print-color-mode"@.len() == 16,
        "orientation-requested"@.len() == 21,
        "media-top-margin"@.len() == 16,
        "media-left-margin"@.len() == 17,
        "media-right-margin"@.len() == 18,
        "media-bottom-margin"@.len() == 19,
        "media"@[1] != "sides"@[1],
{
    reveal_strlit("print-scaling");
    reveal_strlit("copies");
    reveal_strlit("media");
    reveal_strlit("sides");
    reveal_strlit("print-color-mode");
    reveal_strlit("orientation-requested");
    reveal_strlit("media-top-margin");
    reveal_strlit("media-left-margin");
    reveal_strlit("media-right-margin");
    reveal_strlit("media-bottom-margin");
    assert("print-scaling"@.len() == 13);
    assert("copies"@.len() == 6);
    assert("media"@.len() == 5);
    assert("sides"@.len() == 5);
    assert("print-color-mode"@.len() == 16);
    assert("orientation-requested"@.len() == 21);
    assert("media-top-margin"@.len() == 16);
    assert("media-left-margin"@.len() == 17);
    assert("media-right-margin"@.len() == 18);
    assert("media-bottom-margin"@.len() == 19);
    assert("media"@[1] != "sides"@[1]);
}

/// Images print unscaled, and only images: the Print-Job attributes of a JPEG
/// or PNG document hold the job attribute `print-scaling = none`, whatever the
/// options, and those of any other format do not.
pub proof fn lemma_images_print_unscaled(format: DocumentFormatView, options: PrintJobOptions)
    ensures
        print_job_plan(format, options).contains(
            (DelimiterTag::JobAttributes, ("print-scaling"@, IppValueView::Keyword("none"@))),
        ) <==> (format is Jpeg || format is Png),
{
    reveal_plan_names();
    lemma_plan_contains(format, options, (DelimiterTag::JobAttributes, ("print-scaling"@, IppValueView::Keyword("none"@))));
}

/// PDF prints from the paper's edge, and only PDF: its Print-Job attributes
/// hold the four job attributes `media-top-margin`, `media-left-margin`,
/// `media-right-margin` and `media-bottom-margin`, each 0; no other format's
/// hold any of them.
pub proof fn lemma_pdf_prints_without_margins(format: DocumentFormatView, options: PrintJobOptions)
    ensures
        ({
            let plan = print_job_plan(format, options);
            &&& plan.contains((DelimiterTag::JobAttributes, ("media-top-margin"@, IppValueView::Integer(0)))) <==> format is Pdf
            &&& plan.contains((DelimiterTag::JobAttributes, ("media-left-margin"@, IppValueView::Integer(0)))) <==> format is Pdf
            &&& plan.contains((DelimiterTag::JobAttributes, ("media-right-margin"@, IppValueView::Integer(0)))) <==> format is Pdf
            &&& plan.contains((DelimiterTag::JobAttributes, ("media-bottom-margin"@, IppValueView::Integer(0)))) <==> format is Pdf
        }),
{
    reveal_plan_names();
    lemma_plan_contains(format, options, (DelimiterTag::JobAttributes, ("media-top-margin"@, IppValueView::Integer(0))));
    lemma_plan_contains(format, options, (DelimiterTag::JobAttributes, ("media-left-margin"@, IppValueView::Integer(0))));
    lemma_plan_contains(format, options, (DelimiterTag::JobAttributes, ("media-right-margin"@, IppValueView::Integer(0))));
    lemma_plan_contains(format, options, (DelimiterTag::JobAttributes, ("media-bottom-margin"@, IppValueView::Integer(0))));
}

/// Each option that is set travels as the job attribute of its own name with
/// its own IPP value: the copy count (capped at `i32::MAX`) under `copies`,
/// the media's keyword under `media`, the sides' keyword
/// under `sides`, the color mode's keyword under `print-color-mode`, the
/// orientation's enum under `orientation-requested`; and the document travels
/// with its MIME type as the operation attribute `document-format`.
pub proof fn lemma_options_travel_by_name(format: DocumentFormatView, options: PrintJobOptions)
    ensures
        ({
            let plan = print_job_plan(format, options);
            &&& plan.contains((DelimiterTag::OperationAttributes, ("document-format"@, IppValueView::MimeMediaType(mime_of(format)))))
            &&& options.copies matches Some(n) ==> plan.contains((DelimiterTag::JobAttributes, ("copies"@, IppValueView::Integer(copies_value(n)))))
            &&& options.media matches Some(m) ==> plan.contains((DelimiterTag::JobAttributes, ("media"@, IppValueView::Keyword(media_keyword(m@)))))
            &&& options.sides matches Some(v) ==> plan.contains((DelimiterTag::JobAttributes, ("sides"@, IppValueView::Keyword(sides_keyword(v)))))
            &&& options.color_mode matches Some(c) ==> plan.contains((DelimiterTag::JobAttributes, ("print-color-mode"@, IppValueView::Keyword(color_keyword(c)))))
            &&& options.orientation matches Some(o) ==> plan.contains((DelimiterTag::JobAttributes, ("orientation-requested"@, IppValueView::Enum(orientation_enum(o)))))
        }),
{
    lemma_plan_contains(format, options, (DelimiterTag::OperationAttributes, ("document-format"@, IppValueView::MimeMediaType(mime_of(format)))));
    if let Some(n) = options.copies {
        lemma_plan_contains(format, options, (DelimiterTag::JobAttributes, ("copies"@, IppValueView::Integer(copies_value(n)))));
    }
    if let Some(m) = options.media {
        lemma_plan_contains(format, options, (DelimiterTag::JobAttributes, ("media"@, IppValueView::Keyword(media_keyword(m@)))));
    }
    if let Some(v) = options.sides {
        lemma_plan_contains(format, options, (DelimiterTag::JobAttributes, ("sides"@, IppValueView::Keyword(sides_keyword(v)))));
    }
    if let Some(c) = options.color_mode {
        lemma_plan_contains(format, options, (DelimiterTag::JobAttributes, ("print-color-mode"@, IppValueView::Keyword(color_keyword(c)))));
    }
    if let Some(o) = options.orientation {
        lemma_plan_contains(format, options, (DelimiterTag::JobAttributes, ("orientation-requested"@, IppValueView::Enum(orientation_enum(o)))));
    }
}

/// The first integer `name` attribute in a group tagged `tag`.
pub open spec fn first_integer(groups: Seq<GroupView>, tag: DelimiterTag, name: Seq<char>) -> Option<i32>
    decreases groups.len(),
{
    if groups.len() == 0 {
        None
    } else {
        let g = groups[0];
        match lookup(g.1, name) {
            Some(IppValueView::Integer(n)) if g.0 == tag => Some(n),
            _ => first_integer(groups.drop_first(), tag, name),
        }
    }
}

/// The job id in a Print-Job reply: the first integer `job-id` among the job
/// groups, else `MissingAttribute("job-id")`.
pub fn parse_print_job_reply(printer: &str, resp: &IppResponse) -> (r: Result<i32, CupsError>)
    ensures
        status_is_success(resp.status_code) && first_integer(
            groups_view(resp.groups@),
            DelimiterTag::JobAttributes,
            "job-id"@,
        ) is Some ==> r == Ok::<i32, CupsError>(first_integer(
            groups_view(resp.groups@),
            DelimiterTag::JobAttributes,
            "job-id"@,
        )->0),
        status_is_success(resp.status_code) && first_integer(
            groups_view(resp.groups@),
            DelimiterTag::JobAttributes,
            "job-id"@,
        ) is None ==> (r matches Err(e) && e matches CupsError::MissingAttribute(a) && a@ == "job-id"@),
        !status_is_success(resp.status_code) ==> reply_accepted(printer@, *resp, match r {
            Ok(_) => Ok(()),
            Err(e) => Err(e),
        }),
{
    check_printer_reply(printer, resp)?;
    let ghost gs = groups_view(resp.groups@);
    let mut i: usize = 0;
    assert(gs.skip(0) =~= gs);
    while i < resp.groups.len()
        invariant
            gs == groups_view(resp.groups@),
            i <= gs.len(),
            status_is_success(resp.status_code),
            first_integer(gs, DelimiterTag::JobAttributes, "job-id"@) == first_integer(
                gs.skip(i as int),
                DelimiterTag::JobAttributes,
                "job-id"@,
            ),
        decreases gs.len() - i,
    {
        let g = &resp.groups[i];
        assert(gs.skip(i as int)[0] == g@);
        assert(gs.skip(i as int).drop_first() =~= gs.skip(i + 1));
        if g.tag == DelimiterTag::JobAttributes {
            match find_attribute(g, "job-id") {
                Some(IppValue::Integer(id)) => {
                    return Ok(*id);
                },
                _ => {},
            }
        }
        i = i + 1;
    }
    Err(CupsError::MissingAttribute("job-id"))
}

// ── get_jobs ───────────────────────────────────────────────────────────────

/// The job described by one job group: its integer `job-id` (else 0), its
/// name (else empty) and its state (else `unknown`).
pub open spec fn job_of(attrs: Seq<(Seq<char>, IppValueView)>) -> (i32, Seq<char>, Seq<char>) {
    (
        match lookup(attrs, "job-id"@) {
            Some(IppValueView::Integer(n)) => n,
            _ => 0,
        },
        match lookup(attrs, "job-name"@) {
            Some(IppValueView::NameWithoutLanguage(s)) => s,
            Some(IppValueView::TextWithoutLanguage(s)) => s,
            _ => Seq::empty(),
        },
        match lookup(attrs, "job-state"@) {
            Some(v) => job_state_text(v),
            None => "unknown"@,
        },
    )
}

/// One job per job group of a reply, in order.
pub open spec fn jobs_of(groups: Seq<GroupView>) -> Seq<(i32, Seq<char>, Seq<char>)>
    decreases groups.len(),
{
    if groups.len() == 0 {
        Seq::empty()
    } else {
        let rest = jobs_of(groups.drop_last());
        if groups.last().0 == DelimiterTag::JobAttributes {
            rest.push(job_of(groups.last().1))
        } else {
            rest
        }
    }
}

/// The views of a list of jobs.
pub open spec fn job_views(jobs: Seq<JobDetail>) -> Seq<(i32, Seq<char>, Seq<char>)> {
    Seq::new(jobs.len(), |i: int| jobs[i]@)
}

fn read_job(g: &IppAttributeGroup) -> (r: JobDetail)
    ensures
        r@ == job_of(g@.1),
{
    let id = match find_attribute(g, "job-id") {
        Some(IppValue::Integer(n)) => *n,
        _ => 0,
    };
    let name = match find_attribute(g, "job-name") {
        Some(IppValue::NameWithoutLanguage(s)) => s.clone(),
        Some(IppValue::TextWithoutLanguage(s)) => s.clone(),
        _ => String::new(),
    };
    let state = match find_attribute(g, "job-state") {
        Some(v) => job_state_str(v),
        None => owned("unknown"),
    };
    JobDetail { id, name, state }
}

/// The attributes of a Get-Jobs request: the job id, name and state of all jobs.
pub fn get_jobs_attributes() -> (r: Vec<(DelimiterTag, IppAttribute)>)
    ensures
        plan_view(r@) == seq![
            (DelimiterTag::OperationAttributes, ("requested-attributes"@, IppValueView::Array(seq![
                IppValueView::Keyword("job-id"@),
                IppValueView::Keyword("job-name"@),
                IppValueView::Keyword("job-state"@),
            ]))),
            (DelimiterTag::OperationAttributes, ("which-jobs"@, IppValueView::Keyword("all"@))),
        ],
{
    let mut items: Vec<IppValue> = Vec::new();
    items.push(IppValue::Keyword(owned("job-id")));
    items.push(IppValue::Keyword(owned("job-name")));
    items.push(IppValue::Keyword(owned("job-state")));
    let requested = IppValue::Array(items);
    proof {
        crate::ipp_model::lemma_array_view(requested);
        assert(requested@->Array_0 =~= seq![
            IppValueView::Keyword("job-id"@),
            IppValueView::Keyword("job-name"@),
            IppValueView::Keyword("job-state"@),
        ]);
    }
    let mut r: Vec<(DelimiterTag, IppAttribute)> = Vec::new();
    r.push((DelimiterTag::OperationAttributes, IppAttribute { name: owned("requested-attributes"), value: requested }));
    r.push((DelimiterTag::OperationAttributes, IppAttribute { name: owned("which-jobs"), value: IppValue::Keyword(owned("all")) }));
    assert(plan_view(r@) =~= seq![
        (DelimiterTag::OperationAttributes, ("requested-attributes"@, IppValueView::Array(seq![
            IppValueView::Keyword("job-id"@),
            IppValueView::Keyword("job-name"@),
            IppValueView::Keyword("job-state"@),
        ]))),
        (DelimiterTag::OperationAttributes, ("which-jobs"@, IppValueView::Keyword("all"@))),
    ]);
    r
}

/// The jobs listed in a Get-Jobs reply.
pub fn parse_jobs(printer: &str, resp: &IppResponse) -> (r: Result<Vec<JobDetail>, CupsError>)
    ensures
        reply_accepted(printer@, *resp, match r {
            Ok(_) => Ok(()),
            Err(e) => Err(e),
        }),
        r matches Ok(jobs) ==> job_views(jobs@) == jobs_of(groups_view(resp.groups@)),
{
    check_printer_reply(printer, resp)?;
    let ghost gs = groups_view(resp.groups@);
    let mut jobs: Vec<JobDetail> = Vec::new();
    let mut i: usize = 0;
    while i < resp.groups.len()
        invariant
            gs == groups_view(resp.groups@),
            i <= gs.len(),
            job_views(jobs@) == jobs_of(gs.take(i as int)),
        decreases gs.len() - i,
    {
        let g = &resp.groups[i];
        assert(gs.take(i + 1).drop_last() =~= gs.take(i as int));
        assert(gs.take(i + 1).last() == g@);
        if g.tag == DelimiterTag::JobAttributes {
            jobs.push(read_job(g));
            assert(job_views(jobs@) =~= jobs_of(gs.take(i + 1)));
        }
        i = i + 1;
    }
    assert(gs.take(gs.len() as int) =~= gs);
    Ok(jobs)
}

} // verus!
