//! The parts of an IPP message that the gateway reads and writes, as plain
//! values: attribute values, attributes, attribute groups and replies; and
//! the text renderings of values that the gateway reports.
use vstd::prelude::*;

use crate::text::{push_char, push_signed_decimal, push_text, signed_decimal};

verus! {

// ── Values ─────────────────────────────────────────────────────────────────

/// An IPP attribute value. The kinds the gateway reads are kept as they are;
/// any other kind is held as its debug rendering.
#[derive(Debug)]
pub enum IppValue {
    Integer(i32),
    Enum(i32),
    Keyword(String),
    MimeMediaType(String),
    NameWithoutLanguage(String),
    TextWithoutLanguage(String),
    Array(Vec<IppValue>),
    Other(String),
}

/// The mathematical value of an `IppValue`.
pub enum IppValueView {
    Integer(i32),
    Enum(i32),
    Keyword(Seq<char>),
    MimeMediaType(Seq<char>),
    NameWithoutLanguage(Seq<char>),
    TextWithoutLanguage(Seq<char>),
    Array(Seq<IppValueView>),
    Other(Seq<char>),
}

impl View for IppValue {
    type V = IppValueView;

    open spec fn view(&self) -> IppValueView {
        value_view(*self)
    }
}

/// The mathematical value of an `IppValue`, item by item for arrays.
pub open spec fn value_view(v: IppValue) -> IppValueView
    decreases v,
{
    match v {
        IppValue::Integer(n) => IppValueView::Integer(n),
        IppValue::Enum(n) => IppValueView::Enum(n),
        IppValue::Keyword(s) => IppValueView::Keyword(s@),
        IppValue::MimeMediaType(s) => IppValueView::MimeMediaType(s@),
        IppValue::NameWithoutLanguage(s) => IppValueView::NameWithoutLanguage(s@),
        IppValue::TextWithoutLanguage(s) => IppValueView::TextWithoutLanguage(s@),
        IppValue::Array(items) => IppValueView::Array(
            Seq::new(
                items@.len(),
                |i: int|
                    if 0 <= i < items@.len() {
                        value_view(items@[i])
                    } else {
                        IppValueView::Integer(0)
                    },
            ),
        ),
        IppValue::Other(s) => IppValueView::Other(s@),
    }
}

/// The view of an array value lists the views of its items.
pub proof fn lemma_array_view(v: IppValue)
    ensures
        v matches IppValue::Array(items) ==> (v@ is Array && (v@->Array_0).len() == items@.len()
            && forall|k: int| 0 <= k < items@.len() ==> #[trigger] (v@->Array_0)[k] == items@[k]@),
{
}

// ── Attributes, groups, replies ────────────────────────────────────────────

/// The attribute group delimiters of an IPP message.
#[derive(Debug, Clone, Copy, PartialEq, Eq, Structural)]
pub enum DelimiterTag {
    OperationAttributes,
    JobAttributes,
    EndOfAttributes,
    PrinterAttributes,
    UnsupportedAttributes,
}

/// A named attribute.
#[derive(Debug)]
pub struct IppAttribute {
    pub name: String,
    pub value: IppValue,
}

impl View for IppAttribute {
    type V = (Seq<char>, IppValueView);

    open spec fn view(&self) -> (Seq<char>, IppValueView) {
        (self.name@, self.value@)
    }
}

/// A group of attributes under one delimiter; names are unique within a group.
#[derive(Debug)]
pub struct IppAttributeGroup {
    pub tag: DelimiterTag,
    pub attributes: Vec<IppAttribute>,
}

/// The mathematical value of a group.
pub type GroupView = (DelimiterTag, Seq<(Seq<char>, IppValueView)>);

impl View for IppAttributeGroup {
    type V = GroupView;

    open spec fn view(&self) -> GroupView {
        (self.tag, Seq::new(self.attributes@.len(), |i: int| self.attributes@[i]@))
    }
}

/// An IPP reply: the raw status code, the status code's name, and the attribute groups.
#[derive(Debug)]
pub struct IppResponse {
    pub status_code: u16,
    pub status_name: String,
    pub groups: Vec<IppAttributeGroup>,
}

/// The groups of a reply as values.
pub open spec fn groups_view(groups: Seq<IppAttributeGroup>) -> Seq<GroupView> {
    Seq::new(groups.len(), |i: int| groups[i]@)
}

/// `successful-ok`, `successful-ok-ignored-or-substituted-attributes` and
/// `successful-ok-conflicting-attributes`: the IPP status codes 0, 1 and 2.
pub open spec fn status_is_success(code: u16) -> bool {
    code <= 2
}

/// `client-error-not-found`.
pub const STATUS_NOT_FOUND: u16 = 0x0406;

/// The value of the first attribute named `name`.
pub open spec fn lookup(attrs: Seq<(Seq<char>, IppValueView)>, name: Seq<char>) -> Option<
    IppValueView,
>
    decreases attrs.len(),
{
    if attrs.len() == 0 {
        None
    } else if attrs[0].0 == name {
        Some(attrs[0].1)
    } else {
        lookup(attrs.drop_first(), name)
    }
}

/// The value of attribute `name` in the last group with tag `tag` that has it.
pub open spec fn last_value(groups: Seq<GroupView>, tag: DelimiterTag, name: Seq<char>) -> Option<
    IppValueView,
>
    decreases groups.len(),
{
    if groups.len() == 0 {
        None
    } else if groups.last().0 == tag && lookup(groups.last().1, name) is Some {
        lookup(groups.last().1, name)
    } else {
        last_value(groups.drop_last(), tag, name)
    }
}

/// Finds the first attribute named `name` in a group.
pub fn find_attribute<'a>(group: &'a IppAttributeGroup, name: &str) -> (r: Option<&'a IppValue>)
    ensures
        match r {
            Some(v) => lookup(group@.1, name@) == Some(v@),
            None => lookup(group@.1, name@) is None,
        },
{
    let ghost attrs = group@.1;
    assert(attrs.skip(0) =~= attrs);
    let mut i: usize = 0;
    while i < group.attributes.len()
        invariant
            attrs == group@.1,
            i <= attrs.len(),
            lookup(attrs, name@) == lookup(attrs.skip(i as int), name@),
        decreases attrs.len() - i,
    {
        assert(attrs.skip(i as int)[0] == attrs[i as int]);
        assert(attrs.skip(i as int).drop_first() =~= attrs.skip(i + 1));
        if crate::text::text_eq(group.attributes[i].name.as_str(), name) {
            return Some(&group.attributes[i].value);
        }
        i = i + 1;
    }
    None
}

/// Finds the value of attribute `name` in the last group tagged `tag` that has it.
pub fn find_last_value<'a>(groups: &'a Vec<IppAttributeGroup>, tag: DelimiterTag, name: &str) -> (r:
    Option<&'a IppValue>)
    ensures
        match r {
            Some(v) => last_value(groups_view(groups@), tag, name@) == Some(v@),
            None => last_value(groups_view(groups@), tag, name@) is None,
        },
{
    let ghost gs = groups_view(groups@);
    assert(gs.take(gs.len() as int) =~= gs);
    let mut i: usize = groups.len();
    while i > 0
        invariant
            gs == groups_view(groups@),
            i <= gs.len(),
            last_value(gs, tag, name@) == last_value(gs.take(i as int), tag, name@),
        decreases i,
    {
        let g = &groups[i - 1];
        assert(gs.take(i as int).last() == g@);
        assert(gs.take(i as int).drop_last() =~= gs.take(i - 1));
        if g.tag == tag {
            match find_attribute(g, name) {
                Some(v) => {
                    return Some(v);
                },
                None => {},
            }
        }
        i = i - 1;
    }
    None
}

// ── Text renderings ────────────────────────────────────────────────────────

/// A string as `{:?}` prints it: in double quotes, with escapes.
pub uninterp spec fn debug_quoted(s: Seq<char>) -> Seq<char>;

/// `<str as Debug>::fmt` through `format!("{:?}")`. Trusted: the result is a
/// function of the characters alone, named `debug_quoted`.
#[verifier::external_body]
fn debug_quote(s: &str) -> (r: String)
    ensures
        r@ == debug_quoted(s@),
{
    format!("{s:?}")
}

/// A value as `{:?}` prints it: the kind's name, then its payload in brackets.
pub open spec fn debug_text(v: IppValueView) -> Seq<char>
    decreases v,
{
    match v {
        IppValueView::Integer(n) => "Integer("@ + signed_decimal(n as int) + ")"@,
        IppValueView::Enum(n) => "Enum("@ + signed_decimal(n as int) + ")"@,
        IppValueView::Keyword(s) => "Keyword("@ + debug_quoted(s) + ")"@,
        IppValueView::MimeMediaType(s) => "MimeMediaType("@ + debug_quoted(s) + ")"@,
        IppValueView::NameWithoutLanguage(s) => "NameWithoutLanguage("@ + debug_quoted(s) + ")"@,
        IppValueView::TextWithoutLanguage(s) => "TextWithoutLanguage("@ + debug_quoted(s) + ")"@,
        IppValueView::Array(items) => "Array(["@ + debug_items(items) + "])"@,
        IppValueView::Other(d) => d,
    }
}

/// The debug renderings of array items, separated by `, `.
pub open spec fn debug_items(items: Seq<IppValueView>) -> Seq<char>
    decreases items,
{
    if items.len() == 0 {
        Seq::empty()
    } else if items.len() == 1 {
        debug_text(items[0])
    } else {
        debug_items(items.drop_last()) + ", "@ + debug_text(items.last())
    }
}

fn push_debug_text(out: &mut String, v: &IppValue)
    ensures
        final(out)@ == old(out)@ + debug_text(v@),
    decreases v,
{
    match v {
        IppValue::Integer(n) => {
            push_text(out, "Integer(");
            push_signed_decimal(out, *n as i64);
            push_text(out, ")");
        },
        IppValue::Enum(n) => {
            push_text(out, "Enum(");
            push_signed_decimal(out, *n as i64);
            push_text(out, ")");
        },
        IppValue::Keyword(s) => {
            push_text(out, "Keyword(");
            push_text(out, debug_quote(s.as_str()).as_str());
            push_text(out, ")");
        },
        IppValue::MimeMediaType(s) => {
            push_text(out, "MimeMediaType(");
            push_text(out, debug_quote(s.as_str()).as_str());
            push_text(out, ")");
        },
        IppValue::NameWithoutLanguage(s) => {
            push_text(out, "NameWithoutLanguage(");
            push_text(out, debug_quote(s.as_str()).as_str());
            push_text(out, ")");
        },
        IppValue::TextWithoutLanguage(s) => {
            push_text(out, "TextWithoutLanguage(");
            push_text(out, debug_quote(s.as_str()).as_str());
            push_text(out, ")");
        },
        IppValue::Array(items) => {
            let ghost start = out@;
            proof {
                lemma_array_view(*v);
            }
            let ghost iv = v@->Array_0;
            push_text(out, "Array([");
            let mut i: usize = 0;
            while i < items.len()
                invariant
                    *v == IppValue::Array(*items),
                    iv.len() == items@.len(),
                    forall|k: int| 0 <= k < items@.len() ==> #[trigger] iv[k] == items@[k]@,
                    i <= items@.len(),
                    out@ == start + "Array(["@ + debug_items(iv.take(i as int)),
                decreases items@.len() - i,
            {
                if i > 0 {
                    push_text(out, ", ");
                }
                proof {
                    let ghost vv: IppValue = *v;
                    assert(vv->Array_0 == *items);
                    assert(decreases_to!(vv => vv->Array_0));
                    assert(decreases_to!(vv->Array_0 => (vv->Array_0)@));
                    assert(decreases_to!((vv->Array_0)@ => (vv->Array_0)@[i as int]));
                    assert(decreases_to!(vv => items@[i as int]));
                }
                push_debug_text(out, &items[i]);
                assert(iv.take(i + 1).drop_last() =~= iv.take(i as int));
                assert(iv.take(i + 1).last() == iv[i as int]);
                if i == 0 {
                    assert(iv.take(1).len() == 1);
                }
                i = i + 1;
            }
            assert(iv.take(items@.len() as int) =~= iv);
            push_text(out, "])");
        },
        IppValue::Other(s) => {
            push_text(out, s.as_str());
        },
    }
}

/// The text of a keyword-like value; any other value as its debug rendering.
pub open spec fn keyword_text(v: IppValueView) -> Seq<char> {
    match v {
        IppValueView::Keyword(s) => s,
        IppValueView::MimeMediaType(s) => s,
        IppValueView::NameWithoutLanguage(s) => s,
        IppValueView::TextWithoutLanguage(s) => s,
        _ => debug_text(v),
    }
}

/// The texts of all values of a multi-valued attribute (one text for a single value).
pub open spec fn keyword_texts(v: IppValueView) -> Seq<Seq<char>> {
    match v {
        IppValueView::Array(items) => Seq::new(items.len(), |i: int| keyword_text(items[i])),
        _ => seq![keyword_text(v)],
    }
}

/// The text of a keyword-like value; any other value as its debug rendering.
pub fn ipp_keyword(value: &IppValue) -> (r: String)
    ensures
        r@ == keyword_text(value@),
{
    match value {
        IppValue::Keyword(s) => s.clone(),
        IppValue::MimeMediaType(s) => s.clone(),
        IppValue::NameWithoutLanguage(s) => s.clone(),
        IppValue::TextWithoutLanguage(s) => s.clone(),
        _ => {
            let mut out = String::new();
            push_debug_text(&mut out, value);
            assert(out@ =~= debug_text(value@));
            out
        },
    }
}

/// Extract all keyword/text values from a scalar or Array IPP value.
pub fn ipp_keywords(value: &IppValue) -> (r: Vec<String>)
    ensures
        crate::text::views(r@) == keyword_texts(value@),
{
    match value {
        IppValue::Array(items) => {
            let mut out: Vec<String> = Vec::new();
            let mut i: usize = 0;
            while i < items.len()
                invariant
                    i <= items@.len(),
                    out@.len() == i,
                    forall|k: int| 0 <= k < i ==> #[trigger] out@[k]@ == keyword_text(items@[k]@),
                decreases items@.len() - i,
            {
                out.push(ipp_keyword(&items[i]));
                i = i + 1;
            }
            proof {
                lemma_array_view(*value);
            }
            assert(crate::text::views(out@) =~= keyword_texts(value@));
            out
        },
        _ => {
            let mut out: Vec<String> = Vec::new();
            out.push(ipp_keyword(value));
            assert(crate::text::views(out@) =~= keyword_texts(value@));
            out
        },
    }
}

/// The printer state named by an IPP `printer-state` value.
pub open spec fn printer_state_text(v: IppValueView) -> Seq<char> {
    match v {
        IppValueView::Enum(n) => if n == 3 {
            "idle"@
        } else if n == 4 {
            "processing"@
        } else if n == 5 {
            "stopped"@
        } else {
            "unknown("@ + signed_decimal(n as int) + ")"@
        },
        _ => "unknown"@,
    }
}

/// The printer state named by an IPP `printer-state` value.
pub fn printer_state_str(value: &IppValue) -> (r: String)
    ensures
        r@ == printer_state_text(value@),
{
    match value {
        IppValue::Enum(n) => {
            if *n == 3 {
                crate::text::owned("idle")
            } else if *n == 4 {
                crate::text::owned("processing")
            } else if *n == 5 {
                crate::text::owned("stopped")
            } else {
                let mut out = crate::text::owned("unknown(");
                push_signed_decimal(&mut out, *n as i64);
                push_char(&mut out, ')');
                proof {
                    reveal_strlit(")");
                    assert(")"@ =~= seq![')']);
                }
                assert(out@ =~= printer_state_text(value@));
                out
            }
        },
        _ => crate::text::owned("unknown"),
    }
}

/// The job state named by an IPP `job-state` value.
pub open spec fn job_state_text(v: IppValueView) -> Seq<char> {
    match v {
        IppValueView::Enum(n) => if n == 3 {
            "pending"@
        } else if n == 4 {
            "pending-held"@
        } else if n == 5 {
            "processing"@
        } else if n == 6 {
            "processing-stopped"@
        } else if n == 7 {
            "canceled"@
        } else if n == 8 {
            "aborted"@
        } else if n == 9 {
            "completed"@
        } else {
            "unknown("@ + signed_decimal(n as int) + ")"@
        },
        _ => "unknown"@,
    }
}

/// The job state named by an IPP `job-state` value.
pub fn job_state_str(value: &IppValue) -> (r: String)
    ensures
        r@ == job_state_text(value@),
{
    match value {
        IppValue::Enum(n) => {
            if *n == 3 {
                crate::text::owned("pending")
            } else if *n == 4 {
                crate::text::owned("pending-held")
            } else if *n == 5 {
                crate::text::owned("processing")
            } else if *n == 6 {
                crate::text::owned("processing-stopped")
            } else if *n == 7 {
                crate::text::owned("canceled")
            } else if *n == 8 {
                crate::text::owned("aborted")
            } else if *n == 9 {
                crate::text::owned("completed")
            } else {
                let mut out = crate::text::owned("unknown(");
                push_signed_decimal(&mut out, *n as i64);
                push_text(&mut out, ")");
                assert(out@ =~= job_state_text(value@));
                out
            }
        },
        _ => crate::text::owned("unknown"),
    }
}

} // verus!
