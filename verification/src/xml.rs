//! XML read through quick-xml: the reader's events as plain tokens, and
//! attribute lookup over them.

use crate::num::{parse_unsigned, parsed_unsigned};
use crate::text::{lowercased, str_to_lowercase, utf8_lossy, utf8_to_string_lossy};
use quick_xml::events::Event::{Empty, End, Eof, Start, Text};
use quick_xml::Reader;
use XmlToken::{Chars, Close, Other, Tag};
use vstd::prelude::*;
use vstd::string::StringSliceAdditionalSpecFns;

verus! {

/// One attribute as the reader found it: raw name and raw (escaped) value.
pub type XmlAttr = (Vec<u8>, Vec<u8>);

/// One reader event.
#[derive(Debug, Clone)]
pub enum XmlToken {
    /// A start tag, or an empty-element tag (`true`), with its raw name and
    /// its attributes in order; `None` marks an attribute the reader could
    /// not read.
    Tag(bool, Vec<u8>, Vec<Option<XmlAttr>>),
    /// An end tag with its raw name.
    Close(Vec<u8>),
    /// Raw (escaped) text.
    Chars(Vec<u8>),
    /// Any other event: comments, CDATA, declarations, processing
    /// instructions, doctypes.
    Other,
}

/// An attribute as plain values.
pub type AttrView = Option<(Seq<u8>, Seq<u8>)>;

/// A token as plain values.
pub enum TokenView {
    Tag(bool, Seq<u8>, Seq<AttrView>),
    Close(Seq<u8>),
    Chars(Seq<u8>),
    Other,
}

pub open spec fn attr_view(a: Option<XmlAttr>) -> AttrView {
    match a {
        Some(x) => Some((x.0@, x.1@)),
        None => None,
    }
}

pub open spec fn attrs_view(a: Seq<Option<XmlAttr>>) -> Seq<AttrView> {
    a.map_values(|x: Option<XmlAttr>| attr_view(x))
}

pub open spec fn token_view(t: XmlToken) -> TokenView {
    match t {
        XmlToken::Tag(empty, name, attrs) => TokenView::Tag(empty, name@, attrs_view(attrs@)),
        XmlToken::Close(n) => TokenView::Close(n@),
        XmlToken::Chars(t) => TokenView::Chars(t@),
        XmlToken::Other => TokenView::Other,
    }
}

pub open spec fn tokens_view(v: Seq<XmlToken>) -> Seq<TokenView> {
    v.map_values(|t: XmlToken| token_view(t))
}

/// The events quick-xml's reader yields for `input` up to the end of input,
/// or `None` when it stops on an error first.
pub uninterp spec fn xml_scan(input: Seq<char>) -> Option<Seq<TokenView>>;

/// Reads `xml` with quick-xml (`Reader::from_str`, then `read_event` until
/// the end of input) and hands back every event as a token, attributes read
/// as `try_get_attribute` reads them (without the duplicate check). On a
/// reader error the error's text is returned; what that text says is left
/// unsaid.
#[verifier::external_body]
pub(crate) fn scan_xml(xml: &str) -> (r: Result<Vec<XmlToken>, String>)
    ensures
        match r {
            Ok(v) => xml_scan(xml@) == Some(tokens_view(v@)),
            Err(_) => xml_scan(xml@) is None,
        },
{
    let mut rd = Reader::from_str(xml);
    let mut out = Vec::new();
    loop {
        let ev = rd.read_event().map_err(|e| e.to_string())?;
        let empty = matches!(ev, Empty(_));
        out.push(match ev {
            Start(e) | Empty(e) => Tag(empty, e.name().0.into(), e.attributes().with_checks(false).map(|a| a.ok().map(|a| (a.key.0.into(), a.value.into()))).collect()),
            End(e) => Close(e.name().0.into()),
            Text(t) => Chars(t.to_vec()),
            Eof => return Ok(out),
            _ => Other,
        });
    }
}

/// The text of raw XML content: decoded as UTF-8, then with the predefined
/// entities and character references replaced, as quick-xml's
/// `escape::unescape` does; `None` when either step fails.
pub uninterp spec fn xml_unescaped(raw: Seq<u8>) -> Option<Seq<char>>;

/// Decodes and unescapes raw XML content (`std::str::from_utf8`, then
/// `quick_xml::escape::unescape`), as quick-xml's `unescape_value` and
/// `BytesText::unescape` do for UTF-8 input.
#[verifier::external_body]
pub(crate) fn xml_unescape(raw: &[u8]) -> (r: Option<String>)
    ensures
        match r {
            Some(s) => xml_unescaped(raw@) == Some(s@),
            None => xml_unescaped(raw@) is None,
        },
{
    std::str::from_utf8(raw).ok().and_then(|s| quick_xml::escape::unescape(s).ok()).map(|c| c.into_owned())
}

/// The value of attribute `key`, looked up as quick-xml's
/// `try_get_attribute` looks it up: the first attribute with that name
/// decides, and an unreadable attribute before it makes the lookup fail.
pub open spec fn attr_lookup(attrs: Seq<AttrView>, key: Seq<u8>) -> Option<Seq<char>>
    decreases attrs.len(),
{
    if attrs.len() == 0 {
        None
    } else {
        match attrs[0] {
            None => None,
            Some((k, v)) => if k == key {
                xml_unescaped(v)
            } else {
                attr_lookup(attrs.drop_first(), key)
            },
        }
    }
}

/// `a == b` on byte slices.
pub fn bytes_eq(a: &[u8], b: &[u8]) -> (r: bool)
    ensures
        r == (a@ == b@),
{
    if a.len() != b.len() {
        return false;
    }
    let mut i: usize = 0;
    while i < a.len()
        invariant
            a@.len() == b@.len(),
            i <= a@.len(),
            forall|k: int| 0 <= k < i ==> a@[k] == b@[k],
        decreases a@.len() - i,
    {
        if a[i] != b[i] {
            return false;
        }
        i = i + 1;
    }
    assert(a@ =~= b@);
    true
}

/// The unescaped value of attribute `name`, if present and readable.
pub fn get_attr(attrs: &Vec<Option<XmlAttr>>, name: &str) -> (r: Option<String>)
    ensures
        match r {
            Some(s) => attr_lookup(attrs_view(attrs@), name.spec_bytes()) == Some(s@),
            None => attr_lookup(attrs_view(attrs@), name.spec_bytes()) is None,
        },
{
    let key = name.as_bytes();
    let ghost all = attrs_view(attrs@);
    let mut i: usize = 0;
    assert(all.subrange(0, all.len() as int) =~= all);
    while i < attrs.len()
        invariant
            i <= attrs@.len(),
            all == attrs_view(attrs@),
            key@ == name.spec_bytes(),
            attr_lookup(all, key@) == attr_lookup(all.subrange(i as int, all.len() as int), key@),
        decreases attrs@.len() - i,
    {
        let ghost rest = all.subrange(i as int, all.len() as int);
        assert(rest[0] == attr_view(attrs@[i as int]));
        match &attrs[i] {
            None => return None,
            Some(a) => {
                if bytes_eq(a.0.as_slice(), key) {
                    return xml_unescape(a.1.as_slice());
                }
            },
        }
        assert(rest.drop_first() =~= all.subrange(i + 1, all.len() as int));
        i = i + 1;
    }
    None
}

/// The value of attribute `name` as a number that fits `max`.
pub open spec fn attr_number(attrs: Seq<AttrView>, name: Seq<u8>, max: nat) -> Option<nat> {
    match attr_lookup(attrs, name) {
        Some(v) => parsed_unsigned(v, 10, max),
        None => None,
    }
}

/// The value of attribute `name` as a `u32`.
pub fn get_attr_u32(attrs: &Vec<Option<XmlAttr>>, name: &str) -> (r: Option<u32>)
    ensures
        match r {
            Some(v) => attr_number(attrs_view(attrs@), name.spec_bytes(), u32::MAX as nat) == Some(
                v as nat,
            ),
            None => attr_number(attrs_view(attrs@), name.spec_bytes(), u32::MAX as nat) is None,
        },
{
    match get_attr(attrs, name) {
        Some(v) => match parse_unsigned(v.as_str(), 10, u32::MAX as u64) {
            Some(n) => Some(n as u32),
            None => None,
        },
        None => None,
    }
}

/// The value of attribute `name` as a `u64`.
pub fn get_attr_u64(attrs: &Vec<Option<XmlAttr>>, name: &str) -> (r: Option<u64>)
    ensures
        match r {
            Some(v) => attr_number(attrs_view(attrs@), name.spec_bytes(), u64::MAX as nat) == Some(
                v as nat,
            ),
            None => attr_number(attrs_view(attrs@), name.spec_bytes(), u64::MAX as nat) is None,
        },
{
    match get_attr(attrs, name) {
        Some(v) => parse_unsigned(v.as_str(), 10, u64::MAX),
        None => None,
    }
}

/// A tag name as the parsers compare it: decoded lossily and lowercased.
pub open spec fn tag_key(name: Seq<u8>) -> Seq<char> {
    lowercased(utf8_lossy(name))
}

/// The lowercased, lossily decoded name of a tag.
pub fn tag_lower(name: &Vec<u8>) -> (r: String)
    ensures
        r@ == tag_key(name@),
{
    str_to_lowercase(utf8_to_string_lossy(name.as_slice()).as_str())
}

/// The unescaped value of attribute `k`.
pub open spec fn lookup(a: Seq<AttrView>, k: &str) -> Option<Seq<char>> {
    attr_lookup(a, k.spec_bytes())
}

/// The value of attribute `k` as a `u32`.
pub open spec fn num32(a: Seq<AttrView>, k: &str) -> Option<u32> {
    match attr_number(a, k.spec_bytes(), u32::MAX as nat) {
        Some(n) => Some(n as u32),
        None => None,
    }
}

/// The value of attribute `k` as a `u64`.
pub open spec fn num64(a: Seq<AttrView>, k: &str) -> Option<u64> {
    match attr_number(a, k.spec_bytes(), u64::MAX as nat) {
        Some(n) => Some(n as u64),
        None => None,
    }
}

/// The value of attribute `k` as a `u8`.
pub open spec fn num8(a: Seq<AttrView>, k: &str) -> Option<u8> {
    match attr_number(a, k.spec_bytes(), u8::MAX as nat) {
        Some(n) => Some(n as u8),
        None => None,
    }
}

/// The value of attribute `name` as a `u8`.
pub fn get_attr_u8(attrs: &Vec<Option<XmlAttr>>, name: &str) -> (r: Option<u8>)
    ensures
        r == num8(attrs_view(attrs@), name),
{
    match get_attr(attrs, name) {
        Some(v) => match parse_unsigned(v.as_str(), 10, 255) {
            Some(n) => Some(n as u8),
            None => None,
        },
        None => None,
    }
}

} // verus!
