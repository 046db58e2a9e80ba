//! Firehose answers: ACK or NAK, device logs, and the configuration fields
//! that configure and getstorageinfo report.

use crate::text::{opt_view, push_str, str_eq};
use crate::xml::{get_attr, get_attr_u32, get_attr_u64, scan_xml, tag_key, tag_lower, tokens_view, token_view, attrs_view, lookup, num32, num64, xml_scan, xml_unescape, xml_unescaped, AttrView, TokenView, XmlAttr, XmlToken};
use vstd::prelude::*;

verus! {

/// Device configuration returned by configure and getstorageinfo answers.
#[derive(Debug)]
pub struct FirehoseConfig {
    pub memory_name: Option<String>,
    pub sector_size: Option<u32>,
    pub max_payload_size: Option<u32>,
    pub max_payload_size_from_target: Option<u32>,
    pub max_payload_size_to_target_supported: Option<u32>,
    pub max_xml_size: Option<u32>,
    pub target_name: Option<String>,
    pub version: Option<String>,
    pub total_sectors: Option<u64>,
    pub num_partition_sectors: Option<u64>,
    pub physical_partition_number: Option<u8>,
}

#[derive(Debug, Clone, Copy, PartialEq, Eq, Structural)]
pub enum ResponseValue {
    Ack,
    Nak,
}

#[derive(Debug)]
pub struct FirehoseResponse {
    pub value: ResponseValue,
    pub raw_mode: bool,
    /// The error message of a NAK: its first log message; `None` on an ACK.
    pub error: Option<String>,
    /// The messages of the `<log>` tags.
    pub logs: Vec<String>,
    /// Device configuration fields.
    pub config: FirehoseConfig,
}

pub struct ConfigView {
    pub memory_name: Option<Seq<char>>,
    pub sector_size: Option<u32>,
    pub max_payload_size: Option<u32>,
    pub max_payload_size_from_target: Option<u32>,
    pub max_payload_size_to_target_supported: Option<u32>,
    pub max_xml_size: Option<u32>,
    pub target_name: Option<Seq<char>>,
    pub version: Option<Seq<char>>,
    pub total_sectors: Option<u64>,
    pub num_partition_sectors: Option<u64>,
    pub physical_partition_number: Option<u8>,
}

/// What a reading of the answer has gathered so far.
pub struct ReadState {
    pub value: ResponseValue,
    pub raw_mode: bool,
    /// The first log message, by attribute or by text.
    pub first_log: Option<Seq<char>>,
    pub logs: Seq<Seq<char>>,
    pub config: ConfigView,
    pub in_log: bool,
    pub log_text: Seq<char>,
}

pub open spec fn strings_view(v: Seq<String>) -> Seq<Seq<char>> {
    v.map_values(|s: String| s@)
}

pub open spec fn config_view(c: FirehoseConfig) -> ConfigView {
    ConfigView {
        memory_name: opt_view(c.memory_name),
        sector_size: c.sector_size,
        max_payload_size: c.max_payload_size,
        max_payload_size_from_target: c.max_payload_size_from_target,
        max_payload_size_to_target_supported: c.max_payload_size_to_target_supported,
        max_xml_size: c.max_xml_size,
        target_name: opt_view(c.target_name),
        version: opt_view(c.version),
        total_sectors: c.total_sectors,
        num_partition_sectors: c.num_partition_sectors,
        physical_partition_number: c.physical_partition_number,
    }
}

pub open spec fn empty_config() -> ConfigView {
    ConfigView {
        memory_name: None,
        sector_size: None,
        max_payload_size: None,
        max_payload_size_from_target: None,
        max_payload_size_to_target_supported: None,
        max_xml_size: None,
        target_name: None,
        version: None,
        total_sectors: None,
        num_partition_sectors: None,
        physical_partition_number: None,
    }
}

pub open spec fn either<T>(x: Option<T>, y: Option<T>) -> Option<T> {
    if x is Some {
        x
    } else {
        y
    }
}

/// Whether a tag key names the memory.
pub open spec fn is_memory_key(tk: Seq<char>) -> bool {
    tk == "memory"@ || tk == "memoryname"@
}

/// The memory name that a memory tag gives.
pub open spec fn memory_attr(a: Seq<AttrView>) -> Option<Seq<char>> {
    either(lookup(a, "name"), either(lookup(a, "MemoryName"), lookup(a, "memory")))
}

/// The sector size that a tag gives.
pub open spec fn sector_size_attr(a: Seq<AttrView>) -> Option<u32> {
    either(num32(a, "SECTOR_SIZE_IN_BYTES"), either(num32(a, "sector_size"), num32(a, "SectorSize")))
}

/// The maximum payload size (to the target) that a tag gives.
pub open spec fn max_payload_attr(a: Seq<AttrView>) -> Option<u32> {
    either(
        num32(a, "MaxPayloadSizeToTargetInBytes"),
        either(num32(a, "MaxPayloadSizeToTarget"), either(num32(a, "max_payload_size"), num32(a, "MaxPayloadSize"))),
    )
}

/// The total sector count that a tag gives.
pub open spec fn total_sectors_attr(a: Seq<AttrView>) -> Option<u64> {
    either(num64(a, "total_sectors"), either(num64(a, "TotalSectors"), num64(a, "num_partition_sectors")))
}

/// The physical partition number that a tag gives, truncated to a byte.
pub open spec fn partition_number_attr(a: Seq<AttrView>) -> Option<u8> {
    match either(num32(a, "physical_partition_number"), num32(a, "PhysicalPartitionNumber")) {
        Some(v) => Some(v as u8),
        None => None,
    }
}

/// The configuration after a tag with attributes `a` (`is_mem`: a memory
/// tag): the memory name follows each memory tag, every other field keeps
/// the first value any tag gives it.
pub open spec fn config_step(c: ConfigView, is_mem: bool, a: Seq<AttrView>) -> ConfigView {
    ConfigView {
        memory_name: if is_mem { memory_attr(a) } else { c.memory_name },
        sector_size: either(c.sector_size, sector_size_attr(a)),
        max_payload_size: either(c.max_payload_size, max_payload_attr(a)),
        max_payload_size_from_target: either(
            c.max_payload_size_from_target,
            num32(a, "MaxPayloadSizeFromTargetInBytes"),
        ),
        max_payload_size_to_target_supported: either(
            c.max_payload_size_to_target_supported,
            num32(a, "MaxPayloadSizeToTargetInBytesSupported"),
        ),
        max_xml_size: either(c.max_xml_size, num32(a, "MaxXMLSizeInBytes")),
        target_name: either(c.target_name, lookup(a, "TargetName")),
        version: either(c.version, lookup(a, "Version")),
        total_sectors: either(c.total_sectors, total_sectors_attr(a)),
        num_partition_sectors: either(c.num_partition_sectors, num64(a, "num_partition_sectors")),
        physical_partition_number: either(c.physical_partition_number, partition_number_attr(a)),
    }
}

/// The state after a start or empty-element tag.
pub open spec fn tag_step(s: ReadState, tk: Seq<char>, a: Seq<AttrView>) -> ReadState {
    let s1 = if tk == "response"@ || tk == "data"@ {
        ReadState {
            value: match lookup(a, "value") {
                Some(v) => if v == "ACK"@ {
                    ResponseValue::Ack
                } else if v == "NAK"@ {
                    ResponseValue::Nak
                } else {
                    s.value
                },
                None => s.value,
            },
            raw_mode: match lookup(a, "rawmode") {
                Some(v) => v == "true"@,
                None => s.raw_mode,
            },
            ..s
        }
    } else {
        s
    };
    let s2 = if tk == "log"@ {
        match lookup(a, "value") {
            Some(v) => ReadState {
                in_log: true,
                log_text: Seq::empty(),
                first_log: either(s1.first_log, Some(v)),
                logs: s1.logs.push(v),
                ..s1
            },
            None => ReadState { in_log: true, log_text: Seq::empty(), ..s1 },
        }
    } else {
        s1
    };
    ReadState { config: config_step(s2.config, is_memory_key(tk), a), ..s2 }
}

/// The state after one reader event.
pub open spec fn read_step(s: ReadState, t: TokenView) -> ReadState {
    match t {
        TokenView::Tag(_, name, attrs) => tag_step(s, tag_key(name), attrs),
        TokenView::Chars(raw) => if s.in_log && xml_unescaped(raw) is Some {
            ReadState { log_text: s.log_text + xml_unescaped(raw).unwrap(), ..s }
        } else {
            s
        },
        TokenView::Close(name) => if tag_key(name) == "log"@ {
            let s1 = if s.in_log && s.log_text.len() > 0 {
                ReadState {
                    logs: s.logs.push(s.log_text),
                    first_log: either(s.first_log, Some(s.log_text)),
                    ..s
                }
            } else {
                s
            };
            ReadState { in_log: false, log_text: Seq::empty(), ..s1 }
        } else {
            s
        },
        TokenView::Other => s,
    }
}

pub open spec fn initial_read_state() -> ReadState {
    ReadState {
        value: ResponseValue::Ack,
        raw_mode: false,
        first_log: None,
        logs: Seq::empty(),
        config: empty_config(),
        in_log: false,
        log_text: Seq::empty(),
    }
}

/// The state after every event of `toks`.
pub open spec fn read_all(toks: Seq<TokenView>) -> ReadState
    decreases toks.len(),
{
    if toks.len() == 0 {
        initial_read_state()
    } else {
        read_step(read_all(toks.drop_last()), toks.last())
    }
}

/// What reading the document `xml` gathers, or `None` where the reader
/// fails on it.
pub open spec fn parsed_response(xml: Seq<char>) -> Option<ReadState> {
    match xml_scan(xml) {
        Some(toks) => Some(read_all(toks)),
        None => None,
    }
}

/// `r` is the answer gathered in `s`.
pub open spec fn response_is(r: FirehoseResponse, s: ReadState) -> bool {
    &&& r.value == s.value
    &&& r.raw_mode == s.raw_mode
    &&& opt_view(r.error) == (if s.value == ResponseValue::Nak {
        s.first_log
    } else {
        None
    })
    &&& strings_view(r.logs@) == s.logs
    &&& config_view(r.config) == s.config
}

struct ResponseReader {
    value: ResponseValue,
    raw_mode: bool,
    first_log: Option<String>,
    logs: Vec<String>,
    config: FirehoseConfig,
    in_log: bool,
    log_text: String,
}

impl ResponseReader {
    spec fn state(&self) -> ReadState {
        ReadState {
            value: self.value,
            raw_mode: self.raw_mode,
            first_log: opt_view(self.first_log),
            logs: strings_view(self.logs@),
            config: config_view(self.config),
            in_log: self.in_log,
            log_text: self.log_text@,
        }
    }
}

fn first_of(x: Option<String>, y: Option<String>) -> (r: Option<String>)
    ensures
        opt_view(r) == either(opt_view(x), opt_view(y)),
{
    if x.is_some() {
        x
    } else {
        y
    }
}

fn first_of32(x: Option<u32>, y: Option<u32>) -> (r: Option<u32>)
    ensures
        r == either(x, y),
{
    if x.is_some() {
        x
    } else {
        y
    }
}

fn first_of64(x: Option<u64>, y: Option<u64>) -> (r: Option<u64>)
    ensures
        r == either(x, y),
{
    if x.is_some() {
        x
    } else {
        y
    }
}

fn opt_u32(a: &Vec<Option<XmlAttr>>, name: &str) -> (r: Option<u32>)
    ensures
        r == num32(attrs_view(a@), name),
{
    get_attr_u32(a, name)
}

fn opt_u64(a: &Vec<Option<XmlAttr>>, name: &str) -> (r: Option<u64>)
    ensures
        r == num64(attrs_view(a@), name),
{
    get_attr_u64(a, name)
}

fn opt_str(a: &Vec<Option<XmlAttr>>, name: &str) -> (r: Option<String>)
    ensures
        opt_view(r) == lookup(attrs_view(a@), name),
{
    get_attr(a, name)
}

fn memory_of(a: &Vec<Option<XmlAttr>>) -> (r: Option<String>)
    ensures
        opt_view(r) == memory_attr(attrs_view(a@)),
{
    first_of(opt_str(a, "name"), first_of(opt_str(a, "MemoryName"), opt_str(a, "memory")))
}

fn sector_size_of(a: &Vec<Option<XmlAttr>>) -> (r: Option<u32>)
    ensures
        r == sector_size_attr(attrs_view(a@)),
{
    first_of32(opt_u32(a, "SECTOR_SIZE_IN_BYTES"), first_of32(opt_u32(a, "sector_size"), opt_u32(a, "SectorSize")))
}

fn max_payload_of(a: &Vec<Option<XmlAttr>>) -> (r: Option<u32>)
    ensures
        r == max_payload_attr(attrs_view(a@)),
{
    first_of32(
        opt_u32(a, "MaxPayloadSizeToTargetInBytes"),
        first_of32(opt_u32(a, "MaxPayloadSizeToTarget"), first_of32(opt_u32(a, "max_payload_size"), opt_u32(a, "MaxPayloadSize"))),
    )
}

fn total_sectors_of(a: &Vec<Option<XmlAttr>>) -> (r: Option<u64>)
    ensures
        r == total_sectors_attr(attrs_view(a@)),
{
    first_of64(opt_u64(a, "total_sectors"), first_of64(opt_u64(a, "TotalSectors"), opt_u64(a, "num_partition_sectors")))
}

fn partition_number_of(a: &Vec<Option<XmlAttr>>) -> (r: Option<u8>)
    ensures
        r == partition_number_attr(attrs_view(a@)),
{
    match first_of32(opt_u32(a, "physical_partition_number"), opt_u32(a, "PhysicalPartitionNumber")) {
        Some(v) => Some(v as u8),
        None => None,
    }
}

fn step_config(c: &mut FirehoseConfig, is_memory: bool, a: &Vec<Option<XmlAttr>>)
    ensures
        config_view(*final(c)) == config_step(config_view(*old(c)), is_memory, attrs_view(a@)),
{
    if is_memory {
        c.memory_name = memory_of(a);
    }
    if c.sector_size.is_none() {
        c.sector_size = sector_size_of(a);
    }
    if c.max_payload_size.is_none() {
        c.max_payload_size = max_payload_of(a);
    }
    if c.max_payload_size_from_target.is_none() {
        c.max_payload_size_from_target = opt_u32(a, "MaxPayloadSizeFromTargetInBytes");
    }
    if c.max_payload_size_to_target_supported.is_none() {
        c.max_payload_size_to_target_supported = opt_u32(a, "MaxPayloadSizeToTargetInBytesSupported");
    }
    if c.max_xml_size.is_none() {
        c.max_xml_size = opt_u32(a, "MaxXMLSizeInBytes");
    }
    if c.target_name.is_none() {
        c.target_name = opt_str(a, "TargetName");
    }
    if c.version.is_none() {
        c.version = opt_str(a, "Version");
    }
    if c.total_sectors.is_none() {
        c.total_sectors = total_sectors_of(a);
    }
    if c.num_partition_sectors.is_none() {
        c.num_partition_sectors = opt_u64(a, "num_partition_sectors");
    }
    if c.physical_partition_number.is_none() {
        c.physical_partition_number = partition_number_of(a);
    }
}

impl ResponseReader {
    fn new() -> (r: ResponseReader)
        ensures
            r.state() == initial_read_state(),
    {
        let r = ResponseReader {
            value: ResponseValue::Ack,
            raw_mode: false,
            first_log: None,
            logs: Vec::new(),
            config: FirehoseConfig::default(),
            in_log: false,
            log_text: String::new(),
        };
        assert(strings_view(r.logs@) =~= Seq::<Seq<char>>::empty());
        r
    }

    fn on_tag(&mut self, name: &Vec<u8>, attrs: &Vec<Option<XmlAttr>>)
        ensures
            final(self).state() == tag_step(old(self).state(), tag_key(name@), attrs_view(attrs@)),
    {
        let key = tag_lower(name);
        if str_eq(key.as_str(), "response") || str_eq(key.as_str(), "data") {
            match opt_str(attrs, "value") {
                Some(v) => {
                    if str_eq(v.as_str(), "ACK") {
                        self.value = ResponseValue::Ack;
                    } else if str_eq(v.as_str(), "NAK") {
                        self.value = ResponseValue::Nak;
                    }
                },
                None => {},
            }
            match opt_str(attrs, "rawmode") {
                Some(v) => {
                    self.raw_mode = str_eq(v.as_str(), "true");
                },
                None => {},
            }
        }
        if str_eq(key.as_str(), "log") {
            self.in_log = true;
            self.log_text = String::new();
            match opt_str(attrs, "value") {
                Some(v) => {
                    if self.first_log.is_none() {
                        self.first_log = Some(v.clone());
                    }
                    let ghost before = self.logs@;
                    self.logs.push(v);
                    assert(strings_view(self.logs@) =~= strings_view(before).push(v@));
                },
                None => {},
            }
        }
        let is_mem = str_eq(key.as_str(), "memory") || str_eq(key.as_str(), "memoryname");
        step_config(&mut self.config, is_mem, attrs);
    }

    fn on_text(&mut self, raw: &Vec<u8>)
        ensures
            final(self).state() == read_step(old(self).state(), TokenView::Chars(raw@)),
    {
        if self.in_log {
            match xml_unescape(raw.as_slice()) {
                Some(t) => push_str(&mut self.log_text, t.as_str()),
                None => {},
            }
        }
    }

    fn on_end(&mut self, name: &Vec<u8>)
        ensures
            final(self).state() == read_step(old(self).state(), TokenView::Close(name@)),
    {
        let key = tag_lower(name);
        if str_eq(key.as_str(), "log") {
            if self.in_log && !self.log_text.as_str().is_empty() {
                let ghost before = self.logs@;
                self.logs.push(self.log_text.clone());
                assert(strings_view(self.logs@) =~= strings_view(before).push(self.log_text@));
                if self.first_log.is_none() {
                    self.first_log = Some(self.log_text.clone());
                }
            }
            self.in_log = false;
            self.log_text = String::new();
        }
    }

    fn on_token(&mut self, t: &XmlToken)
        ensures
            final(self).state() == read_step(old(self).state(), token_view(*t)),
    {
        match t {
            XmlToken::Tag(_, name, attrs) => self.on_tag(name, attrs),
            XmlToken::Chars(raw) => self.on_text(raw),
            XmlToken::Close(name) => self.on_end(name),
            XmlToken::Other => {},
        }
    }

    fn finish(self) -> (r: FirehoseResponse)
        ensures
            response_is(r, self.state()),
    {
        FirehoseResponse {
            value: self.value,
            raw_mode: self.raw_mode,
            error: match self.value {
                ResponseValue::Nak => self.first_log,
                ResponseValue::Ack => None,
            },
            logs: self.logs,
            config: self.config,
        }
    }
}

impl Default for FirehoseConfig {
    fn default() -> (r: FirehoseConfig)
        ensures
            config_view(r) == empty_config(),
    {
        FirehoseConfig {
            memory_name: None,
            sector_size: None,
            max_payload_size: None,
            max_payload_size_from_target: None,
            max_payload_size_to_target_supported: None,
            max_xml_size: None,
            target_name: None,
            version: None,
            total_sectors: None,
            num_partition_sectors: None,
            physical_partition_number: None,
        }
    }
}

impl FirehoseResponse {
    /// The answer that the reader events `tokens` make up.
    pub fn from_tokens(tokens: &Vec<XmlToken>) -> (r: FirehoseResponse)
        ensures
            response_is(r, read_all(tokens_view(tokens@))),
    {
        let mut rd = ResponseReader::new();
        let mut i: usize = 0;
        while i < tokens.len()
            invariant
                i <= tokens@.len(),
                rd.state() == read_all(tokens_view(tokens@.subrange(0, i as int))),
            decreases tokens@.len() - i,
        {
            rd.on_token(&tokens[i]);
            proof {
                let pre = tokens@.subrange(0, i as int);
                let next = tokens@.subrange(0, i + 1);
                assert(next.drop_last() =~= pre);
                assert(tokens_view(next).drop_last() =~= tokens_view(pre));
            }
            i = i + 1;
        }
        assert(tokens@.subrange(0, tokens@.len() as int) =~= tokens@);
        rd.finish()
    }

    /// Reads a Firehose answer. On malformed XML the error is
    /// `XML parse error: ` and the reader's message.
    pub fn from_xml(xml: &str) -> (r: Result<FirehoseResponse, String>)
        ensures
            match r {
                Ok(resp) => match parsed_response(xml@) {
                    Some(s) => response_is(resp, s),
                    None => false,
                },
                Err(e) => parsed_response(xml@) is None && e@.len() >= 17 && e@.subrange(0, 17)
                    == "XML parse error: "@,
            },
    {
        match scan_xml(xml) {
            Ok(tokens) => Ok(FirehoseResponse::from_tokens(&tokens)),
            Err(msg) => {
                let mut e = String::new();
                push_str(&mut e, "XML parse error: ");
                push_str(&mut e, msg.as_str());
                proof {
                    reveal_strlit("XML parse error: ");
                }
                assert(e@.subrange(0, 17) =~= "XML parse error: "@);
                Err(e)
            },
        }
    }

    pub fn is_ack(&self) -> (r: bool)
        ensures
            r == (self.value == ResponseValue::Ack),
    {
        match self.value {
            ResponseValue::Ack => true,
            ResponseValue::Nak => false,
        }
    }

    pub fn is_nak(&self) -> (r: bool)
        ensures
            r == (self.value == ResponseValue::Nak),
    {
        match self.value {
            ResponseValue::Ack => false,
            ResponseValue::Nak => true,
        }
    }

    pub fn memory_name(&self) -> (r: Option<&str>)
        ensures
            match r {
                Some(s) => self.config.memory_name is Some && self.config.memory_name.unwrap()@ == s@,
                None => self.config.memory_name is None,
            },
    {
        match &self.config.memory_name {
            Some(s) => Some(s.as_str()),
            None => None,
        }
    }

    pub fn sector_size(&self) -> (r: Option<u32>)
        ensures
            r == self.config.sector_size,
    {
        self.config.sector_size
    }

    pub fn total_sectors(&self) -> (r: Option<u64>)
        ensures
            r == self.config.total_sectors,
    {
        self.config.total_sectors
    }

    pub fn max_payload_size(&self) -> (r: Option<u32>)
        ensures
            r == self.config.max_payload_size,
    {
        self.config.max_payload_size
    }

    pub fn max_payload_size_from_target(&self) -> (r: Option<u32>)
        ensures
            r == self.config.max_payload_size_from_target,
    {
        self.config.max_payload_size_from_target
    }

    pub fn max_payload_size_to_target_supported(&self) -> (r: Option<u32>)
        ensures
            r == self.config.max_payload_size_to_target_supported,
    {
        self.config.max_payload_size_to_target_supported
    }

    pub fn max_xml_size(&self) -> (r: Option<u32>)
        ensures
            r == self.config.max_xml_size,
    {
        self.config.max_xml_size
    }

    pub fn target_name(&self) -> (r: Option<&str>)
        ensures
            match r {
                Some(s) => self.config.target_name is Some && self.config.target_name.unwrap()@ == s@,
                None => self.config.target_name is None,
            },
    {
        match &self.config.target_name {
            Some(s) => Some(s.as_str()),
            None => None,
        }
    }

    pub fn version(&self) -> (r: Option<&str>)
        ensures
            match r {
                Some(s) => self.config.version is Some && self.config.version.unwrap()@ == s@,
                None => self.config.version is None,
            },
    {
        match &self.config.version {
            Some(s) => Some(s.as_str()),
            None => None,
        }
    }

    pub fn num_partition_sectors(&self) -> (r: Option<u64>)
        ensures
            r == self.config.num_partition_sectors,
    {
        self.config.num_partition_sectors
    }

    pub fn physical_partition_number(&self) -> (r: Option<u8>)
        ensures
            r == self.config.physical_partition_number,
    {
        self.config.physical_partition_number
    }
}

} // verus!

verus! {

/// The reader event is a response or data tag, which may set the answer's
/// value.
pub open spec fn is_answer_tag(t: TokenView) -> bool {
    match t {
        TokenView::Tag(_, name, _) => tag_key(name) == "response"@ || tag_key(name) == "data"@,
        _ => false,
    }
}

/// An answer is an ACK unless a response or data tag says otherwise: a
/// document without such a tag reads as an ACK.
pub proof fn lemma_ack_by_default(toks: Seq<TokenView>)
    requires
        forall|i: int| 0 <= i < toks.len() ==> !is_answer_tag(#[trigger] toks[i]),
    ensures
        read_all(toks).value == ResponseValue::Ack,
        read_all(toks).raw_mode == false,
    decreases toks.len(),
{
    if toks.len() > 0 {
        let pre = toks.drop_last();
        assert forall|i: int| 0 <= i < pre.len() implies !is_answer_tag(#[trigger] pre[i]) by {
            assert(pre[i] == toks[i]);
        }
        lemma_ack_by_default(pre);
        assert(!is_answer_tag(toks[toks.len() - 1]));
    }
}

/// The fields that keep their first value are kept from `a` to `b`.
pub open spec fn keeps_first(a: ConfigView, b: ConfigView) -> bool {
    &&& a.sector_size is Some ==> b.sector_size == a.sector_size
    &&& a.max_payload_size is Some ==> b.max_payload_size == a.max_payload_size
    &&& a.max_xml_size is Some ==> b.max_xml_size == a.max_xml_size
    &&& a.target_name is Some ==> b.target_name == a.target_name
    &&& a.version is Some ==> b.version == a.version
    &&& a.total_sectors is Some ==> b.total_sectors == a.total_sectors
    &&& a.num_partition_sectors is Some ==> b.num_partition_sectors == a.num_partition_sectors
}

proof fn lemma_step_keeps_first(s: ReadState, t: TokenView)
    ensures
        keeps_first(s.config, read_step(s, t).config),
{
    match t {
        TokenView::Tag(_, name, attrs) => {
            let tk = tag_key(name);
            let st = tag_step(s, tk, attrs);
            assert(st.config == config_step(s.config, is_memory_key(tk), attrs));
        },
        _ => {},
    }
}

/// Once a configuration field has a value, later tags keep it: the first
/// tag that gives the sector size, payload size, XML size, target, version
/// or sector counts decides.
pub proof fn lemma_first_value_kept(toks: Seq<TokenView>, k: int)
    requires
        0 <= k <= toks.len(),
    ensures
        keeps_first(read_all(toks.subrange(0, k)).config, read_all(toks).config),
    decreases toks.len() - k,
{
    if k < toks.len() {
        lemma_first_value_kept(toks, k + 1);
        let a = toks.subrange(0, k);
        let b = toks.subrange(0, k + 1);
        assert(b.drop_last() =~= a);
        lemma_step_keeps_first(read_all(a), b.last());
    } else {
        assert(toks.subrange(0, k) =~= toks);
    }
}

/// Only a NAK carries an error message; on a NAK it is the first log
/// message.
pub proof fn lemma_error_only_on_nak(r: FirehoseResponse, s: ReadState)
    requires
        response_is(r, s),
    ensures
        r.error is Some ==> r.value == ResponseValue::Nak,
        r.value == ResponseValue::Nak ==> opt_view(r.error) == s.first_log,
{
}

} // verus!
