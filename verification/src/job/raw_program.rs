//! The job layer's rawprogram reader: `<program>` entries with their
//! sector range, file and flags, read strictly (a bad value fails).

use crate::num::{parsed_unsigned, u64_from_str_radix, u8_from_str_radix};
use crate::text::{dec_str, push_dec, push_str, str_eq, to_owned_string, utf8_lossy};
use crate::xml::{attrs_view, bytes_eq, scan_xml, token_view, tokens_view, xml_scan, AttrView, TokenView, XmlAttr, XmlToken};
use vstd::prelude::*;
use vstd::string::StringSliceAdditionalSpecFns;

verus! {

#[verifier::external_type_specification]
#[verifier::external_body]
pub struct ExFromUtf8Error(std::string::FromUtf8Error);

#[derive(Debug)]
pub enum ParseError {
    /// The reader's message.
    Xml(String),
    Io(std::io::Error),
    Utf8(std::string::FromUtf8Error),
    MissingAttribute(String),
    /// The number parser's message.
    InvalidValue(String),
}

#[derive(Debug, Clone)]
pub struct RawEntry {
    pub sector_start: u64,
    pub num_sectors: u64,
    pub file: String,
    pub physical_partition: u8,
    pub sparse: bool,
    pub read_back_verify: bool,
    pub burst_size: Option<u64>,
}

/// An entry as plain values.
pub struct RawEntryView {
    pub sector_start: u64,
    pub num_sectors: u64,
    pub file: Seq<char>,
    pub physical_partition: u8,
    pub sparse: bool,
    pub read_back_verify: bool,
    pub burst_size: Option<u64>,
}

pub open spec fn raw_entry_view(e: RawEntry) -> RawEntryView {
    RawEntryView {
        sector_start: e.sector_start,
        num_sectors: e.num_sectors,
        file: e.file@,
        physical_partition: e.physical_partition,
        sparse: e.sparse,
        read_back_verify: e.read_back_verify,
        burst_size: e.burst_size,
    }
}

/// An entry before any attribute: zeros, no file, no flags.
pub open spec fn blank_entry() -> RawEntryView {
    RawEntryView {
        sector_start: 0,
        num_sectors: 0,
        file: seq![],
        physical_partition: 0,
        sparse: false,
        read_back_verify: false,
        burst_size: None,
    }
}

/// A UTF-8 continuation byte.
pub open spec fn continuation(x: u8) -> bool {
    0x80 <= x <= 0xBF
}

/// The length of the well-formed UTF-8 sequence that `b` starts with, or 0
/// where none starts there (the well-formed byte sequences of the Unicode
/// standard: no overlong forms, no surrogates, nothing above U+10FFFF).
pub open spec fn utf8_seq_len(b: Seq<u8>) -> nat {
    if b.len() == 0 {
        0
    } else if b[0] <= 0x7F {
        1
    } else if 0xC2 <= b[0] <= 0xDF && b.len() >= 2 && continuation(b[1]) {
        2
    } else if b.len() >= 3 && continuation(b[2]) && ((b[0] == 0xE0 && 0xA0 <= b[1] <= 0xBF) || ((0xE1
        <= b[0] <= 0xEC || 0xEE <= b[0] <= 0xEF) && continuation(b[1])) || (b[0] == 0xED && 0x80 <= b[1]
        <= 0x9F)) {
        3
    } else if b.len() >= 4 && continuation(b[2]) && continuation(b[3]) && ((b[0] == 0xF0 && 0x90 <= b[1]
        <= 0xBF) || (0xF1 <= b[0] <= 0xF3 && continuation(b[1])) || (b[0] == 0xF4 && 0x80 <= b[1] <= 0x8F)) {
        4
    } else {
        0
    }
}

/// Whether `b` is valid UTF-8: a run of well-formed sequences.
pub open spec fn utf8_valid(b: Seq<u8>) -> bool
    decreases b.len(),
{
    if b.len() == 0 {
        true
    } else {
        let n = utf8_seq_len(b);
        if n == 0 {
            false
        } else {
            utf8_valid(b.subrange(n as int, b.len() as int))
        }
    }
}

/// `String::from_utf8`: the text of `b` where it is valid UTF-8.
#[verifier::external_body]
fn string_from_utf8(b: Vec<u8>) -> (r: Result<String, std::string::FromUtf8Error>)
    ensures
        match r {
            Ok(s) => utf8_valid(b@) && s@ == utf8_lossy(b@),
            Err(_) => !utf8_valid(b@),
        },
{
    String::from_utf8(b)
}

/// Why an attribute could not be taken.
pub enum AttrFault {
    Utf8,
    Invalid,
}

/// A number attribute's value.
pub open spec fn number_in(raw: Seq<u8>, max: nat) -> Result<nat, AttrFault> {
    if !utf8_valid(raw) {
        Err(AttrFault::Utf8)
    } else {
        match parsed_unsigned(utf8_lossy(raw), 10, max) {
            Some(v) => Ok(v),
            None => Err(AttrFault::Invalid),
        }
    }
}

/// A text attribute's value.
pub open spec fn text_in(raw: Seq<u8>) -> Result<Seq<char>, AttrFault> {
    if !utf8_valid(raw) {
        Err(AttrFault::Utf8)
    } else {
        Ok(utf8_lossy(raw))
    }
}

/// `e` after the attribute `key="raw"` (raw value, not unescaped).
pub open spec fn apply_attr(e: RawEntryView, key: Seq<u8>, raw: Seq<u8>) -> Result<RawEntryView, AttrFault> {
    if key == "SECTOR_START".spec_bytes() {
        match number_in(raw, u64::MAX as nat) {
            Ok(v) => Ok(RawEntryView { sector_start: v as u64, ..e }),
            Err(f) => Err(f),
        }
    } else if key == "NUM_SECTORS".spec_bytes() {
        match number_in(raw, u64::MAX as nat) {
            Ok(v) => Ok(RawEntryView { num_sectors: v as u64, ..e }),
            Err(f) => Err(f),
        }
    } else if key == "file".spec_bytes() {
        match text_in(raw) {
            Ok(t) => Ok(RawEntryView { file: t, ..e }),
            Err(f) => Err(f),
        }
    } else if key == "physical_partition_number".spec_bytes() {
        match number_in(raw, u8::MAX as nat) {
            Ok(v) => Ok(RawEntryView { physical_partition: v as u8, ..e }),
            Err(f) => Err(f),
        }
    } else if key == "sparse".spec_bytes() {
        match text_in(raw) {
            Ok(t) => Ok(RawEntryView { sparse: t == "true"@, ..e }),
            Err(f) => Err(f),
        }
    } else if key == "read_back_verify".spec_bytes() {
        match text_in(raw) {
            Ok(t) => Ok(RawEntryView { read_back_verify: t == "true"@, ..e }),
            Err(f) => Err(f),
        }
    } else if key == "burst_size".spec_bytes() {
        match number_in(raw, u64::MAX as nat) {
            Ok(v) => Ok(RawEntryView { burst_size: Some(v as u64), ..e }),
            Err(f) => Err(f),
        }
    } else {
        Ok(e)
    }
}

/// `e` after the attributes `a` in order; unreadable attributes are
/// skipped, the first fault stops.
pub open spec fn apply_attrs(e: RawEntryView, a: Seq<AttrView>) -> Result<RawEntryView, AttrFault>
    decreases a.len(),
{
    if a.len() == 0 {
        Ok(e)
    } else {
        match apply_attrs(e, a.drop_last()) {
            Ok(e1) => match a.last() {
                Some((k, v)) => apply_attr(e1, k, v),
                None => Ok(e1),
            },
            Err(f) => Err(f),
        }
    }
}

/// The entries read so far, and the one whose start tag is open.
pub type ReadSoFar = (Seq<RawEntryView>, Option<RawEntryView>);

/// The reading after one reader event: a `<program>` start tag opens an
/// entry, an empty-element `<program/>` adds one, a `</program>` end tag
/// adds the open one.
pub open spec fn program_step(s: ReadSoFar, t: TokenView) -> Result<ReadSoFar, AttrFault> {
    match t {
        TokenView::Tag(empty, name, attrs) => if name == "program".spec_bytes() {
            match apply_attrs(blank_entry(), attrs) {
                Ok(e) => if empty {
                    Ok((s.0.push(e), s.1))
                } else {
                    Ok((s.0, Some(e)))
                },
                Err(f) => Err(f),
            }
        } else {
            Ok(s)
        },
        TokenView::Close(name) => if name == "program".spec_bytes() {
            match s.1 {
                Some(e) => Ok((s.0.push(e), None)),
                None => Ok(s),
            }
        } else {
            Ok(s)
        },
        _ => Ok(s),
    }
}

/// The reading after the events `toks`.
pub open spec fn program_read(toks: Seq<TokenView>) -> Result<ReadSoFar, AttrFault>
    decreases toks.len(),
{
    if toks.len() == 0 {
        Ok((seq![], None))
    } else {
        match program_read(toks.drop_last()) {
            Ok(s) => program_step(s, toks.last()),
            Err(f) => Err(f),
        }
    }
}

#[derive(Debug, Clone)]
pub struct RawProgram {
    pub entries: Vec<RawEntry>,
}

fn blank() -> (e: RawEntry)
    ensures
        raw_entry_view(e) == blank_entry(),
{
    let e = RawEntry {
        sector_start: 0,
        num_sectors: 0,
        file: String::new(),
        physical_partition: 0,
        sparse: false,
        read_back_verify: false,
        burst_size: None,
    };
    assert(e.file@ =~= Seq::<char>::empty());
    e
}

fn text_value(raw: &Vec<u8>) -> (r: Result<String, ParseError>)
    ensures
        match text_in(raw@) {
            Ok(t) => r matches Ok(s) && s@ == t,
            Err(_) => r matches Err(ParseError::Utf8(_)),
        },
{
    match string_from_utf8(raw.clone()) {
        Ok(s) => Ok(s),
        Err(e) => Err(ParseError::Utf8(e)),
    }
}

impl RawProgram {
    fn apply_attribute(entry: &mut RawEntry, key: &Vec<u8>, raw: &Vec<u8>) -> (r: Result<(), ParseError>)
        ensures
            match apply_attr(raw_entry_view(*old(entry)), key@, raw@) {
                Ok(e) => r is Ok && raw_entry_view(*final(entry)) == e,
                Err(AttrFault::Utf8) => r matches Err(ParseError::Utf8(_)),
                Err(AttrFault::Invalid) => r matches Err(ParseError::InvalidValue(_)),
            },
    {
        let k = key.as_slice();
        if bytes_eq(k, "SECTOR_START".as_bytes()) {
            let t = match text_value(raw) {
                Ok(t) => t,
                Err(e) => return Err(e),
            };
            match u64_from_str_radix(t.as_str(), 10) {
                Ok(v) => entry.sector_start = v,
                Err(m) => return Err(ParseError::InvalidValue(m)),
            }
        } else if bytes_eq(k, "NUM_SECTORS".as_bytes()) {
            let t = match text_value(raw) {
                Ok(t) => t,
                Err(e) => return Err(e),
            };
            match u64_from_str_radix(t.as_str(), 10) {
                Ok(v) => entry.num_sectors = v,
                Err(m) => return Err(ParseError::InvalidValue(m)),
            }
        } else if bytes_eq(k, "file".as_bytes()) {
            match text_value(raw) {
                Ok(t) => entry.file = t,
                Err(e) => return Err(e),
            }
        } else if bytes_eq(k, "physical_partition_number".as_bytes()) {
            let t = match text_value(raw) {
                Ok(t) => t,
                Err(e) => return Err(e),
            };
            match u8_from_str_radix(t.as_str(), 10) {
                Ok(v) => entry.physical_partition = v,
                Err(m) => return Err(ParseError::InvalidValue(m)),
            }
        } else if bytes_eq(k, "sparse".as_bytes()) {
            match text_value(raw) {
                Ok(t) => entry.sparse = str_eq(t.as_str(), "true"),
                Err(e) => return Err(e),
            }
        } else if bytes_eq(k, "read_back_verify".as_bytes()) {
            match text_value(raw) {
                Ok(t) => entry.read_back_verify = str_eq(t.as_str(), "true"),
                Err(e) => return Err(e),
            }
        } else if bytes_eq(k, "burst_size".as_bytes()) {
            let t = match text_value(raw) {
                Ok(t) => t,
                Err(e) => return Err(e),
            };
            match u64_from_str_radix(t.as_str(), 10) {
                Ok(v) => entry.burst_size = Some(v),
                Err(m) => return Err(ParseError::InvalidValue(m)),
            }
        }
        Ok(())
    }

    fn entry_of(attrs: &Vec<Option<XmlAttr>>) -> (r: Result<RawEntry, ParseError>)
        ensures
            match apply_attrs(blank_entry(), attrs_view(attrs@)) {
                Ok(e) => r matches Ok(x) && raw_entry_view(x) == e,
                Err(AttrFault::Utf8) => r matches Err(ParseError::Utf8(_)),
                Err(AttrFault::Invalid) => r matches Err(ParseError::InvalidValue(_)),
            },
    {
        let mut entry = blank();
        let ghost av = attrs_view(attrs@);
        let mut i: usize = 0;
        while i < attrs.len()
            invariant
                i <= attrs@.len(),
                av == attrs_view(attrs@),
                apply_attrs(blank_entry(), av.subrange(0, i as int)) == Ok::<RawEntryView, AttrFault>(
                    raw_entry_view(entry),
                ),
            decreases attrs@.len() - i,
        {
            assert(av.subrange(0, i + 1).drop_last() =~= av.subrange(0, i as int));
            assert(av[i as int] == crate::xml::attr_view(attrs@[i as int]));
            match &attrs[i] {
                Some(a) => {
                    match RawProgram::apply_attribute(&mut entry, &a.0, &a.1) {
                        Ok(()) => {},
                        Err(e) => {
                            proof {
                                lemma_attrs_fault_stays(av, i as int + 1);
                            }
                            return Err(e);
                        },
                    }
                },
                None => {},
            }
            i = i + 1;
        }
        assert(av.subrange(0, av.len() as int) =~= av);
        Ok(entry)
    }
}

proof fn lemma_attrs_fault_stays(a: Seq<AttrView>, k: int)
    requires
        0 <= k <= a.len(),
        apply_attrs(blank_entry(), a.subrange(0, k)) is Err,
    ensures
        apply_attrs(blank_entry(), a) == apply_attrs(blank_entry(), a.subrange(0, k)),
    decreases a.len() - k,
{
    if k < a.len() {
        assert(a.subrange(0, k + 1).drop_last() =~= a.subrange(0, k));
        lemma_attrs_fault_stays(a, k + 1);
    } else {
        assert(a.subrange(0, k) =~= a);
    }
}

/// The problems of entry `i`: a missing file, a zero sector count.
pub open spec fn entry_problems(e: RawEntryView, i: nat) -> Seq<Seq<char>> {
    (if e.file.len() == 0 {
        seq!["Entry "@ + dec_str(i) + ": missing file"@]
    } else {
        seq![]
    }) + (if e.num_sectors == 0 {
        seq!["Entry "@ + dec_str(i) + ": NUM_SECTORS is 0"@]
    } else {
        seq![]
    })
}

/// The problems of all entries, in order.
pub open spec fn problems(es: Seq<RawEntryView>) -> Seq<Seq<char>>
    decreases es.len(),
{
    if es.len() == 0 {
        seq![]
    } else {
        problems(es.drop_last()) + entry_problems(es.last(), (es.len() - 1) as nat)
    }
}

pub open spec fn raw_entries_view(v: Seq<RawEntry>) -> Seq<RawEntryView> {
    v.map_values(|e: RawEntry| raw_entry_view(e))
}

impl RawProgram {
    /// The entries of a document's reader events: a `<program>` start tag
    /// opens an entry that its end tag adds, an empty-element `<program/>`
    /// adds one; the first bad attribute value fails.
    pub fn from_tokens(tokens: &Vec<XmlToken>) -> (r: Result<RawProgram, ParseError>)
        ensures
            match program_read(tokens_view(tokens@)) {
                Ok(s) => r matches Ok(p) && raw_entries_view(p.entries@) == s.0,
                Err(AttrFault::Utf8) => r matches Err(ParseError::Utf8(_)),
                Err(AttrFault::Invalid) => r matches Err(ParseError::InvalidValue(_)),
            },
    {
        let ghost tv = tokens_view(tokens@);
        let mut entries: Vec<RawEntry> = Vec::new();
        let mut current: Option<RawEntry> = None;
        let mut i: usize = 0;
        assert(tv.subrange(0, 0) =~= Seq::<TokenView>::empty());
        assert(raw_entries_view(entries@) =~= Seq::<RawEntryView>::empty());
        while i < tokens.len()
            invariant
                i <= tokens@.len(),
                tv == tokens_view(tokens@),
                program_read(tv.subrange(0, i as int)) == Ok::<ReadSoFar, AttrFault>(
                    (
                        raw_entries_view(entries@),
                        match current {
                            Some(e) => Some(raw_entry_view(e)),
                            None => None,
                        },
                    ),
                ),
            decreases tokens@.len() - i,
        {
            assert(tv.subrange(0, i + 1).drop_last() =~= tv.subrange(0, i as int));
            assert(tv[i as int] == token_view(tokens@[i as int]));
            let ghost before = entries@;
            match &tokens[i] {
                XmlToken::Tag(empty, name, attrs) => {
                    if bytes_eq(name.as_slice(), "program".as_bytes()) {
                        match RawProgram::entry_of(attrs) {
                            Ok(e) => {
                                if *empty {
                                    entries.push(e);
                                    assert(raw_entries_view(entries@) =~= raw_entries_view(before).push(
                                        raw_entry_view(e),
                                    ));
                                } else {
                                    current = Some(e);
                                }
                            },
                            Err(err) => {
                                proof {
                                    lemma_read_fault_stays(tv, i as int + 1);
                                }
                                return Err(err);
                            },
                        }
                    }
                },
                XmlToken::Close(name) => {
                    if bytes_eq(name.as_slice(), "program".as_bytes()) {
                        let taken = current;
                        current = None;
                        match taken {
                            Some(e) => {
                                entries.push(e);
                                assert(raw_entries_view(entries@) =~= raw_entries_view(before).push(
                                    raw_entry_view(e),
                                ));
                            },
                            None => {},
                        }
                    }
                },
                _ => {},
            }
            i = i + 1;
        }
        assert(tv.subrange(0, tv.len() as int) =~= tv);
        Ok(RawProgram { entries })
    }

    /// Reads a rawprogram document. A document the reader rejects fails as
    /// XML, even where a bad attribute value comes before the fault.
    pub fn parse_str(xml: &str) -> (r: Result<RawProgram, ParseError>)
        ensures
            match xml_scan(xml@) {
                None => r matches Err(ParseError::Xml(_)),
                Some(toks) => match program_read(toks) {
                    Ok(s) => r matches Ok(p) && raw_entries_view(p.entries@) == s.0,
                    Err(AttrFault::Utf8) => r matches Err(ParseError::Utf8(_)),
                    Err(AttrFault::Invalid) => r matches Err(ParseError::InvalidValue(_)),
                },
            },
    {
        match scan_xml(xml) {
            Ok(tokens) => RawProgram::from_tokens(&tokens),
            Err(m) => Err(ParseError::Xml(m)),
        }
    }

    /// Checks every entry: a missing file or a zero sector count is a
    /// problem; all problems are reported, in order.
    pub fn validate(&self) -> (r: Result<(), Vec<String>>)
        ensures
            problems(raw_entries_view(self.entries@)).len() == 0 ==> r is Ok,
            problems(raw_entries_view(self.entries@)).len() > 0 ==> (r matches Err(v) && v@.map_values(
                |s: String| s@,
            ) == problems(raw_entries_view(self.entries@))),
    {
        let ghost ev = raw_entries_view(self.entries@);
        let mut errors: Vec<String> = Vec::new();
        let mut i: usize = 0;
        while i < self.entries.len()
            invariant
                i <= self.entries@.len(),
                ev == raw_entries_view(self.entries@),
                errors@.map_values(|s: String| s@) == problems(ev.subrange(0, i as int)),
            decreases self.entries@.len() - i,
        {
            assert(ev.subrange(0, i + 1).drop_last() =~= ev.subrange(0, i as int));
            let ghost before = errors@.map_values(|s: String| s@);
            let e = &self.entries[i];
            if e.file.as_str().is_empty() {
                let mut m = to_owned_string("Entry ");
                push_dec(&mut m, i as u64);
                push_str(&mut m, ": missing file");
                errors.push(m);
            }
            let ghost mid = errors@.map_values(|s: String| s@);
            if e.num_sectors == 0 {
                let mut m = to_owned_string("Entry ");
                push_dec(&mut m, i as u64);
                push_str(&mut m, ": NUM_SECTORS is 0");
                errors.push(m);
            }
            assert(errors@.map_values(|s: String| s@) =~= before + entry_problems(ev[i as int], i as nat));
            i = i + 1;
        }
        assert(ev.subrange(0, ev.len() as int) =~= ev);
        if errors.len() == 0 {
            Ok(())
        } else {
            Err(errors)
        }
    }
}

proof fn lemma_read_fault_stays(t: Seq<TokenView>, k: int)
    requires
        0 <= k <= t.len(),
        program_read(t.subrange(0, k)) is Err,
    ensures
        program_read(t) == program_read(t.subrange(0, k)),
    decreases t.len() - k,
{
    if k < t.len() {
        assert(t.subrange(0, k + 1).drop_last() =~= t.subrange(0, k));
        lemma_read_fault_stays(t, k + 1);
    } else {
        assert(t.subrange(0, k) =~= t);
    }
}

/// An attribute sets the one field it names and leaves the others: a valid
/// `SECTOR_START`, `NUM_SECTORS`, `physical_partition_number` or
/// `burst_size` number becomes that field's value, a readable `file` the file,
/// and `sparse` or `read_back_verify` the flag, set exactly when the text is
/// `true`; another attribute changes nothing.
pub proof fn lemma_attribute_sets_its_field(e: RawEntryView, key: Seq<u8>, raw: Seq<u8>)
    ensures
        forall|n: nat| key == "SECTOR_START".spec_bytes() && #[trigger] number_in(raw, u64::MAX as nat) == Ok::<nat, AttrFault>(n) ==> (apply_attr(e, key, raw)
            matches Ok(r) && r.sector_start == n && RawEntryView { sector_start: e.sector_start, ..r } == e),
        forall|n: nat| key == "NUM_SECTORS".spec_bytes() && #[trigger] number_in(raw, u64::MAX as nat) == Ok::<nat, AttrFault>(n) ==> (apply_attr(e, key, raw)
            matches Ok(r) && r.num_sectors == n && RawEntryView { num_sectors: e.num_sectors, ..r } == e),
        forall|n: nat| key == "physical_partition_number".spec_bytes() && #[trigger] number_in(raw, u8::MAX as nat) == Ok::<nat, AttrFault>(n) ==> (
        apply_attr(e, key, raw) matches Ok(r) && r.physical_partition == n && RawEntryView {
            physical_partition: e.physical_partition,
            ..r
        } == e),
        forall|n: nat| key == "burst_size".spec_bytes() && #[trigger] number_in(raw, u64::MAX as nat) == Ok::<nat, AttrFault>(n) ==> (apply_attr(e, key, raw)
            matches Ok(r) && r.burst_size == Some(n as u64) && RawEntryView { burst_size: e.burst_size, ..r } == e),
        key == "file".spec_bytes() && utf8_valid(raw) ==> (apply_attr(e, key, raw) matches Ok(r) && r.file
            == utf8_lossy(raw) && RawEntryView { file: e.file, ..r } == e),
        key == "sparse".spec_bytes() && utf8_valid(raw) ==> (apply_attr(e, key, raw) matches Ok(r) && r.sparse
            == (utf8_lossy(raw) == "true"@) && RawEntryView { sparse: e.sparse, ..r } == e),
        key == "read_back_verify".spec_bytes() && utf8_valid(raw) ==> (apply_attr(e, key, raw) matches Ok(r)
            && r.read_back_verify == (utf8_lossy(raw) == "true"@) && RawEntryView {
            read_back_verify: e.read_back_verify,
            ..r
        } == e),
        !utf8_valid(raw) && (key == "SECTOR_START".spec_bytes() || key == "NUM_SECTORS".spec_bytes() || key
            == "file".spec_bytes() || key == "physical_partition_number".spec_bytes() || key == "sparse".spec_bytes()
            || key == "read_back_verify".spec_bytes() || key == "burst_size".spec_bytes()) ==> apply_attr(e, key, raw)
            == Err::<RawEntryView, AttrFault>(AttrFault::Utf8),
{
    reveal_strlit("SECTOR_START");
    lemma_first_byte("SECTOR_START", 'S');
    reveal_strlit("NUM_SECTORS");
    lemma_first_byte("NUM_SECTORS", 'N');
    reveal_strlit("file");
    lemma_first_byte("file", 'f');
    reveal_strlit("physical_partition_number");
    lemma_first_byte("physical_partition_number", 'p');
    reveal_strlit("sparse");
    lemma_first_byte("sparse", 's');
    reveal_strlit("read_back_verify");
    lemma_first_byte("read_back_verify", 'r');
    reveal_strlit("burst_size");
    lemma_first_byte("burst_size", 'b');
}

/// An ASCII text's first byte is its first character.
proof fn lemma_first_byte(s: &str, c: char)
    requires
        s@.len() > 0,
        s@[0] == c,
        vstd::string::is_ascii(s),
    ensures
        s.spec_bytes().len() > 0,
        s.spec_bytes()[0] == c as u8,
{
    vstd::string::is_ascii_spec_bytes(s);
}

} // verus!
