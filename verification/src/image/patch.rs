//! Patch files: values written into single sectors after flashing, such as
//! the disk size in the backup GPT header.

use crate::image::error::ImageError;
use crate::num::{parse_unsigned, parsed_unsigned};
use crate::text::{push_str, str_eq, str_starts_with, to_owned_string};
use crate::xml::{
    attrs_view, get_attr, get_attr_u32, get_attr_u64, get_attr_u8, lookup, num32, num64, num8,
    scan_xml, tag_key, tag_lower, tokens_view, xml_scan, AttrView, TokenView, XmlAttr, XmlToken,
};
use vstd::prelude::*;

verus! {

#[derive(Debug, Clone)]
pub struct PatchEntry {
    pub byte_offset: u32,
    pub filename: String,
    pub physical_partition: u8,
    pub size_in_bytes: u32,
    pub start_sector: u64,
    /// A number, or a variable name such as `NUM_DISK_SECTORS`.
    pub value: String,
}

/// A patch entry as plain values.
pub struct PatchView {
    pub byte_offset: u32,
    pub filename: Seq<char>,
    pub physical_partition: u8,
    pub size_in_bytes: u32,
    pub start_sector: u64,
    pub value: Seq<char>,
}

pub open spec fn patch_view(e: PatchEntry) -> PatchView {
    PatchView {
        byte_offset: e.byte_offset,
        filename: e.filename@,
        physical_partition: e.physical_partition,
        size_in_bytes: e.size_in_bytes,
        start_sector: e.start_sector,
        value: e.value@,
    }
}

/// The patch entry that a `<patch>` tag's attributes describe; every
/// attribute is required.
pub open spec fn patch_of(a: Seq<AttrView>) -> Option<PatchView> {
    if num32(a, "byte_offset") is Some && lookup(a, "filename") is Some && num8(
        a,
        "physical_partition_number",
    ) is Some && num32(a, "size_in_bytes") is Some && num64(a, "start_sector") is Some && lookup(
        a,
        "value",
    ) is Some {
        Some(
            PatchView {
                byte_offset: num32(a, "byte_offset").unwrap(),
                filename: lookup(a, "filename").unwrap(),
                physical_partition: num8(a, "physical_partition_number").unwrap(),
                size_in_bytes: num32(a, "size_in_bytes").unwrap(),
                start_sector: num64(a, "start_sector").unwrap(),
                value: lookup(a, "value").unwrap(),
            },
        )
    } else {
        None
    }
}

/// The patch entries of a document's reader events, in order.
pub open spec fn patches_in(toks: Seq<TokenView>) -> Seq<PatchView>
    decreases toks.len(),
{
    if toks.len() == 0 {
        seq![]
    } else {
        let rest = patches_in(toks.drop_last());
        match toks.last() {
            TokenView::Tag(_, name, attrs) => if tag_key(name) == "patch"@ && patch_of(attrs) is Some {
                rest.push(patch_of(attrs).unwrap())
            } else {
                rest
            },
            _ => rest,
        }
    }
}

/// The value of the last binding of `k` in `vars`.
pub open spec fn var_lookup(vars: Seq<(Seq<char>, Seq<char>)>, k: Seq<char>) -> Option<Seq<char>>
    decreases vars.len(),
{
    if vars.len() == 0 {
        None
    } else if vars.last().0 == k {
        Some(vars.last().1)
    } else {
        var_lookup(vars.drop_last(), k)
    }
}

pub open spec fn vars_view(v: Seq<(String, String)>) -> Seq<(Seq<char>, Seq<char>)> {
    v.map_values(|p: (String, String)| (p.0@, p.1@))
}

/// `s` begins with `p`.
pub open spec fn has_prefix(s: Seq<char>, p: Seq<char>) -> bool {
    p.len() <= s.len() && s.subrange(0, p.len() as int) == p
}

/// The text a patch value stands for: a variable's value when it begins
/// with the variable's name, else itself; `Err` names the missing variable.
pub open spec fn resolved_text(value: Seq<char>, vars: Seq<(Seq<char>, Seq<char>)>) -> Result<Seq<char>, Seq<char>> {
    if has_prefix(value, "NUM_DISK_SECTORS"@) {
        match var_lookup(vars, "NUM_DISK_SECTORS"@) {
            Some(v) => Ok(v),
            None => Err("NUM_DISK_SECTORS not set"@),
        }
    } else if has_prefix(value, "LAST_PARTITION_END"@) {
        match var_lookup(vars, "LAST_PARTITION_END"@) {
            Some(v) => Ok(v),
            None => Err("LAST_PARTITION_END not set"@),
        }
    } else {
        Ok(value)
    }
}

/// The number a patch value's text gives: hexadecimal after `0x` or `0X`,
/// else decimal; it must fit a `u64`.
pub open spec fn patch_number(s: Seq<char>) -> Option<nat> {
    if has_prefix(s, "0x"@) || has_prefix(s, "0X"@) {
        parsed_unsigned(s.subrange(2, s.len() as int), 16, u64::MAX as nat)
    } else {
        parsed_unsigned(s, 10, u64::MAX as nat)
    }
}

fn parse_failed(path: &String, reason: String) -> (e: ImageError)
    ensures
        e matches ImageError::ParseFailed { path: p, reason: r } && p@ == path@ && r@ == reason@,
{
    ImageError::ParseFailed { path: path.clone(), reason }
}

fn find_var(vars: &Vec<(String, String)>, k: &str) -> (r: Option<String>)
    ensures
        match r {
            Some(v) => var_lookup(vars_view(vars@), k@) == Some(v@),
            None => var_lookup(vars_view(vars@), k@) is None,
        },
{
    let ghost vv = vars_view(vars@);
    let mut i: usize = vars.len();
    assert(vv.subrange(0, i as int) =~= vv);
    while i > 0
        invariant
            i <= vars@.len(),
            vv == vars_view(vars@),
            var_lookup(vv, k@) == var_lookup(vv.subrange(0, i as int), k@),
        decreases i,
    {
        let ghost pre = vv.subrange(0, i as int);
        assert(pre.last() == (vars@[i - 1].0@, vars@[i - 1].1@));
        if str_eq(vars[i - 1].0.as_str(), k) {
            return Some(vars[i - 1].1.clone());
        }
        assert(pre.drop_last() =~= vv.subrange(0, i - 1));
        i = i - 1;
    }
    None
}

impl PatchEntry {
    /// The bytes to write: the value (or the variable it names) as a
    /// little-endian `u64`, cut to `size_in_bytes` bytes. A missing variable
    /// or a value that is not a number fails, naming the entry's file.
    pub fn resolve_value(&self, vars: &Vec<(String, String)>) -> (r: Result<Vec<u8>, ImageError>)
        requires
            self.size_in_bytes <= 8,
        ensures
            match resolved_text(self.value@, vars_view(vars@)) {
                Err(why) => r matches Err(ImageError::ParseFailed { path, reason }) && path@
                    == self.filename@ && reason@ == why,
                Ok(t) => match patch_number(t) {
                    None => r matches Err(ImageError::ParseFailed { path, reason }) && path@
                        == self.filename@ && reason@ == "invalid patch value: "@ + t,
                    Some(n) => r matches Ok(b) && b@ == le_prefix(n, self.size_in_bytes as nat),
                },
            },
    {
        let resolved = if str_starts_with(self.value.as_str(), "NUM_DISK_SECTORS") {
            match find_var(vars, "NUM_DISK_SECTORS") {
                Some(v) => v,
                None => return Err(parse_failed(&self.filename, to_owned_string("NUM_DISK_SECTORS not set"))),
            }
        } else if str_starts_with(self.value.as_str(), "LAST_PARTITION_END") {
            match find_var(vars, "LAST_PARTITION_END") {
                Some(v) => v,
                None => return Err(parse_failed(&self.filename, to_owned_string("LAST_PARTITION_END not set"))),
            }
        } else {
            self.value.clone()
        };
        let s = resolved.as_str();
        proof {
            reveal_strlit("0x");
            reveal_strlit("0X");
        }
        let parsed = if str_starts_with(s, "0x") || str_starts_with(s, "0X") {
            let n = s.unicode_len();
            parse_unsigned(s.substring_char(2, n), 16, u64::MAX)
        } else {
            parse_unsigned(s, 10, u64::MAX)
        };
        match parsed {
            None => {
                let mut reason = to_owned_string("invalid patch value: ");
                push_str(&mut reason, s);
                Err(parse_failed(&self.filename, reason))
            },
            Some(num) => {
                let mut out: Vec<u8> = Vec::new();
                let mut v: u64 = num;
                let mut i: u32 = 0;
                assert(pow256(0) == 1);
                while i < self.size_in_bytes
                    invariant
                        i <= self.size_in_bytes <= 8,
                        out@ == le_prefix(num as nat, i as nat),
                        v as nat == (num as nat) / pow256(i as nat),
                    decreases self.size_in_bytes - i,
                {
                    out.push((v % 256) as u8);
                    assert(out@ =~= le_prefix(num as nat, (i + 1) as nat));
                    proof {
                        lemma_div_pow(num as nat, i as nat);
                    }
                    v = v / 256;
                    i = i + 1;
                }
                Ok(out)
            },
        }
    }
}

/// 256 to the power `k`.
pub open spec fn pow256(k: nat) -> nat
    decreases k,
{
    if k == 0 {
        1
    } else {
        256 * pow256((k - 1) as nat)
    }
}

proof fn lemma_div_pow(v: nat, k: nat)
    ensures
        v / pow256(k + 1) == (v / pow256(k)) / 256,
{
    assert(pow256(k + 1) == 256 * pow256(k));
    lemma_pow_pos(k);
    vstd::arithmetic::div_mod::lemma_div_denominator(v as int, pow256(k) as int, 256);
    assert(pow256(k) * 256 == 256 * pow256(k)) by (nonlinear_arith);
}

proof fn lemma_pow_pos(k: nat)
    ensures
        pow256(k) > 0,
    decreases k,
{
    if k > 0 {
        lemma_pow_pos((k - 1) as nat);
    }
}

/// The low `k` bytes of `n`, least significant first.
pub open spec fn le_prefix(n: nat, k: nat) -> Seq<u8> {
    Seq::new(k, |i: int| ((n / pow256(i as nat)) % 256) as u8)
}

fn parse_patch_entry(a: &Vec<Option<XmlAttr>>) -> (r: Option<PatchEntry>)
    ensures
        match patch_of(attrs_view(a@)) {
            Some(v) => r matches Some(e) && patch_view(e) == v,
            None => r is None,
        },
{
    let byte_offset = match get_attr_u32(a, "byte_offset") {
        Some(v) => v,
        None => return None,
    };
    let filename = match get_attr(a, "filename") {
        Some(v) => v,
        None => return None,
    };
    let physical_partition = match get_attr_u8(a, "physical_partition_number") {
        Some(v) => v,
        None => return None,
    };
    let size_in_bytes = match get_attr_u32(a, "size_in_bytes") {
        Some(v) => v,
        None => return None,
    };
    let start_sector = match get_attr_u64(a, "start_sector") {
        Some(v) => v,
        None => return None,
    };
    let value = match get_attr(a, "value") {
        Some(v) => v,
        None => return None,
    };
    Some(PatchEntry { byte_offset, filename, physical_partition, size_in_bytes, start_sector, value })
}

#[derive(Debug, Clone)]
pub struct PatchSet {
    pub entries: Vec<PatchEntry>,
    /// The file the set was read from.
    pub source_file: String,
}

impl PatchSet {
    pub fn new(source_file: String) -> (r: Self)
        ensures
            r.entries@.len() == 0,
            r.source_file == source_file,
    {
        PatchSet { entries: Vec::new(), source_file }
    }

    /// The patch set of a document's reader events: one entry per `<patch>`
    /// tag whose attributes are complete, in order.
    pub fn from_tokens(tokens: &Vec<XmlToken>, source: &str) -> (r: Self)
        ensures
            r.entries@.map_values(|e: PatchEntry| patch_view(e)) == patches_in(tokens_view(tokens@)),
            r.source_file@ == source@,
    {
        let mut set = PatchSet::new(to_owned_string(source));
        let ghost tv = tokens_view(tokens@);
        let mut i: usize = 0;
        while i < tokens.len()
            invariant
                i <= tokens@.len(),
                tv == tokens_view(tokens@),
                set.source_file@ == source@,
                set.entries@.map_values(|e: PatchEntry| patch_view(e)) == patches_in(tv.subrange(0, i as int)),
            decreases tokens@.len() - i,
        {
            assert(tv.subrange(0, i + 1).drop_last() =~= tv.subrange(0, i as int));
            assert(tv[i as int] == crate::xml::token_view(tokens@[i as int]));
            match &tokens[i] {
                XmlToken::Tag(_, name, attrs) => {
                    let key = tag_lower(name);
                    if str_eq(key.as_str(), "patch") {
                        match parse_patch_entry(attrs) {
                            Some(e) => {
                                let ghost before = set.entries@;
                                set.entries.push(e);
                                assert(set.entries@.map_values(|e: PatchEntry| patch_view(e)) =~= before.map_values(
                                    |e: PatchEntry| patch_view(e),
                                ).push(patch_view(e)));
                            },
                            None => {},
                        }
                    }
                },
                _ => {},
            }
            i = i + 1;
        }
        assert(tv.subrange(0, tv.len() as int) =~= tv);
        set
    }

    /// Reads a patch document; `source` names it in errors. Malformed XML
    /// fails with `XML parse error: ` and the reader's message.
    pub fn from_str(xml: &str, source: &str) -> (r: Result<Self, ImageError>)
        ensures
            match xml_scan(xml@) {
                Some(toks) => r matches Ok(set) && set.entries@.map_values(|e: PatchEntry| patch_view(e))
                    == patches_in(toks) && set.source_file@ == source@,
                None => r matches Err(ImageError::ParseFailed { path, reason }) && path@ == source@
                    && reason@.len() >= 17 && reason@.subrange(0, 17) == "XML parse error: "@,
            },
    {
        match scan_xml(xml) {
            Ok(tokens) => Ok(PatchSet::from_tokens(&tokens, source)),
            Err(msg) => {
                let mut reason = to_owned_string("XML parse error: ");
                push_str(&mut reason, msg.as_str());
                proof {
                    reveal_strlit("XML parse error: ");
                }
                assert(reason@.subrange(0, 17) =~= "XML parse error: "@);
                Err(ImageError::ParseFailed { path: to_owned_string(source), reason })
            },
        }
    }
}

/// A patch entry takes each field from its own attribute: the sector from
/// `start_sector`, the offset in it from `byte_offset`, the LUN from
/// `physical_partition_number`, the size from `size_in_bytes`, and the file
/// and value texts from `filename` and `value`; a tag missing any of them
/// gives no entry.
pub proof fn lemma_patch_fields(a: Seq<AttrView>)
    ensures
        patch_of(a) is Some <==> (num32(a, "byte_offset") is Some && lookup(a, "filename") is Some && num8(
            a,
            "physical_partition_number",
        ) is Some && num32(a, "size_in_bytes") is Some && num64(a, "start_sector") is Some && lookup(a, "value") is Some),
        patch_of(a) matches Some(p) ==> {
            &&& num64(a, "start_sector") == Some(p.start_sector)
            &&& num32(a, "byte_offset") == Some(p.byte_offset)
            &&& num8(a, "physical_partition_number") == Some(p.physical_partition)
            &&& num32(a, "size_in_bytes") == Some(p.size_in_bytes)
            &&& lookup(a, "filename") == Some(p.filename)
            &&& lookup(a, "value") == Some(p.value)
        },
{
}

} // verus!
