//! The device summary of the info job, with the storage description that
//! getstorageinfo reports as JSON.

use crate::base::session::Session;
use crate::base::util::{human_size, humanize_size};
use crate::job::jobs::JobResult;
use crate::text::{
    bin_str, contains_text, dec_str, hex_str, push_bin, push_dec, push_hex_padded, push_repeat, push_str,
    str_contains, str_starts_with, str_trim, str_trim_end_matches, strip_end, to_owned_string, trimmed,
    zero_pad,
};
use crate::wire::{le32, read_u32_le};
use vstd::prelude::*;

verus! {

/// A JSON member value as the summary reads it.
#[derive(Debug, Clone)]
pub enum JsonScalar {
    Str(String),
    /// A number: its value where it is a `u64`, and its text.
    Num { value: Option<u64>, text: String },
    /// An array, an object, a boolean or null.
    Other,
}

/// A member value as plain values.
pub enum ScalarView {
    Str(Seq<char>),
    Num(Option<u64>, Seq<char>),
    Other,
}

pub open spec fn scalar_view(j: JsonScalar) -> ScalarView {
    match j {
        JsonScalar::Str(s) => ScalarView::Str(s@),
        JsonScalar::Num { value, text } => ScalarView::Num(value, text@),
        JsonScalar::Other => ScalarView::Other,
    }
}

/// Object members as plain values.
pub type Members = Seq<(Seq<char>, ScalarView)>;

pub open spec fn members_view(v: Seq<(String, JsonScalar)>) -> Members {
    v.map_values(|p: (String, JsonScalar)| (p.0@, scalar_view(p.1)))
}

#[verifier::external_type_specification]
#[verifier::external_body]
pub struct ExJsonValue(serde_json::Value);

/// A parsed JSON value; object members in the order serde_json's map keeps
/// them.
#[derive(Debug)]
pub enum JsonValue {
    Null,
    Bool(bool),
    /// A number: its value where it is a `u64`, and its text.
    Num { value: Option<u64>, text: String },
    Str(String),
    Array(Vec<JsonValue>),
    Object(Vec<(String, JsonValue)>),
}

/// A JSON value as plain values.
pub enum JsonView {
    Null,
    Bool(bool),
    Num(Option<u64>, Seq<char>),
    Str(Seq<char>),
    Array(Seq<JsonView>),
    Object(Seq<(Seq<char>, JsonView)>),
}

pub open spec fn json_view(j: JsonValue) -> JsonView
    decreases j,
{
    match j {
        JsonValue::Null => JsonView::Null,
        JsonValue::Bool(b) => JsonView::Bool(b),
        JsonValue::Num { value, text } => JsonView::Num(value, text@),
        JsonValue::Str(s) => JsonView::Str(s@),
        JsonValue::Array(v) => JsonView::Array(
            Seq::new(
                v@.len(),
                |i: int|
                    if 0 <= i < v@.len() {
                        json_view(v@[i])
                    } else {
                        JsonView::Null
                    },
            ),
        ),
        JsonValue::Object(m) => JsonView::Object(
            Seq::new(
                m@.len(),
                |i: int|
                    if 0 <= i < m@.len() {
                        (m@[i].0@, json_view(m@[i].1))
                    } else {
                        (seq![], JsonView::Null)
                    },
            ),
        ),
    }
}

/// The value `serde_json::from_str` reads from the text `t`; `None` where
/// it is not JSON.
pub uninterp spec fn json_parsed(t: Seq<char>) -> Option<JsonView>;

/// `serde_json::from_str` into a `Value`, handed back as plain values.
#[verifier::external_body]
fn parse_json(t: &str) -> (r: Option<JsonValue>)
    ensures
        match r {
            Some(v) => json_parsed(t@) == Some(json_view(v)),
            None => json_parsed(t@) is None,
        },
{
    serde_json::from_str::<serde_json::Value>(t).ok().map(|v| json_value_of(&v))
}

/// A serde_json `Value` as a `JsonValue`, one variant for one, numbers as
/// `Number::as_u64` and `Number::to_string` give them.
#[verifier::external_body]
fn json_value_of(v: &serde_json::Value) -> (r: JsonValue) {
    match v {
        serde_json::Value::Null => JsonValue::Null,
        serde_json::Value::Bool(b) => JsonValue::Bool(*b),
        serde_json::Value::Number(n) => JsonValue::Num { value: n.as_u64(), text: n.to_string() },
        serde_json::Value::String(s) => JsonValue::Str(s.clone()),
        serde_json::Value::Array(a) => JsonValue::Array(a.iter().map(json_value_of).collect()),
        serde_json::Value::Object(m) => JsonValue::Object(m.iter().map(|(k, x)| (k.clone(), json_value_of(x))).collect()),
    }
}

/// The value of the first member named `key`.
pub open spec fn json_member(m: Seq<(Seq<char>, JsonView)>, key: Seq<char>) -> Option<JsonView>
    decreases m.len(),
{
    if m.len() == 0 {
        None
    } else if m[0].0 == key {
        Some(m[0].1)
    } else {
        json_member(m.drop_first(), key)
    }
}

/// A member value as the summary reads it: text, number, or other.
pub open spec fn scalar_of(v: JsonView) -> ScalarView {
    match v {
        JsonView::Str(s) => ScalarView::Str(s),
        JsonView::Num(n, t) => ScalarView::Num(n, t),
        _ => ScalarView::Other,
    }
}

/// The members of the `storage_info` object of a JSON document: the
/// document must be an object whose `storage_info` member is an object.
pub open spec fn storage_info_object(doc: Option<JsonView>) -> Option<Members> {
    match doc {
        Some(JsonView::Object(m)) => match json_member(m, "storage_info"@) {
            Some(JsonView::Object(o)) => Some(o.map_values(|p: (Seq<char>, JsonView)| (p.0, scalar_of(p.1)))),
            _ => None,
        },
        _ => None,
    }
}

fn scalar_from(v: &JsonValue) -> (r: JsonScalar)
    ensures
        scalar_view(r) == scalar_of(json_view(*v)),
{
    match v {
        JsonValue::Str(s) => JsonScalar::Str(s.clone()),
        JsonValue::Num { value, text } => JsonScalar::Num { value: *value, text: text.clone() },
        _ => JsonScalar::Other,
    }
}

/// The members of the `storage_info` object of a parsed document.
pub fn storage_info_in(doc: &JsonValue) -> (r: Option<Vec<(String, JsonScalar)>>)
    ensures
        match storage_info_object(Some(json_view(*doc))) {
            Some(m) => r matches Some(v) && members_view(v@) == m,
            None => r is None,
        },
{
    let top = match doc {
        JsonValue::Object(m) => m,
        _ => return None,
    };
    let ghost tv = json_view(*doc)->Object_0;
    assert(tv.len() == top@.len());
    assert(tv.subrange(0, tv.len() as int) =~= tv);
    let mut i: usize = 0;
    while i < top.len()
        invariant
            i <= top@.len(),
            tv.len() == top@.len(),
            *doc == JsonValue::Object(*top),
            tv == json_view(*doc)->Object_0,
            json_member(tv, "storage_info"@) == json_member(tv.subrange(i as int, tv.len() as int), "storage_info"@),
        decreases top@.len() - i,
    {
        let ghost rest = tv.subrange(i as int, tv.len() as int);
        assert(rest[0] == (top@[i as int].0@, json_view(top@[i as int].1)));
        if crate::text::str_eq(top[i].0.as_str(), "storage_info") {
            return match &top[i].1 {
                JsonValue::Object(o) => {
                    let ghost ov = json_view(top@[i as int].1)->Object_0;
                    let mut out: Vec<(String, JsonScalar)> = Vec::new();
                    let mut k: usize = 0;
                    while k < o.len()
                        invariant
                            k <= o@.len(),
                            i < top@.len(),
                            ov.len() == o@.len(),
                            top@[i as int].1 == JsonValue::Object(*o),
                            ov == json_view(top@[i as int].1)->Object_0,
                            members_view(out@) == ov.subrange(0, k as int).map_values(
                                |p: (Seq<char>, JsonView)| (p.0, scalar_of(p.1)),
                            ),
                        decreases o@.len() - k,
                    {
                        let ghost before = out@;
                        assert(ov[k as int] == (o@[k as int].0@, json_view(o@[k as int].1)));
                        out.push((o[k].0.clone(), scalar_from(&o[k].1)));
                        assert(members_view(out@) =~= members_view(before).push(
                            (o@[k as int].0@, scalar_of(json_view(o@[k as int].1))),
                        ));
                        assert(ov.subrange(0, k + 1).map_values(|p: (Seq<char>, JsonView)| (p.0, scalar_of(p.1)))
                            =~= ov.subrange(0, k as int).map_values(|p: (Seq<char>, JsonView)| (p.0, scalar_of(p.1))).push(
                            (ov[k as int].0, scalar_of(ov[k as int].1)),
                        ));
                        k = k + 1;
                    }
                    assert(ov.subrange(0, ov.len() as int) =~= ov);
                    Some(out)
                },
                _ => None,
            };
        }
        assert(rest.drop_first() =~= tv.subrange(i + 1, tv.len() as int));
        i = i + 1;
    }
    None
}

/// The value of member `key`.
pub open spec fn member(obj: Members, key: Seq<char>) -> Option<ScalarView>
    decreases obj.len(),
{
    if obj.len() == 0 {
        None
    } else if obj[0].0 == key {
        Some(obj[0].1)
    } else {
        member(obj.drop_first(), key)
    }
}

/// A member's text, where it is a string.
pub open spec fn as_text(o: Option<ScalarView>) -> Option<Seq<char>> {
    match o {
        Some(ScalarView::Str(s)) => Some(s),
        _ => None,
    }
}

/// A member's value, where it is a `u64`.
pub open spec fn as_num(o: Option<ScalarView>) -> Option<u64> {
    match o {
        Some(ScalarView::Num(Some(v), _)) => Some(v),
        _ => None,
    }
}

/// `label` and the decimal value, where there is one.
pub open spec fn dec_line(label: Seq<char>, o: Option<u64>) -> Seq<char> {
    match o {
        Some(v) => label + dec_str(v as nat),
        None => seq![],
    }
}

/// `label`, the value and ` bytes`, where there is a value.
pub open spec fn bytes_line(label: Seq<char>, o: Option<u64>) -> Seq<char> {
    match o {
        Some(v) => label + dec_str(v as nat) + " bytes"@,
        None => seq![],
    }
}

/// `label` and the value in decimal units, where there is one.
pub open spec fn size_line(label: Seq<char>, o: Option<u64>) -> Seq<char> {
    match o {
        Some(v) => label + human_size(v),
        None => seq![],
    }
}

/// `label` and the text, where there is one.
pub open spec fn text_line(label: Seq<char>, o: Option<Seq<char>>) -> Seq<char> {
    match o {
        Some(s) => label + s,
        None => seq![],
    }
}

/// `0x` and the upper-case hexadecimal value, zero-padded to `width`.
pub open spec fn hex_text(v: u64, width: nat) -> Seq<char> {
    "0x"@ + zero_pad(hex_str(v as nat, true), width)
}

/// A number's rendering: hexadecimal where it is a `u64`, else its text.
pub open spec fn num_text(v: Option<u64>, t: Seq<char>, width: nat) -> Seq<char> {
    match v {
        Some(x) => hex_text(x, width),
        None => t,
    }
}

/// The serial line: a number in hexadecimal (8 wide), a string as is.
pub open spec fn serial_line(o: Option<ScalarView>) -> Seq<char> {
    match o {
        None => seq![],
        Some(x) => "\n  Serial:             "@ + match x {
            ScalarView::Num(v, t) => num_text(v, t, 8),
            ScalarView::Str(s) => s,
            ScalarView::Other => seq![],
        },
    }
}

/// The firmware line: a string as is, a number in hexadecimal (16 wide).
pub open spec fn firmware_line(o: Option<ScalarView>) -> Seq<char> {
    match o {
        None => seq![],
        Some(x) => "\n  Firmware:           "@ + match x {
            ScalarView::Str(s) => s,
            ScalarView::Num(v, t) => num_text(v, t, 16),
            ScalarView::Other => seq![],
        },
    }
}

/// The manufacturer line, from `mfr_id` or else `manufacturer_id`, where
/// that member is a number (hexadecimal, 2 wide).
pub open spec fn manufacturer_line(obj: Members) -> Seq<char> {
    let m = match member(obj, "mfr_id"@) {
        Some(x) => Some(x),
        None => member(obj, "manufacturer_id"@),
    };
    match m {
        Some(ScalarView::Num(v, t)) => "\n  Manufacturer ID:    "@ + num_text(v, t, 2),
        _ => seq![],
    }
}

/// The memory type: the `mem_type` string, else `Unknown`.
pub open spec fn mem_type_of(obj: Members) -> Seq<char> {
    match as_text(member(obj, "mem_type"@)) {
        Some(s) => s,
        None => "Unknown"@,
    }
}

/// `c` with ASCII upper case letters lowered.
pub open spec fn ascii_lower(c: char) -> char {
    if 'A' <= c && c <= 'Z' {
        ((c as u32) + 32) as char
    } else {
        c
    }
}

/// The memory type is UFS, in any ASCII case.
pub open spec fn is_ufs(t: Seq<char>) -> bool {
    t.len() == 3 && ascii_lower(t[0]) == 'u' && ascii_lower(t[1]) == 'f' && ascii_lower(t[2]) == 's'
}

/// The device lines of the storage description.
pub open spec fn device_lines(obj: Members) -> Seq<char> {
    "\n\nStorage Device Info:"@ + "\n  Memory Type:        "@ + mem_type_of(obj) + text_line(
        "\n  Product:            "@,
        as_text(member(obj, "prod_name"@)),
    ) + serial_line(member(obj, "serial_num"@)) + firmware_line(member(obj, "fw_version"@))
        + manufacturer_line(obj)
}

/// `o`'s value, else `d`.
pub open spec fn num_or(o: Option<u64>, d: u64) -> u64 {
    match o {
        Some(v) => v,
        None => d,
    }
}

/// A size line shown only where it differs from the block size.
pub open spec fn other_size_line(label: Seq<char>, o: Option<u64>, block: u64) -> Seq<char> {
    match o {
        Some(v) => if v != block {
            label + dec_str(v as nat) + " bytes"@
        } else {
            seq![]
        },
        None => seq![],
    }
}

/// The capacity lines: total blocks (0 when absent) times block size (512
/// when absent), wrapping at 64 bits.
pub open spec fn capacity_lines(obj: Members) -> Seq<char> {
    let tb = num_or(as_num(member(obj, "total_blocks"@)), 0);
    let bs = num_or(as_num(member(obj, "block_size"@)), 512);
    "\n\nCapacity:"@ + "\n  Raw Capacity:       "@ + human_size(tb.wrapping_mul(bs)) + "\n  Total Blocks:       "@
        + dec_str(tb as nat) + "\n  Block Size:         "@ + dec_str(bs as nat) + " bytes"@ + other_size_line(
        "\n  Page Size:          "@,
        as_num(member(obj, "page_size"@)),
        bs,
    ) + dec_line("\n  Logical Blocks:     "@, as_num(member(obj, "logical_block_count"@)))
        + other_size_line("\n  Logical Block Size: "@, as_num(member(obj, "logical_block_size"@)), bs)
        + dec_line("\n  Physical Units:     "@, as_num(member(obj, "num_physical"@)))
}

/// A line naming one of several states.
pub open spec fn choice_line(label: Seq<char>, o: Option<u64>, names: Seq<Seq<char>>, other: Seq<char>) -> Seq<char> {
    match o {
        Some(v) => label + if v < names.len() {
            names[v as int]
        } else {
            other
        },
        None => seq![],
    }
}

/// The UFS lines of the storage description.
pub open spec fn ufs_lines(obj: Members) -> Seq<char> {
    let lu = match member(obj, "total_active_lu"@) {
        Some(x) => Some(x),
        None => member(obj, "num_lun"@),
    };
    let inquiry = match as_text(member(obj, "inquiry_command_output"@)) {
        Some(s) => if trimmed(strip_end(s, '\0')).len() > 0 {
            Some(trimmed(strip_end(s, '\0')))
        } else {
            None
        },
        None => None,
    };
    "\n\nUFS Configuration:"@ + dec_line("\n  Total Active LU:    "@, as_num(lu)) + dec_line(
        "\n  Current LUN:        "@,
        as_num(member(obj, "current_lun_number"@)),
    ) + dec_line("\n  Boot LUN ID:        "@, as_num(member(obj, "boot_lun_id"@))) + match as_num(
        member(obj, "lun_enable_bitmask"@),
    ) {
        Some(v) => "\n  LUN Enable:         0b"@ + zero_pad(bin_str(v as nat), 8),
        None => seq![],
    } + size_line("\n  Min Block Size:     "@, as_num(member(obj, "min_block_size"@))) + size_line(
        "\n  Erase Block Size:   "@,
        as_num(member(obj, "erase_block_size"@)),
    ) + size_line("\n  Allocation Unit:    "@, as_num(member(obj, "allocation_unit_size"@))) + size_line(
        "\n  RPMB RW Size:       "@,
        as_num(member(obj, "rpmb_readwrite_size"@)),
    ) + match as_num(member(obj, "boot_partition_enabled"@)) {
        Some(v) => "\n  Boot Partition:     "@ + if v != 0 {
            "Enabled"@
        } else {
            "Disabled"@
        },
        None => seq![],
    } + choice_line(
        "\n  Write Protect:      "@,
        as_num(member(obj, "lu_write_protect"@)),
        seq!["None"@, "Power-on Write Protect"@, "Permanent Write Protect"@],
        "Unknown"@,
    ) + choice_line(
        "\n  Provisioning:       "@,
        as_num(member(obj, "provisioning_type"@)),
        seq!["Not Provisioned"@, "Thin Provisioned"@, "Machine Provisioned"@],
        "Unknown"@,
    ) + match as_num(member(obj, "b_config_descr_lock"@)) {
        Some(v) => "\n  Config Locked:      "@ + if v != 0 {
            "Yes"@
        } else {
            "No"@
        },
        None => seq![],
    } + text_line("\n  SCSI Inquiry:       "@, inquiry) + text_line(
        "\n  Supported Types:    "@,
        as_text(member(obj, "supported_memory_types"@)),
    )
}

/// The eMMC lines of the storage description.
pub open spec fn emmc_lines(obj: Members) -> Seq<char> {
    match as_num(member(obj, "ext_csd_rev"@)) {
        Some(v) => "\n\neMMC Configuration:"@ + "\n  ExtCSD Rev:         "@ + dec_str(v as nat),
        None => seq![],
    }
}

/// The storage description of a `storage_info` object.
pub open spec fn storage_section(obj: Members) -> Seq<char> {
    device_lines(obj) + capacity_lines(obj) + if is_ufs(mem_type_of(obj)) {
        ufs_lines(obj)
    } else {
        emmc_lines(obj)
    }
}

fn find_member<'a>(obj: &'a Vec<(String, JsonScalar)>, key: &str) -> (r: Option<&'a JsonScalar>)
    ensures
        match r {
            Some(x) => member(members_view(obj@), key@) == Some(scalar_view(*x)),
            None => member(members_view(obj@), key@) is None,
        },
{
    let ghost all = members_view(obj@);
    let mut i: usize = 0;
    assert(all.subrange(0, all.len() as int) =~= all);
    while i < obj.len()
        invariant
            i <= obj@.len(),
            all == members_view(obj@),
            member(all, key@) == member(all.subrange(i as int, all.len() as int), key@),
        decreases obj@.len() - i,
    {
        let ghost rest = all.subrange(i as int, all.len() as int);
        assert(rest[0] == (obj@[i as int].0@, scalar_view(obj@[i as int].1)));
        if crate::text::str_eq(obj[i].0.as_str(), key) {
            return Some(&obj[i].1);
        }
        assert(rest.drop_first() =~= all.subrange(i + 1, all.len() as int));
        i = i + 1;
    }
    None
}

fn num_of(x: Option<&JsonScalar>) -> (r: Option<u64>)
    ensures
        r == as_num(match x {
            Some(j) => Some(scalar_view(*j)),
            None => None,
        }),
{
    match x {
        Some(JsonScalar::Num { value: Some(v), .. }) => Some(*v),
        _ => None,
    }
}

fn text_of(x: Option<&JsonScalar>) -> (r: Option<&str>)
    ensures
        match r {
            Some(s) => as_text(match x {
                Some(j) => Some(scalar_view(*j)),
                None => None,
            }) == Some(s@),
            None => as_text(match x {
                Some(j) => Some(scalar_view(*j)),
                None => None,
            }) is None,
        },
{
    match x {
        Some(JsonScalar::Str(s)) => Some(s.as_str()),
        _ => None,
    }
}

fn member_num(obj: &Vec<(String, JsonScalar)>, key: &str) -> (r: Option<u64>)
    ensures
        r == as_num(member(members_view(obj@), key@)),
{
    num_of(find_member(obj, key))
}

fn push_dec_line(out: &mut String, label: &str, o: Option<u64>)
    ensures
        final(out)@ == old(out)@ + dec_line(label@, o),
{
    let ghost start = out@;
    match o {
        Some(v) => {
            push_str(out, label);
            push_dec(out, v);
        },
        None => {},
    }
    assert(out@ =~= start + dec_line(label@, o));
}

fn push_size_line(out: &mut String, label: &str, o: Option<u64>)
    ensures
        final(out)@ == old(out)@ + size_line(label@, o),
{
    let ghost start = out@;
    match o {
        Some(v) => {
            push_str(out, label);
            push_str(out, humanize_size(v).as_str());
        },
        None => {},
    }
    assert(out@ =~= start + size_line(label@, o));
}

fn push_text_line(out: &mut String, label: &str, o: Option<&str>)
    ensures
        final(out)@ == old(out)@ + text_line(
            label@,
            match o {
                Some(s) => Some(s@),
                None => None,
            },
        ),
{
    let ghost start = out@;
    match o {
        Some(s) => {
            push_str(out, label);
            push_str(out, s);
        },
        None => {},
    }
    assert(out@ =~= start + text_line(
        label@,
        match o {
            Some(s) => Some(s@),
            None => None,
        },
    ));
}

fn push_other_size_line(out: &mut String, label: &str, o: Option<u64>, block: u64)
    ensures
        final(out)@ == old(out)@ + other_size_line(label@, o, block),
{
    let ghost start = out@;
    match o {
        Some(v) => {
            if v != block {
                push_str(out, label);
                push_dec(out, v);
                push_str(out, " bytes");
            }
        },
        None => {},
    }
    assert(out@ =~= start + other_size_line(label@, o, block));
}

fn push_num_text(out: &mut String, v: Option<u64>, t: &String, width: usize)
    ensures
        final(out)@ == old(out)@ + num_text(v, t@, width as nat),
{
    match v {
        Some(x) => {
            push_str(out, "0x");
            push_hex_padded(out, x, width, true);
        },
        None => push_str(out, t.as_str()),
    }
}

fn is_ufs_text(t: &str) -> (r: bool)
    ensures
        r == is_ufs(t@),
{
    if t.unicode_len() != 3 {
        return false;
    }
    let a = t.get_char(0);
    let b = t.get_char(1);
    let c = t.get_char(2);
    (a == 'u' || a == 'U') && (b == 'f' || b == 'F') && (c == 's' || c == 'S')
}

/// The device lines of the storage description.
fn device_part(obj: &Vec<(String, JsonScalar)>) -> (r: String)
    ensures
        r@ == device_lines(members_view(obj@)),
{
    let ghost v = members_view(obj@);
    let mut out = to_owned_string("\n\nStorage Device Info:");
    push_str(&mut out, "\n  Memory Type:        ");
    match text_of(find_member(obj, "mem_type")) {
        Some(t) => push_str(&mut out, t),
        None => push_str(&mut out, "Unknown"),
    }
    push_text_line(&mut out, "\n  Product:            ", text_of(find_member(obj, "prod_name")));
    let ghost a = out@;
    match find_member(obj, "serial_num") {
        Some(x) => {
            push_str(&mut out, "\n  Serial:             ");
            match x {
                JsonScalar::Num { value, text } => push_num_text(&mut out, *value, text, 8),
                JsonScalar::Str(s) => push_str(&mut out, s.as_str()),
                JsonScalar::Other => {},
            }
        },
        None => {},
    }
    assert(out@ =~= a + serial_line(member(v, "serial_num"@)));
    let ghost b = out@;
    match find_member(obj, "fw_version") {
        Some(x) => {
            push_str(&mut out, "\n  Firmware:           ");
            match x {
                JsonScalar::Str(s) => push_str(&mut out, s.as_str()),
                JsonScalar::Num { value, text } => push_num_text(&mut out, *value, text, 16),
                JsonScalar::Other => {},
            }
        },
        None => {},
    }
    assert(out@ =~= b + firmware_line(member(v, "fw_version"@)));
    let ghost c = out@;
    let m = match find_member(obj, "mfr_id") {
        Some(x) => Some(x),
        None => find_member(obj, "manufacturer_id"),
    };
    match m {
        Some(JsonScalar::Num { value, text }) => {
            push_str(&mut out, "\n  Manufacturer ID:    ");
            push_num_text(&mut out, *value, text, 2);
        },
        _ => {},
    }
    assert(out@ =~= c + manufacturer_line(v));
    assert(out@ =~= device_lines(v));
    out
}

fn capacity_part(obj: &Vec<(String, JsonScalar)>) -> (r: String)
    ensures
        r@ == capacity_lines(members_view(obj@)),
{
    let ghost v = members_view(obj@);
    let tb = match member_num(obj, "total_blocks") {
        Some(x) => x,
        None => 0,
    };
    let bs = match member_num(obj, "block_size") {
        Some(x) => x,
        None => 512,
    };
    let mut out = to_owned_string("\n\nCapacity:");
    push_str(&mut out, "\n  Raw Capacity:       ");
    push_str(&mut out, humanize_size(tb.wrapping_mul(bs)).as_str());
    push_str(&mut out, "\n  Total Blocks:       ");
    push_dec(&mut out, tb);
    push_str(&mut out, "\n  Block Size:         ");
    push_dec(&mut out, bs);
    push_str(&mut out, " bytes");
    push_other_size_line(&mut out, "\n  Page Size:          ", member_num(obj, "page_size"), bs);
    push_dec_line(&mut out, "\n  Logical Blocks:     ", member_num(obj, "logical_block_count"));
    push_other_size_line(&mut out, "\n  Logical Block Size: ", member_num(obj, "logical_block_size"), bs);
    push_dec_line(&mut out, "\n  Physical Units:     ", member_num(obj, "num_physical"));
    assert(out@ =~= capacity_lines(v));
    out
}

fn push_flag_line(out: &mut String, label: &str, o: Option<u64>, yes: &str, no: &str)
    ensures
        final(out)@ == old(out)@ + match o {
            Some(v) => label@ + if v != 0 {
                yes@
            } else {
                no@
            },
            None => seq![],
        },
{
    let ghost start = out@;
    match o {
        Some(v) => {
            push_str(out, label);
            if v != 0 {
                push_str(out, yes);
            } else {
                push_str(out, no);
            }
        },
        None => {},
    }
    assert(out@ =~= start + match o {
        Some(v) => label@ + if v != 0 {
            yes@
        } else {
            no@
        },
        None => seq![],
    });
}

fn push_choice_line(out: &mut String, label: &str, o: Option<u64>, n0: &str, n1: &str, n2: &str)
    ensures
        final(out)@ == old(out)@ + choice_line(label@, o, seq![n0@, n1@, n2@], "Unknown"@),
{
    let ghost start = out@;
    match o {
        Some(v) => {
            push_str(out, label);
            if v == 0 {
                push_str(out, n0);
            } else if v == 1 {
                push_str(out, n1);
            } else if v == 2 {
                push_str(out, n2);
            } else {
                push_str(out, "Unknown");
            }
        },
        None => {},
    }
    assert(out@ =~= start + choice_line(label@, o, seq![n0@, n1@, n2@], "Unknown"@));
}

#[verifier::spinoff_prover]
#[verifier::rlimit(40)]
fn ufs_part(obj: &Vec<(String, JsonScalar)>) -> (r: String)
    ensures
        r@ == ufs_lines(members_view(obj@)),
{
    let ghost v = members_view(obj@);
    let mut out = to_owned_string("\n\nUFS Configuration:");
    let lu = match find_member(obj, "total_active_lu") {
        Some(x) => Some(x),
        None => find_member(obj, "num_lun"),
    };
    push_dec_line(&mut out, "\n  Total Active LU:    ", num_of(lu));
    push_dec_line(&mut out, "\n  Current LUN:        ", member_num(obj, "current_lun_number"));
    push_dec_line(&mut out, "\n  Boot LUN ID:        ", member_num(obj, "boot_lun_id"));
    let ghost a = out@;
    match member_num(obj, "lun_enable_bitmask") {
        Some(x) => {
            push_str(&mut out, "\n  LUN Enable:         0b");
            let mut bits = String::new();
            push_bin(&mut bits, x);
            let n = bits.as_str().unicode_len();
            if n < 8 {
                push_repeat(&mut out, '0', 8 - n);
            }
            push_str(&mut out, bits.as_str());
        },
        None => {},
    }
    assert(out@ =~= a + match as_num(member(v, "lun_enable_bitmask"@)) {
        Some(x) => "\n  LUN Enable:         0b"@ + zero_pad(bin_str(x as nat), 8),
        None => seq![],
    });
    push_size_line(&mut out, "\n  Min Block Size:     ", member_num(obj, "min_block_size"));
    push_size_line(&mut out, "\n  Erase Block Size:   ", member_num(obj, "erase_block_size"));
    push_size_line(&mut out, "\n  Allocation Unit:    ", member_num(obj, "allocation_unit_size"));
    push_size_line(&mut out, "\n  RPMB RW Size:       ", member_num(obj, "rpmb_readwrite_size"));
    push_flag_line(&mut out, "\n  Boot Partition:     ", member_num(obj, "boot_partition_enabled"), "Enabled", "Disabled");
    push_choice_line(
        &mut out,
        "\n  Write Protect:      ",
        member_num(obj, "lu_write_protect"),
        "None",
        "Power-on Write Protect",
        "Permanent Write Protect",
    );
    push_choice_line(
        &mut out,
        "\n  Provisioning:       ",
        member_num(obj, "provisioning_type"),
        "Not Provisioned",
        "Thin Provisioned",
        "Machine Provisioned",
    );
    push_flag_line(&mut out, "\n  Config Locked:      ", member_num(obj, "b_config_descr_lock"), "Yes", "No");
    let ghost b = out@;
    match text_of(find_member(obj, "inquiry_command_output")) {
        Some(t) => {
            let cleaned = str_trim(str_trim_end_matches(t, '\0'));
            if cleaned.unicode_len() > 0 {
                push_str(&mut out, "\n  SCSI Inquiry:       ");
                push_str(&mut out, cleaned);
            }
        },
        None => {},
    }
    let ghost inquiry = match as_text(member(v, "inquiry_command_output"@)) {
        Some(s) => if trimmed(strip_end(s, '\0')).len() > 0 {
            Some(trimmed(strip_end(s, '\0')))
        } else {
            None
        },
        None => None,
    };
    assert(out@ =~= b + text_line("\n  SCSI Inquiry:       "@, inquiry));
    push_text_line(&mut out, "\n  Supported Types:    ", text_of(find_member(obj, "supported_memory_types")));
    assert(out@ =~= ufs_lines(v));
    out
}

fn emmc_part(obj: &Vec<(String, JsonScalar)>) -> (r: String)
    ensures
        r@ == emmc_lines(members_view(obj@)),
{
    let mut out = String::new();
    match member_num(obj, "ext_csd_rev") {
        Some(x) => {
            push_str(&mut out, "\n\neMMC Configuration:");
            push_str(&mut out, "\n  ExtCSD Rev:         ");
            push_dec(&mut out, x);
        },
        None => {},
    }
    assert(out@ =~= emmc_lines(members_view(obj@)));
    out
}

/// The storage description of the members of a `storage_info` object.
pub fn storage_description(obj: &Vec<(String, JsonScalar)>) -> (r: String)
    ensures
        r@ == storage_section(members_view(obj@)),
{
    let mut out = device_part(obj);
    push_str(&mut out, capacity_part(obj).as_str());
    let ufs = match text_of(find_member(obj, "mem_type")) {
        Some(t) => is_ufs_text(t),
        None => false,
    };
    proof {
        reveal_strlit("Unknown");
    }
    if ufs {
        push_str(&mut out, ufs_part(obj).as_str());
    } else {
        push_str(&mut out, emmc_part(obj).as_str());
    }
    out
}

/// The bytes in upper-case hexadecimal, two digits each.
pub open spec fn hex_bytes(b: Seq<u8>) -> Seq<char>
    decreases b.len(),
{
    if b.len() == 0 {
        seq![]
    } else {
        hex_bytes(b.drop_last()) + zero_pad(hex_str(b.last() as nat, true), 2)
    }
}

/// The opening lines of the summary.
pub open spec fn info_header(storage: Seq<char>, sector_size: u32, total: u64, partitions: nat) -> Seq<char> {
    "Storage:       "@ + storage + "\nSector Size:   "@ + dec_str(sector_size as nat) + " bytes"@
        + "\nTotal Sectors: "@ + dec_str(total as nat) + "\nCapacity:      "@ + human_size(
        (total * sector_size) as u64,
    ) + "\nPartitions:    "@ + dec_str(partitions)
}

/// What the Sahara and Firehose exchanges learned of the device: hardware
/// ID (and the SoC version in its first four bytes), serial, target and
/// loader version, where known.
pub open spec fn session_lines(s: Session) -> Seq<char> {
    opt_id_lines(s.spec_msm_hw_id()) + serial_hex_line(s.spec_serial_num()) + text_line(
        "\nTarget:        "@,
        crate::text::opt_view(s.spec_firehose().target_name),
    ) + text_line("\nFH Version:    "@, crate::text::opt_view(s.spec_firehose().version))
}

/// The hardware ID lines, where the ID is known.
pub open spec fn opt_id_lines(id: Option<Vec<u8>>) -> Seq<char> {
    match id {
        Some(v) => id_lines(v@),
        None => seq![],
    }
}

/// The serial line, where the serial is known.
pub open spec fn serial_hex_line(n: Option<u64>) -> Seq<char> {
    match n {
        Some(v) => "\nSerial:        0x"@ + zero_pad(hex_str(v as nat, true), 16),
        None => seq![],
    }
}

/// What one getstorageinfo message adds: the storage description where it
/// carries a `storage_info` object, the message itself where it names one
/// but is not such JSON or where it is not an error.
pub open spec fn log_part(entry: Seq<char>) -> Seq<char> {
    if contains_text(entry, "storage_info"@) {
        match storage_info_object(json_parsed(entry)) {
            Some(obj) => storage_section(obj),
            None => "\n  "@ + entry,
        }
    } else if !(5 <= entry.len() && entry.subrange(0, 5) == "Error"@) {
        "\n  "@ + entry
    } else {
        seq![]
    }
}

/// What the getstorageinfo messages add.
pub open spec fn log_parts(logs: Seq<Seq<char>>) -> Seq<char>
    decreases logs.len(),
{
    if logs.len() == 0 {
        seq![]
    } else {
        log_parts(logs.drop_last()) + log_part(logs.last())
    }
}

/// The whole summary.
pub open spec fn info_text(
    storage: Seq<char>,
    sector_size: u32,
    total: u64,
    partitions: nat,
    session: Option<Session>,
    logs: Seq<Seq<char>>,
) -> Seq<char> {
    info_header(storage, sector_size, total, partitions) + match session {
        Some(s) => session_lines(s),
        None => seq![],
    } + log_parts(logs)
}

/// The hardware ID lines.
pub open spec fn id_lines(id: Seq<u8>) -> Seq<char> {
    "\nMSM HW ID:     "@ + hex_bytes(id) + if id.len() >= 4 {
        "\nSOC HW Ver:    0x"@ + zero_pad(hex_str(le32(id, 0) as nat, true), 8)
    } else {
        seq![]
    }
}

fn push_id(out: &mut String, id: &[u8])
    ensures
        final(out)@ == old(out)@ + id_lines(id@),
{
    let ghost start = out@;
    push_str(out, "\nMSM HW ID:     ");
    let mut i: usize = 0;
    let ghost a = out@;
    assert(id@.subrange(0, 0) =~= Seq::<u8>::empty());
    while i < id.len()
        invariant
            i <= id@.len(),
            out@ == a + hex_bytes(id@.subrange(0, i as int)),
        decreases id@.len() - i,
    {
        assert(id@.subrange(0, i + 1).drop_last() =~= id@.subrange(0, i as int));
        push_hex_padded(out, id[i] as u64, 2, true);
        i = i + 1;
    }
    assert(id@.subrange(0, id@.len() as int) =~= id@);
    let ghost b = out@;
    if id.len() >= 4 {
        push_str(out, "\nSOC HW Ver:    0x");
        push_hex_padded(out, read_u32_le(id, 0) as u64, 8, true);
    }
    assert(out@ =~= start + id_lines(id@));
}

fn push_session(out: &mut String, s: &Session)
    ensures
        final(out)@ == old(out)@ + session_lines(*s),
{
    let ghost start = out@;
    match s.msm_hw_id() {
        Some(id) => push_id(out, id),
        None => {},
    }
    let ghost a = out@;
    assert(a =~= start + opt_id_lines(s.spec_msm_hw_id()));
    match s.serial_num() {
        Some(n) => {
            push_str(out, "\nSerial:        0x");
            push_hex_padded(out, n, 16, true);
        },
        None => {},
    }
    let ghost b = out@;
    assert(b =~= a + serial_hex_line(s.spec_serial_num()));
    let info = s.firehose_info();
    let t = match &info.target_name {
        Some(t) => Some(t.as_str()),
        None => None,
    };
    push_text_line(out, "\nTarget:        ", t);
    let v = match &info.version {
        Some(v) => Some(v.as_str()),
        None => None,
    };
    push_text_line(out, "\nFH Version:    ", v);
    assert(out@ =~= start + session_lines(*s));
}

fn push_log_part(out: &mut String, entry: &String)
    ensures
        final(out)@ == old(out)@ + log_part(entry@),
{
    let ghost start = out@;
    proof {
        reveal_strlit("Error");
    }
    if str_contains(entry.as_str(), "storage_info") {
        let obj = match parse_json(entry.as_str()) {
            Some(doc) => storage_info_in(&doc),
            None => None,
        };
        match obj {
            Some(obj) => push_str(out, storage_description(&obj).as_str()),
            None => {
                push_str(out, "\n  ");
                push_str(out, entry.as_str());
            },
        }
    } else if !str_starts_with(entry.as_str(), "Error") {
        push_str(out, "\n  ");
        push_str(out, entry.as_str());
    }
    assert(out@ =~= start + log_part(entry@));
}

impl crate::job::jobs::InfoJob {
    /// The device summary: storage, sector size and count, capacity,
    /// partitions, what the session learned, and the storage description
    /// of the getstorageinfo messages `logs`.
    pub fn summary(
        &self,
        storage: &str,
        sector_size: u32,
        total_sectors: u64,
        partitions: usize,
        session: Option<&Session>,
        logs: &Vec<String>,
    ) -> (r: JobResult)
        requires
            total_sectors * sector_size <= u64::MAX,
        ensures
            r.success && r.steps_completed == 1,
            r.message@ == info_text(
                storage@,
                sector_size,
                total_sectors,
                partitions as nat,
                match session {
                    Some(s) => Some(*s),
                    None => None,
                },
                logs@.map_values(|l: String| l@),
            ),
    {
        let mut msg = to_owned_string("Storage:       ");
        push_str(&mut msg, storage);
        push_str(&mut msg, "\nSector Size:   ");
        push_dec(&mut msg, sector_size as u64);
        push_str(&mut msg, " bytes");
        push_str(&mut msg, "\nTotal Sectors: ");
        push_dec(&mut msg, total_sectors);
        push_str(&mut msg, "\nCapacity:      ");
        push_str(&mut msg, humanize_size(total_sectors * (sector_size as u64)).as_str());
        push_str(&mut msg, "\nPartitions:    ");
        push_dec(&mut msg, partitions as u64);
        assert(msg@ =~= info_header(storage@, sector_size, total_sectors, partitions as nat));
        let ghost h = msg@;
        match session {
            Some(s) => push_session(&mut msg, s),
            None => {},
        }
        let ghost h2 = msg@;
        let ghost lv = logs@.map_values(|l: String| l@);
        let mut i: usize = 0;
        while i < logs.len()
            invariant
                i <= logs@.len(),
                lv == logs@.map_values(|l: String| l@),
                msg@ == h2 + log_parts(lv.subrange(0, i as int)),
            decreases logs@.len() - i,
        {
            assert(lv.subrange(0, i + 1).drop_last() =~= lv.subrange(0, i as int));
            assert(lv[i as int] == logs@[i as int]@);
            push_log_part(&mut msg, &logs[i]);
            i = i + 1;
        }
        assert(lv.subrange(0, lv.len() as int) =~= lv);
        JobResult { success: true, message: msg, steps_completed: 1 }
    }
}

proof fn lemma_contains_end(a: Seq<char>, b: Seq<char>)
    ensures
        contains_text(a + b, b),
{
    assert((a + b).subrange(a.len() as int, a.len() + b.len() as int) =~= b);
}

proof fn lemma_contains_extend(x: Seq<char>, y: Seq<char>, p: Seq<char>)
    requires
        contains_text(x, p),
    ensures
        contains_text(x + y, p),
{
    let i = choose|i: int| 0 <= i && i + p.len() <= x.len() && #[trigger] x.subrange(i, i + p.len()) == p;
    assert((x + y).subrange(i, i + p.len()) =~= x.subrange(i, i + p.len()));
}

/// The texts `parts` one after another.
spec fn joined(parts: Seq<Seq<char>>) -> Seq<char>
    decreases parts.len(),
{
    if parts.len() == 0 {
        seq![]
    } else {
        joined(parts.drop_last()) + parts.last()
    }
}

proof fn lemma_joined_contains(parts: Seq<Seq<char>>, k: int)
    requires
        0 <= k < parts.len(),
    ensures
        contains_text(joined(parts), parts[k]),
    decreases parts.len(),
{
    if k == parts.len() - 1 {
        lemma_contains_end(joined(parts.drop_last()), parts.last());
    } else {
        lemma_joined_contains(parts.drop_last(), k);
        lemma_contains_extend(joined(parts.drop_last()), parts.last(), parts[k]);
    }
}

/// The UFS lines report each setting the object holds, by its reported
/// number: the boot partition as enabled exactly when
/// `boot_partition_enabled` is not zero, the configuration as locked exactly
/// when `b_config_descr_lock` is not zero, the write protection and the
/// provisioning by their names (0, 1, 2; `Unknown` otherwise), and the
/// current LUN and boot LUN in decimal.
pub proof fn lemma_ufs_lines(obj: Members)
    ensures
        as_num(member(obj, "boot_partition_enabled"@)) matches Some(v) ==> contains_text(
            ufs_lines(obj),
            "\n  Boot Partition:     "@ + if v != 0 {
                "Enabled"@
            } else {
                "Disabled"@
            },
        ),
        as_num(member(obj, "b_config_descr_lock"@)) matches Some(v) ==> contains_text(
            ufs_lines(obj),
            "\n  Config Locked:      "@ + if v != 0 {
                "Yes"@
            } else {
                "No"@
            },
        ),
        as_num(member(obj, "lu_write_protect"@)) matches Some(v) ==> contains_text(
            ufs_lines(obj),
            "\n  Write Protect:      "@ + if v == 0 {
                "None"@
            } else if v == 1 {
                "Power-on Write Protect"@
            } else if v == 2 {
                "Permanent Write Protect"@
            } else {
                "Unknown"@
            },
        ),
        as_num(member(obj, "provisioning_type"@)) matches Some(v) ==> contains_text(
            ufs_lines(obj),
            "\n  Provisioning:       "@ + if v == 0 {
                "Not Provisioned"@
            } else if v == 1 {
                "Thin Provisioned"@
            } else if v == 2 {
                "Machine Provisioned"@
            } else {
                "Unknown"@
            },
        ),
        as_num(member(obj, "current_lun_number"@)) matches Some(v) ==> contains_text(
            ufs_lines(obj),
            "\n  Current LUN:        "@ + dec_str(v as nat),
        ),
        as_num(member(obj, "boot_lun_id"@)) matches Some(v) ==> contains_text(
            ufs_lines(obj),
            "\n  Boot LUN ID:        "@ + dec_str(v as nat),
        ),
{
    let lu = match member(obj, "total_active_lu"@) {
        Some(x) => Some(x),
        None => member(obj, "num_lun"@),
    };
    let inquiry = match as_text(member(obj, "inquiry_command_output"@)) {
        Some(s) => if trimmed(strip_end(s, '\0')).len() > 0 {
            Some(trimmed(strip_end(s, '\0')))
        } else {
            None
        },
        None => None,
    };
    let parts = seq![
        "\n\nUFS Configuration:"@,
        dec_line("\n  Total Active LU:    "@, as_num(lu)),
        dec_line("\n  Current LUN:        "@, as_num(member(obj, "current_lun_number"@))),
        dec_line("\n  Boot LUN ID:        "@, as_num(member(obj, "boot_lun_id"@))),
        match as_num(member(obj, "lun_enable_bitmask"@)) {
            Some(v) => "\n  LUN Enable:         0b"@ + zero_pad(bin_str(v as nat), 8),
            None => seq![],
        },
        size_line("\n  Min Block Size:     "@, as_num(member(obj, "min_block_size"@))),
        size_line("\n  Erase Block Size:   "@, as_num(member(obj, "erase_block_size"@))),
        size_line("\n  Allocation Unit:    "@, as_num(member(obj, "allocation_unit_size"@))),
        size_line("\n  RPMB RW Size:       "@, as_num(member(obj, "rpmb_readwrite_size"@))),
        match as_num(member(obj, "boot_partition_enabled"@)) {
            Some(v) => "\n  Boot Partition:     "@ + (if v != 0 { "Enabled"@ } else { "Disabled"@ }),
            None => seq![],
        },
        choice_line(
            "\n  Write Protect:      "@,
            as_num(member(obj, "lu_write_protect"@)),
            seq!["None"@, "Power-on Write Protect"@, "Permanent Write Protect"@],
            "Unknown"@,
        ),
        choice_line(
            "\n  Provisioning:       "@,
            as_num(member(obj, "provisioning_type"@)),
            seq!["Not Provisioned"@, "Thin Provisioned"@, "Machine Provisioned"@],
            "Unknown"@,
        ),
        match as_num(member(obj, "b_config_descr_lock"@)) {
            Some(v) => "\n  Config Locked:      "@ + (if v != 0 { "Yes"@ } else { "No"@ }),
            None => seq![],
        },
        text_line("\n  SCSI Inquiry:       "@, inquiry),
        text_line("\n  Supported Types:    "@, as_text(member(obj, "supported_memory_types"@))),
    ];
    reveal_with_fuel(joined, 16);
    assert(ufs_lines(obj) == joined(parts));
    lemma_joined_contains(parts, 2);
    lemma_joined_contains(parts, 3);
    lemma_joined_contains(parts, 9);
    lemma_joined_contains(parts, 10);
    lemma_joined_contains(parts, 11);
    lemma_joined_contains(parts, 12);
    let wp_names = seq!["None"@, "Power-on Write Protect"@, "Permanent Write Protect"@];
    let pv_names = seq!["Not Provisioned"@, "Thin Provisioned"@, "Machine Provisioned"@];
    assert(wp_names[0] == "None"@ && wp_names[1] == "Power-on Write Protect"@ && wp_names[2]
        == "Permanent Write Protect"@);
    assert(pv_names[0] == "Not Provisioned"@ && pv_names[1] == "Thin Provisioned"@ && pv_names[2]
        == "Machine Provisioned"@);
}

proof fn lemma_contains_prepend(x: Seq<char>, y: Seq<char>, p: Seq<char>)
    requires
        contains_text(y, p),
    ensures
        contains_text(x + y, p),
{
    let i = choose|i: int| 0 <= i && i + p.len() <= y.len() && #[trigger] y.subrange(i, i + p.len()) == p;
    assert((x + y).subrange(x.len() + i, x.len() + i + p.len()) =~= y.subrange(i, i + p.len()));
}

proof fn lemma_joined_split(parts: Seq<Seq<char>>, k: int)
    requires
        0 <= k <= parts.len(),
    ensures
        joined(parts) == joined(parts.subrange(0, k)) + joined(parts.subrange(k, parts.len() as int)),
    decreases parts.len(),
{
    if k == parts.len() {
        assert(parts.subrange(0, k) =~= parts);
        assert(joined(parts.subrange(k, parts.len() as int)) == Seq::<char>::empty());
        assert(joined(parts) + Seq::<char>::empty() =~= joined(parts));
    } else {
        lemma_joined_split(parts.drop_last(), k);
        assert(parts.drop_last().subrange(0, k) =~= parts.subrange(0, k));
        let r = parts.subrange(k, parts.len() as int);
        assert(r.drop_last() =~= parts.drop_last().subrange(k, parts.len() - 1));
        assert(r.last() == parts.last());
        assert(joined(parts) =~= joined(parts.subrange(0, k)) + joined(r));
    }
}

proof fn lemma_joined_contains_run(parts: Seq<Seq<char>>, k: int, m: int)
    requires
        0 <= k <= m <= parts.len(),
    ensures
        contains_text(joined(parts), joined(parts.subrange(k, m))),
{
    lemma_joined_split(parts, m);
    let front = parts.subrange(0, m);
    lemma_joined_split(front, k);
    assert(front.subrange(0, k) =~= parts.subrange(0, k));
    assert(front.subrange(k, m) =~= parts.subrange(k, m));
    lemma_contains_end(joined(front.subrange(0, k)), joined(parts.subrange(k, m)));
    lemma_contains_extend(joined(front), joined(parts.subrange(m, parts.len() as int)), joined(parts.subrange(k, m)));
}

proof fn lemma_device_memory_type(obj: Members)
    ensures
        contains_text(device_lines(obj), "\n  Memory Type:        "@ + mem_type_of(obj)),
{
    let parts = seq![
        "\n\nStorage Device Info:"@,
        "\n  Memory Type:        "@,
        mem_type_of(obj),
        text_line("\n  Product:            "@, as_text(member(obj, "prod_name"@))),
        serial_line(member(obj, "serial_num"@)),
        firmware_line(member(obj, "fw_version"@)),
        manufacturer_line(obj),
    ];
    reveal_with_fuel(joined, 8);
    assert(device_lines(obj) == joined(parts));
    lemma_joined_contains_run(parts, 1, 3);
    assert(parts.subrange(1, 3) =~= seq!["\n  Memory Type:        "@, mem_type_of(obj)]);
    reveal_with_fuel(joined, 3);
    assert(joined(parts.subrange(1, 3)) =~= "\n  Memory Type:        "@ + mem_type_of(obj));
}

proof fn lemma_capacity_counts(obj: Members)
    ensures
        contains_text(
            capacity_lines(obj),
            "\n  Total Blocks:       "@ + dec_str(num_or(as_num(member(obj, "total_blocks"@)), 0) as nat),
        ),
        contains_text(
            capacity_lines(obj),
            "\n  Block Size:         "@ + dec_str(num_or(as_num(member(obj, "block_size"@)), 512) as nat) + " bytes"@,
        ),
{
    let tb = num_or(as_num(member(obj, "total_blocks"@)), 0);
    let bs = num_or(as_num(member(obj, "block_size"@)), 512);
    let parts = seq![
        "\n\nCapacity:"@,
        "\n  Raw Capacity:       "@,
        human_size(tb.wrapping_mul(bs)),
        "\n  Total Blocks:       "@,
        dec_str(tb as nat),
        "\n  Block Size:         "@,
        dec_str(bs as nat),
        " bytes"@,
        other_size_line("\n  Page Size:          "@, as_num(member(obj, "page_size"@)), bs),
        dec_line("\n  Logical Blocks:     "@, as_num(member(obj, "logical_block_count"@))),
        other_size_line("\n  Logical Block Size: "@, as_num(member(obj, "logical_block_size"@)), bs),
        dec_line("\n  Physical Units:     "@, as_num(member(obj, "num_physical"@))),
    ];
    reveal_with_fuel(joined, 13);
    assert(capacity_lines(obj) == joined(parts));
    lemma_joined_contains_run(parts, 3, 5);
    lemma_joined_contains_run(parts, 5, 8);
    assert(parts.subrange(3, 5) =~= seq!["\n  Total Blocks:       "@, dec_str(tb as nat)]);
    assert(parts.subrange(5, 8) =~= seq!["\n  Block Size:         "@, dec_str(bs as nat), " bytes"@]);
    assert(joined(parts.subrange(3, 5)) =~= "\n  Total Blocks:       "@ + dec_str(tb as nat));
    assert(joined(parts.subrange(5, 8)) =~= "\n  Block Size:         "@ + dec_str(bs as nat) + " bytes"@);
}

/// A description of a storage object names its memory type, shows the UFS
/// settings for UFS memory (in any case) and the eMMC revision otherwise, and
/// gives the total block count (0 when absent) and the block size (512 bytes
/// when absent).
pub proof fn lemma_storage_section(obj: Members)
    ensures
        contains_text(storage_section(obj), "\n  Memory Type:        "@ + mem_type_of(obj)),
        as_text(member(obj, "mem_type"@)) is None ==> mem_type_of(obj) == "Unknown"@,
        as_text(member(obj, "mem_type"@)) matches Some(t) ==> mem_type_of(obj) == t,
        is_ufs(mem_type_of(obj)) ==> contains_text(storage_section(obj), ufs_lines(obj)),
        !is_ufs(mem_type_of(obj)) ==> contains_text(storage_section(obj), emmc_lines(obj)),
        as_num(member(obj, "ext_csd_rev"@)) matches Some(v) ==> emmc_lines(obj) == "\n\neMMC Configuration:"@
            + "\n  ExtCSD Rev:         "@ + dec_str(v as nat),
        contains_text(
            storage_section(obj),
            "\n  Total Blocks:       "@ + dec_str(
                match as_num(member(obj, "total_blocks"@)) {
                    Some(t) => t as nat,
                    None => 0,
                },
            ),
        ),
        contains_text(
            storage_section(obj),
            "\n  Block Size:         "@ + dec_str(
                match as_num(member(obj, "block_size"@)) {
                    Some(b) => b as nat,
                    None => 512,
                },
            ) + " bytes"@,
        ),
{
    let dev = device_lines(obj);
    let cap = capacity_lines(obj);
    let tail = if is_ufs(mem_type_of(obj)) {
        ufs_lines(obj)
    } else {
        emmc_lines(obj)
    };
    assert(storage_section(obj) == dev + cap + tail);
    lemma_device_memory_type(obj);
    lemma_contains_extend(dev, cap, "\n  Memory Type:        "@ + mem_type_of(obj));
    lemma_contains_extend(dev + cap, tail, "\n  Memory Type:        "@ + mem_type_of(obj));
    lemma_capacity_counts(obj);
    let tl = "\n  Total Blocks:       "@ + dec_str(num_or(as_num(member(obj, "total_blocks"@)), 0) as nat);
    let bl = "\n  Block Size:         "@ + dec_str(num_or(as_num(member(obj, "block_size"@)), 512) as nat)
        + " bytes"@;
    lemma_contains_prepend(dev, cap, tl);
    lemma_contains_extend(dev + cap, tail, tl);
    lemma_contains_prepend(dev, cap, bl);
    lemma_contains_extend(dev + cap, tail, bl);
    lemma_contains_end(dev + cap, tail);
}

} // verus!
