//! What the command line parses from its arguments and shows of results:
//! addresses, hex data, memory dumps, generated rawprogram files.

use crate::base::types::{span_bytes, PartitionInfo};
use crate::base::util::printable;
use crate::num::{parsed_unsigned, u64_from_str_radix, u8_from_str_radix};
use crate::text::{
    chars_of, contains_text, dec_str, hex_str, pad_right, push_char, push_dec, push_hex_padded,
    push_padded_right, push_str, split_words, str_contains, str_starts_with, str_trim,
    str_trim_end_matches, string_of_chars, strip_end, to_owned_string, trimmed, words, zero_pad,
};
use vstd::prelude::*;

verus! {

/// `s` begins with `p`.
pub open spec fn starts(s: Seq<char>, p: Seq<char>) -> bool {
    p.len() <= s.len() && s.subrange(0, p.len() as int) == p
}

/// `m` begins with `p`.
pub open spec fn begins(m: Seq<char>, p: Seq<char>) -> bool {
    starts(m, p)
}

/// An address as given: hexadecimal after `0x` or `0X`, else decimal,
/// around white space.
pub open spec fn address_value(s: Seq<char>) -> Option<nat> {
    let t = trimmed(s);
    if starts(t, "0x"@) || starts(t, "0X"@) {
        parsed_unsigned(t.subrange(2, t.len() as int), 16, u64::MAX as nat)
    } else {
        parsed_unsigned(t, 10, u64::MAX as nat)
    }
}

/// Parses an address; the error names the text and says why.
pub fn parse_hex_or_decimal(s: &str) -> (r: Result<u64, String>)
    ensures
        match address_value(s@) {
            Some(v) => r == Ok::<u64, String>(v as u64),
            None => r matches Err(m) && if starts(trimmed(s@), "0x"@) || starts(trimmed(s@), "0X"@) {
                begins(m@, "Invalid hex address '"@ + trimmed(s@) + "': "@)
            } else {
                begins(m@, "Invalid address '"@ + trimmed(s@) + "': "@)
            },
        },
{
    let t = str_trim(s);
    proof {
        reveal_strlit("0x");
        reveal_strlit("0X");
    }
    let hex = str_starts_with(t, "0x") || str_starts_with(t, "0X");
    let r = if hex {
        let n = t.unicode_len();
        u64_from_str_radix(t.substring_char(2, n), 16)
    } else {
        u64_from_str_radix(t, 10)
    };
    match r {
        Ok(v) => Ok(v),
        Err(e) => {
            let mut m = if hex {
                to_owned_string("Invalid hex address '")
            } else {
                to_owned_string("Invalid address '")
            };
            push_str(&mut m, t);
            push_str(&mut m, "': ");
            let ghost p = m@;
            push_str(&mut m, e.as_str());
            assert(m@.subrange(0, p.len() as int) =~= p);
            Err(m)
        },
    }
}

/// Why hex data could not be read.
pub enum HexFault {
    /// A continuous string of odd length.
    Odd,
    /// The pair at this character position is not a hex byte.
    BadPair(nat),
    /// A word that is not two hex digits long (after `0x`).
    BadLength(Seq<char>),
    /// A word that is not a hex byte.
    BadByte(Seq<char>),
    /// No word at all.
    Nothing,
}

/// A word without its `0x` or `0X` prefix.
pub open spec fn unprefixed(w: Seq<char>) -> Seq<char> {
    if starts(w, "0x"@) || starts(w, "0X"@) {
        w.subrange(2, w.len() as int)
    } else {
        w
    }
}

/// The bytes of the first `k` pairs of a continuous hex string.
pub open spec fn pairs_from(t: Seq<char>, k: nat) -> Result<Seq<u8>, HexFault>
    decreases k,
{
    if k == 0 {
        Ok(seq![])
    } else {
        match pairs_from(t, (k - 1) as nat) {
            Ok(b) => match parsed_unsigned(t.subrange(2 * (k - 1), 2 * k as int), 16, 255) {
                Some(v) => Ok(b.push(v as u8)),
                None => Err(HexFault::BadPair(2 * (k - 1) as nat)),
            },
            Err(f) => Err(f),
        }
    }
}

/// The bytes of the words `ws`, one per word.
pub open spec fn words_bytes(ws: Seq<Seq<char>>) -> Result<Seq<u8>, HexFault>
    decreases ws.len(),
{
    if ws.len() == 0 {
        Ok(seq![])
    } else {
        match words_bytes(ws.drop_last()) {
            Ok(b) => {
                let h = unprefixed(ws.last());
                if h.len() != 2 {
                    Err(HexFault::BadLength(ws.last()))
                } else {
                    match parsed_unsigned(h, 16, 255) {
                        Some(v) => Ok(b.push(v as u8)),
                        None => Err(HexFault::BadByte(ws.last())),
                    }
                }
            },
            Err(f) => Err(f),
        }
    }
}

/// Hex data as given: a continuous string of digit pairs (no space, no
/// `0x`), or words of two digits each with or without `0x`.
pub open spec fn hex_data(s: Seq<char>) -> Result<Seq<u8>, HexFault> {
    let t = trimmed(s);
    if !contains_text(t, " "@) && !contains_text(t, "0x"@) && !contains_text(t, "0X"@) {
        if t.len() % 2 != 0 {
            Err(HexFault::Odd)
        } else {
            pairs_from(t, t.len() / 2)
        }
    } else {
        match words_bytes(words(t)) {
            Ok(b) => if b.len() == 0 {
                Err(HexFault::Nothing)
            } else {
                Ok(b)
            },
            Err(f) => Err(f),
        }
    }
}

/// The text is ASCII.
pub open spec fn ascii_text(s: Seq<char>) -> bool {
    forall|i: int| 0 <= i < s.len() ==> (s[i] as u32) < 128
}

fn pair_bytes(t: &Vec<char>) -> (r: Result<Vec<u8>, (usize, String)>)
    requires
        t@.len() % 2 == 0,
    ensures
        match pairs_from(t@, t@.len() / 2) {
            Ok(b) => r matches Ok(v) && v@ == b,
            Err(HexFault::BadPair(p)) => r matches Err((q, _)) && q == p,
            Err(_) => false,
        },
{
    let mut out: Vec<u8> = Vec::new();
    let len = t.len();
    let n = len / 2;
    let mut k: usize = 0;
    while k < n
        invariant
            k <= n,
            len == t@.len(),
            n == t@.len() / 2,
            t@.len() % 2 == 0,
            pairs_from(t@, k as nat) == Ok::<Seq<u8>, HexFault>(out@),
        decreases n - k,
    {
        let pair = string_of_chars(t, 2 * k, 2 * k + 2);
        match u8_from_str_radix(pair.as_str(), 16) {
            Ok(v) => {
                out.push(v);
            },
            Err(e) => {
                proof {
                    lemma_pairs_fault_stays(t@, (k + 1) as nat, n as nat);
                }
                return Err((2 * k, e));
            },
        }
        k = k + 1;
    }
    Ok(out)
}

proof fn lemma_pairs_fault_stays(t: Seq<char>, k: nat, n: nat)
    requires
        k <= n,
        pairs_from(t, k) is Err,
    ensures
        pairs_from(t, n) == pairs_from(t, k),
    decreases n - k,
{
    if k < n {
        lemma_pairs_fault_stays(t, k, (n - 1) as nat);
    }
}

proof fn lemma_words_fault_stays(ws: Seq<Seq<char>>, k: int)
    requires
        0 <= k <= ws.len(),
        words_bytes(ws.subrange(0, k)) is Err,
    ensures
        words_bytes(ws) == words_bytes(ws.subrange(0, k)),
    decreases ws.len() - k,
{
    if k < ws.len() {
        assert(ws.subrange(0, k + 1).drop_last() =~= ws.subrange(0, k));
        lemma_words_fault_stays(ws, k + 1);
    } else {
        assert(ws.subrange(0, k) =~= ws);
    }
}

/// Parses hex data: digit pairs, or words of two digits with or without
/// `0x`. The errors name the problem.
pub fn parse_hex_data(s: &str) -> (r: Result<Vec<u8>, String>)
    requires
        ascii_text(s@),
    ensures
        match hex_data(s@) {
            Ok(b) => r matches Ok(v) && v@ == b,
            Err(HexFault::Odd) => r matches Err(m) && m@ == "Hex string must have even number of characters: '"@
                + trimmed(s@) + "'"@,
            Err(HexFault::BadPair(p)) => r matches Err(m) && begins(
                m@,
                "Invalid hex at position "@ + dec_str(p) + ": "@,
            ),
            Err(HexFault::BadLength(w)) => r matches Err(m) && m@ == "Expected 2 hex characters per byte, got '"@
                + w + "'"@,
            Err(HexFault::BadByte(w)) => r matches Err(m) && begins(m@, "Invalid hex byte '"@ + w + "': "@),
            Err(HexFault::Nothing) => r matches Err(m) && m@ == "No hex data provided"@,
        },
{
    let t = str_trim(s);
    proof {
        reveal_strlit("0x");
        reveal_strlit("0X");
    }
    if !str_contains(t, " ") && !str_contains(t, "0x") && !str_contains(t, "0X") {
        let cs = chars_of(t);
        if cs.len() % 2 != 0 {
            let mut m = to_owned_string("Hex string must have even number of characters: '");
            push_str(&mut m, t);
            push_str(&mut m, "'");
            return Err(m);
        }
        return match pair_bytes(&cs) {
            Ok(v) => Ok(v),
            Err((p, e)) => {
                let mut m = to_owned_string("Invalid hex at position ");
                push_dec(&mut m, p as u64);
                push_str(&mut m, ": ");
                let ghost pre = m@;
                push_str(&mut m, e.as_str());
                assert(m@.subrange(0, pre.len() as int) =~= pre);
                Err(m)
            },
        };
    }
    let ws = split_words(t);
    let ghost wv = ws@.map_values(|w: Vec<char>| w@);
    let mut out: Vec<u8> = Vec::new();
    let mut i: usize = 0;
    while i < ws.len()
        invariant
            i <= ws@.len(),
            wv == ws@.map_values(|w: Vec<char>| w@),
            wv == words(t@),
            t@ == trimmed(s@),
            !(!contains_text(t@, " "@) && !contains_text(t@, "0x"@) && !contains_text(t@, "0X"@)),
            words_bytes(wv.subrange(0, i as int)) == Ok::<Seq<u8>, HexFault>(out@),
        decreases ws@.len() - i,
    {
        assert(wv.subrange(0, i + 1).drop_last() =~= wv.subrange(0, i as int));
        let w = &ws[i];
        assert(wv[i as int] == w@);
        let n = w.len();
        let start: usize = if n >= 2 && w[0] == '0' && (w[1] == 'x' || w[1] == 'X') {
            2
        } else {
            0
        };
        let h = string_of_chars(w, start, n);
        assert(h@ == unprefixed(w@)) by {
            reveal_strlit("0x");
            reveal_strlit("0X");
            assert("0x"@ =~= seq!['0', 'x']);
            assert("0X"@ =~= seq!['0', 'X']);
            if n >= 2 {
                assert(w@.subrange(0, 2) =~= seq![w@[0], w@[1]]);
            }
        }
        let word = string_of_chars(w, 0, n);
        assert(word@ =~= w@);
        if n - start != 2 {
            proof {
                lemma_words_fault_stays(wv, i + 1);
            }
            let mut m = to_owned_string("Expected 2 hex characters per byte, got '");
            push_str(&mut m, word.as_str());
            push_str(&mut m, "'");
            return Err(m);
        }
        match u8_from_str_radix(h.as_str(), 16) {
            Ok(v) => out.push(v),
            Err(e) => {
                proof {
                    lemma_words_fault_stays(wv, i + 1);
                }
                let mut m = to_owned_string("Invalid hex byte '");
                push_str(&mut m, word.as_str());
                push_str(&mut m, "': ");
                let ghost pre = m@;
                push_str(&mut m, e.as_str());
                assert(m@.subrange(0, pre.len() as int) =~= pre);
                return Err(m);
            },
        }
        i = i + 1;
    }
    assert(wv.subrange(0, wv.len() as int) =~= wv);
    if out.len() == 0 {
        return Err(to_owned_string("No hex data provided"));
    }
    Ok(out)
}

/// The hex part of a displayed dump line: each byte as a space and two
/// upper-case digits, with one more space before the ninth.
pub open spec fn display_hex(c: Seq<u8>) -> Seq<char>
    decreases c.len(),
{
    if c.len() == 0 {
        seq![]
    } else {
        display_hex(c.drop_last()) + (if c.len() == 9 {
            "  "@
        } else {
            " "@
        }) + zero_pad(hex_str(c.last() as nat, true), 2)
    }
}

/// One displayed dump line of the bytes `c` at `offset`.
pub open spec fn display_line(c: Seq<u8>, offset: nat) -> Seq<char> {
    "    "@ + zero_pad(hex_str(offset, true), 8) + "  "@ + pad_right(display_hex(c), 49) + "  |"@
        + c.map_values(|b: u8| printable(b)) + "|"@
}

/// The bytes of displayed line `i`.
pub open spec fn display_chunk(s: Seq<u8>, i: int) -> Seq<u8> {
    s.subrange(16 * i, if 16 * i + 16 <= s.len() { 16 * i + 16 } else { s.len() as int })
}

fn printable_char(b: u8) -> (c: char)
    ensures
        c == printable(b),
{
    if (0x21 <= b && b <= 0x7E) || b == 0x20 {
        b as char
    } else {
        '.'
    }
}

fn display_line_of(data: &[u8], start: usize, end: usize) -> (r: String)
    requires
        start <= end <= data@.len(),
        start % 16 == 0,
    ensures
        r@ == display_line(data@.subrange(start as int, end as int), start as nat),
{
    let mut hex = String::new();
    let mut j: usize = start;
    while j < end
        invariant
            start <= j <= end <= data@.len(),
            hex@ == display_hex(data@.subrange(start as int, j as int)),
        decreases end - j,
    {
        assert(data@.subrange(start as int, j + 1).drop_last() =~= data@.subrange(start as int, j as int));
        if j - start == 8 {
            push_str(&mut hex, "  ");
        } else {
            push_str(&mut hex, " ");
        }
        push_hex_padded(&mut hex, data[j] as u64, 2, true);
        j = j + 1;
    }
    let mut text = String::new();
    let mut k: usize = start;
    while k < end
        invariant
            start <= k <= end <= data@.len(),
            text@ == data@.subrange(start as int, k as int).map_values(|b: u8| printable(b)),
        decreases end - k,
    {
        push_char(&mut text, printable_char(data[k]));
        assert(text@ =~= data@.subrange(start as int, k + 1).map_values(|b: u8| printable(b)));
        k = k + 1;
    }
    let mut line = to_owned_string("    ");
    push_hex_padded(&mut line, start as u64, 8, true);
    push_str(&mut line, "  ");
    push_padded_right(&mut line, hex.as_str(), 49);
    push_str(&mut line, "  |");
    push_str(&mut line, text.as_str());
    push_str(&mut line, "|");
    line
}

/// The lines that show `data`, sixteen bytes each.
pub fn hex_dump_lines(data: &[u8]) -> (r: Vec<String>)
    ensures
        r@.len() == (data@.len() + 15) / 16,
        forall|i: int| 0 <= i < r@.len() ==> #[trigger] r@[i]@ == display_line(display_chunk(data@, i), (16 * i) as nat),
{
    let mut out: Vec<String> = Vec::new();
    let n = data.len();
    let m = n / 16 + if n % 16 == 0 {
        0
    } else {
        1
    };
    assert(m == (n + 15) / 16);
    let mut i: usize = 0;
    while i < m
        invariant
            n == data@.len(),
            m == (n + 15) / 16,
            i <= m,
            out@.len() == i,
            forall|k: int| 0 <= k < out@.len() ==> #[trigger] out@[k]@ == display_line(display_chunk(data@, k), (16 * k) as nat),
        decreases m - i,
    {
        let start = 16 * i;
        let end = if n - start >= 16 {
            start + 16
        } else {
            n
        };
        let line = display_line_of(data, start, end);
        assert(display_chunk(data@, i as int) == data@.subrange(start as int, end as int));
        out.push(line);
        i = i + 1;
    }
    out
}

/// The name a generated rawprogram file gives a partition: trimmed,
/// without trailing NULs.
pub open spec fn program_name(p: PartitionInfo) -> Seq<char> {
    strip_end(trimmed(p.name@), '\0')
}

/// The `<program>` line for a partition.
pub open spec fn program_line(p: PartitionInfo, sector_size: u32) -> Seq<char> {
    let n = program_name(p);
    let sectors = (p.last_lba - p.first_lba + 1) as nat;
    "  <program SECTOR_SIZE_IN_BYTES=\""@ + dec_str(sector_size as nat) + "\" file_sector_offset=\"0\" filename=\""@
        + n + ".img\" label=\""@ + n + "\" num_partition_sectors=\""@ + dec_str(sectors)
        + "\" physical_partition_number=\""@ + dec_str(p.physical_partition as nat) + "\" size_in_KB=\""@
        + dec_str(((sectors * sector_size) / 1024) as nat) + "\" sparse=\"false\" start_byte=\"0\" start_sector=\""@
        + dec_str(p.first_lba as nat) + "\" />"@
}

/// Each partition's line after a line break.
pub open spec fn program_lines(ps: Seq<PartitionInfo>, sector_size: u32) -> Seq<char>
    decreases ps.len(),
{
    if ps.len() == 0 {
        seq![]
    } else {
        program_lines(ps.drop_last(), sector_size) + "\n"@ + program_line(ps.last(), sector_size)
    }
}

/// A rawprogram file for the partitions: the XML declaration, `<data>`,
/// one `<program>` per partition, `</data>`, one per line.
pub open spec fn rawprogram_text(ps: Seq<PartitionInfo>, sector_size: u32) -> Seq<char> {
    "<?xml version=\"1.0\" encoding=\"UTF-8\"?>\n<data>"@ + program_lines(ps, sector_size) + "\n</data>"@
}

/// Writes a rawprogram file that programs every partition from an image
/// named after it.
pub fn rawprogram_xml(parts: &Vec<PartitionInfo>, sector_size: u32) -> (r: String)
    requires
        forall|i: int|
            0 <= i < parts@.len() ==> (#[trigger] parts@[i]).first_lba <= parts@[i].last_lba && span_bytes(
                parts@[i].first_lba,
                parts@[i].last_lba,
                sector_size,
            ) <= u64::MAX && parts@[i].last_lba - parts@[i].first_lba < u64::MAX,
    ensures
        r@ == rawprogram_text(parts@, sector_size),
{
    let mut out = to_owned_string("<?xml version=\"1.0\" encoding=\"UTF-8\"?>\n<data>");
    let ghost head = out@;
    let mut i: usize = 0;
    while i < parts.len()
        invariant
            i <= parts@.len(),
            forall|k: int|
                0 <= k < parts@.len() ==> (#[trigger] parts@[k]).first_lba <= parts@[k].last_lba && span_bytes(
                    parts@[k].first_lba,
                    parts@[k].last_lba,
                    sector_size,
                ) <= u64::MAX && parts@[k].last_lba - parts@[k].first_lba < u64::MAX,
            out@ == head + program_lines(parts@.subrange(0, i as int), sector_size),
        decreases parts@.len() - i,
    {
        assert(parts@.subrange(0, i + 1).drop_last() =~= parts@.subrange(0, i as int));
        let p = &parts[i];
        let ghost before = out@;
        let name = str_trim_end_matches(str_trim(p.name.as_str()), '\0');
        let sectors = p.last_lba - p.first_lba + 1;
        proof {
            assert(sectors * sector_size == span_bytes(p.first_lba, p.last_lba, sector_size));
        }
        push_str(&mut out, "\n");
        push_str(&mut out, "  <program SECTOR_SIZE_IN_BYTES=\"");
        push_dec(&mut out, sector_size as u64);
        push_str(&mut out, "\" file_sector_offset=\"0\" filename=\"");
        push_str(&mut out, name);
        push_str(&mut out, ".img\" label=\"");
        push_str(&mut out, name);
        push_str(&mut out, "\" num_partition_sectors=\"");
        push_dec(&mut out, sectors);
        push_str(&mut out, "\" physical_partition_number=\"");
        push_dec(&mut out, p.physical_partition as u64);
        push_str(&mut out, "\" size_in_KB=\"");
        push_dec(&mut out, (sectors * sector_size as u64) / 1024);
        push_str(&mut out, "\" sparse=\"false\" start_byte=\"0\" start_sector=\"");
        push_dec(&mut out, p.first_lba);
        push_str(&mut out, "\" />");
        assert(out@ =~= before + "\n"@ + program_line(*p, sector_size));
        i = i + 1;
    }
    assert(parts@.subrange(0, parts@.len() as int) =~= parts@);
    push_str(&mut out, "\n</data>");
    out
}

} // verus!
