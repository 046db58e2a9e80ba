//! Size rendering and hex dumps.

use crate::text::{dec_str, hex_str, push_char, push_dec, push_hex_padded, push_str, zero_pad};
use vstd::prelude::*;

verus! {

/// `bytes` rendered with decimal units (kB, MB, GB, ...), as
/// `humansize::format_size(bytes, DECIMAL)` renders it.
pub uninterp spec fn human_size(bytes: u64) -> Seq<char>;

/// Renders a byte count with decimal units (`humansize` with `DECIMAL`).
#[verifier::external_body]
pub fn humanize_size(bytes: u64) -> (r: String)
    ensures
        r@ == human_size(bytes),
{
    humansize::format_size(bytes, humansize::DECIMAL)
}

} // verus!

verus! {

/// How a dump shows a byte in its text column.
pub open spec fn printable(b: u8) -> char {
    if (0x21 <= b && b <= 0x7E) || b == 0x20 {
        b as char
    } else {
        '.'
    }
}

/// The hex column of a dump line: each byte as two digits and a space, with
/// an extra space after the eighth.
pub open spec fn hex_column(c: Seq<u8>) -> Seq<char>
    decreases c.len(),
{
    if c.len() == 0 {
        seq![]
    } else {
        hex_column(c.drop_last()) + zero_pad(hex_str(c.last() as nat, false), 2) + " "@ + if c.len()
            == 8 {
            " "@
        } else {
            Seq::empty()
        }
    }
}

/// `k` blanks of three spaces.
pub open spec fn blanks(k: nat) -> Seq<char>
    decreases k,
{
    if k == 0 {
        seq![]
    } else {
        blanks((k - 1) as nat) + "   "@
    }
}

/// The padding that lines up the text column of a short line.
pub open spec fn short_line_gap(n: nat) -> Seq<char> {
    if n < 16 {
        blanks((16 - n) as nat) + if n < 8 {
            " "@
        } else {
            Seq::empty()
        }
    } else {
        Seq::empty()
    }
}

/// One dump line: the offset, the hex column and the text column.
pub open spec fn dump_line(c: Seq<u8>, i: nat) -> Seq<char> {
    zero_pad(hex_str(i * 16, false), 8) + "  "@ + hex_column(c) + short_line_gap(c.len()) + " |"@
        + c.map_values(|b: u8| printable(b)) + "|\n"@
}

/// The bytes of line `i`.
pub open spec fn line_bytes(s: Seq<u8>, i: int) -> Seq<u8> {
    s.subrange(16 * i, if 16 * i + 16 <= s.len() { 16 * i + 16 } else { s.len() as int })
}

/// The first `k` lines of a dump of `s`.
pub open spec fn dump_lines(s: Seq<u8>, k: nat) -> Seq<char>
    decreases k,
{
    if k == 0 {
        seq![]
    } else {
        dump_lines(s, (k - 1) as nat) + dump_line(line_bytes(s, k - 1), (k - 1) as nat)
    }
}

/// A dump of at most `max` bytes of `data`, sixteen per line, with a closing
/// note when `data` is longer.
pub open spec fn hex_dump_text(data: Seq<u8>, max: nat) -> Seq<char> {
    let len = if data.len() < max { data.len() } else { max };
    dump_lines(data.subrange(0, len as int), ((len + 15) / 16) as nat) + if data.len() > max {
        "... ("@ + dec_str(data.len()) + " bytes total, showing first "@ + dec_str(max) + ")\n"@
    } else {
        Seq::empty()
    }
}

fn push_hex_column(out: &mut String, data: &[u8], start: usize, end: usize)
    requires
        start <= end <= data@.len(),
        end - start <= 16,
    ensures
        final(out)@ == old(out)@ + hex_column(data@.subrange(start as int, end as int)),
{
    let ghost c = data@.subrange(start as int, end as int);
    let ghost base = out@;
    let mut j: usize = start;
    assert(out@ =~= base + hex_column(c.subrange(0, 0)));
    while j < end
        invariant
            start <= j <= end <= data@.len(),
            end - start <= 16,
            c == data@.subrange(start as int, end as int),
            out@ == base + hex_column(c.subrange(0, j - start)),
        decreases end - j,
    {
        push_hex_padded(out, data[j] as u64, 2, false);
        push_str(out, " ");
        if j - start == 7 {
            push_str(out, " ");
        }
        assert(c.subrange(0, j + 1 - start).drop_last() =~= c.subrange(0, j - start));
        j = j + 1;
        assert(out@ =~= base + hex_column(c.subrange(0, j - start)));
    }
    assert(c.subrange(0, end - start) =~= c);
}

fn push_short_line_gap(out: &mut String, n: usize)
    ensures
        final(out)@ == old(out)@ + short_line_gap(n as nat),
{
    let ghost base = out@;
    if n < 16 {
        let mut k: usize = 0;
        assert(out@ =~= base + blanks(0));
        while k < 16 - n
            invariant
                n < 16,
                k <= 16 - n,
                out@ == base + blanks(k as nat),
            decreases 16 - n - k,
        {
            push_str(out, "   ");
            k = k + 1;
        }
        if n < 8 {
            push_str(out, " ");
        }
    }
    assert(out@ =~= base + short_line_gap(n as nat));
}

fn push_text_column(out: &mut String, data: &[u8], start: usize, end: usize)
    requires
        start <= end <= data@.len(),
    ensures
        final(out)@ == old(out)@ + data@.subrange(start as int, end as int).map_values(
            |b: u8| printable(b),
        ),
{
    let ghost c = data@.subrange(start as int, end as int);
    let ghost base = out@;
    let mut j: usize = start;
    assert(out@ =~= base + c.subrange(0, 0).map_values(|b: u8| printable(b)));
    while j < end
        invariant
            start <= j <= end <= data@.len(),
            c == data@.subrange(start as int, end as int),
            out@ == base + c.subrange(0, j - start).map_values(|b: u8| printable(b)),
        decreases end - j,
    {
        let b = data[j];
        let ch = if (0x21 <= b && b <= 0x7E) || b == 0x20 {
            b as char
        } else {
            '.'
        };
        push_char(out, ch);
        j = j + 1;
        assert(out@ =~= base + c.subrange(0, j - start).map_values(|b: u8| printable(b)));
    }
    assert(c.subrange(0, end - start) =~= c);
}

/// Appends one dump line for the bytes `data[start..end]`, line `i`.
fn push_dump_line(out: &mut String, data: &[u8], start: usize, end: usize, i: Ghost<nat>)
    requires
        start <= end <= data@.len(),
        end - start <= 16,
        start == 16 * i@,
    ensures
        final(out)@ == old(out)@ + dump_line(data@.subrange(start as int, end as int), i@),
{
    let ghost c = data@.subrange(start as int, end as int);
    push_hex_padded(out, start as u64, 8, false);
    push_str(out, "  ");
    push_hex_column(out, data, start, end);
    push_short_line_gap(out, end - start);
    push_str(out, " |");
    push_text_column(out, data, start, end);
    push_str(out, "|\n");
    assert(out@ =~= old(out)@ + dump_line(c, i@));
}

/// A classic hex dump of at most `max_bytes` bytes of `data`.
pub fn hex_dump(data: &[u8], max_bytes: usize) -> (out: String)
    ensures
        out@ == hex_dump_text(data@, max_bytes as nat),
{
    let len = if data.len() < max_bytes {
        data.len()
    } else {
        max_bytes
    };
    let ghost v = data@.subrange(0, len as int);
    let mut out = String::new();
    let mut start: usize = 0;
    let ghost mut i: nat = 0;
    assert(out@ =~= dump_lines(v, 0));
    while start < len
        invariant
            len <= data@.len(),
            v == data@.subrange(0, len as int),
            start <= len,
            start < len ==> start == 16 * i && i < (len + 15) / 16,
            start == len ==> i == (len + 15) / 16,
            out@ == dump_lines(v, i),
        decreases len - start,
    {
        let end = if len - start < 16 {
            len
        } else {
            start + 16
        };
        assert(data@.subrange(start as int, end as int) == line_bytes(v, i as int));
        push_dump_line(&mut out, data, start, end, Ghost(i));
        start = end;
        proof {
            i = i + 1;
        }
    }
    if data.len() > max_bytes {
        push_str(&mut out, "... (");
        push_dec(&mut out, data.len() as u64);
        push_str(&mut out, " bytes total, showing first ");
        push_dec(&mut out, max_bytes as u64);
        push_str(&mut out, ")\n");
    }
    assert(out@ =~= hex_dump_text(data@, max_bytes as nat));
    out
}

} // verus!
