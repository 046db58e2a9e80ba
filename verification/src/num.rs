//! Unsigned integers written in decimal or hexadecimal text, parsed as
//! `str::parse` and `from_str_radix` parse them: an optional leading `+`,
//! then one or more digits, and a value that fits.

use vstd::prelude::*;

verus! {

/// The value of digit `c` in base 16, or 16 when it is no hex digit.
pub open spec fn hex_digit_value(c: char) -> nat {
    if '0' <= c && c <= '9' {
        (c as nat - 48) as nat
    } else if 'a' <= c && c <= 'f' {
        (c as nat - 87) as nat
    } else if 'A' <= c && c <= 'F' {
        (c as nat - 55) as nat
    } else {
        16
    }
}

/// `c` is a digit of base `radix` (10 or 16).
pub open spec fn is_radix_digit(c: char, radix: nat) -> bool {
    hex_digit_value(c) < radix
}

/// The value of the digits `s` in base `radix`.
pub open spec fn digits_value(s: Seq<char>, radix: nat) -> nat
    decreases s.len(),
{
    if s.len() == 0 {
        0
    } else {
        digits_value(s.drop_last(), radix) * radix + hex_digit_value(s.last())
    }
}

/// The text without a leading `+`.
pub open spec fn unsigned_body(s: Seq<char>) -> Seq<char> {
    if s.len() > 0 && s[0] == '+' {
        s.drop_first()
    } else {
        s
    }
}

/// The number `s` denotes in base `radix`, if it is one.
pub open spec fn unsigned_text(s: Seq<char>, radix: nat) -> Option<nat> {
    let body = unsigned_body(s);
    if body.len() > 0 && forall|i: int| 0 <= i < body.len() ==> is_radix_digit(#[trigger] body[i], radix) {
        Some(digits_value(body, radix))
    } else {
        None
    }
}

/// The number `s` denotes in base `radix` when it is at most `max`.
pub open spec fn parsed_unsigned(s: Seq<char>, radix: nat, max: nat) -> Option<nat> {
    match unsigned_text(s, radix) {
        Some(v) => if v <= max {
            Some(v)
        } else {
            None
        },
        None => None,
    }
}

proof fn lemma_digits_value_grows(s: Seq<char>, k: int, radix: nat)
    requires
        0 <= k <= s.len(),
        radix >= 1,
        forall|i: int| 0 <= i < s.len() ==> is_radix_digit(#[trigger] s[i], radix),
    ensures
        digits_value(s.subrange(0, k), radix) <= digits_value(s, radix),
    decreases s.len() - k,
{
    if k < s.len() {
        let t = s.subrange(0, k + 1);
        assert(t.drop_last() =~= s.subrange(0, k));
        assert(digits_value(t, radix) == digits_value(s.subrange(0, k), radix) * radix + hex_digit_value(t.last()));
        assert(digits_value(s.subrange(0, k), radix) * radix >= digits_value(s.subrange(0, k), radix)) by (nonlinear_arith)
            requires radix >= 1;
        lemma_digits_value_grows(s, k + 1, radix);
    } else {
        assert(s.subrange(0, k) =~= s);
    }
}

/// The value of a hex or decimal digit character.
fn digit_value(c: char) -> (r: u64)
    ensures
        r == hex_digit_value(c),
{
    if '0' <= c && c <= '9' {
        (c as u32 - 48) as u64
    } else if 'a' <= c && c <= 'f' {
        (c as u32 - 87) as u64
    } else if 'A' <= c && c <= 'F' {
        (c as u32 - 55) as u64
    } else {
        16
    }
}

/// Parses `s` as an unsigned number in base `radix` that is at most `max`.
pub fn parse_unsigned(s: &str, radix: u64, max: u64) -> (r: Option<u64>)
    requires
        radix == 10 || radix == 16,
    ensures
        r matches Some(v) ==> parsed_unsigned(s@, radix as nat, max as nat) == Some(v as nat),
        r is None ==> parsed_unsigned(s@, radix as nat, max as nat) is None,
{
    let n = s.unicode_len();
    let mut start: usize = 0;
    if n > 0 && s.get_char(0) == '+' {
        start = 1;
    }
    let ghost body = unsigned_body(s@);
    assert(body =~= s@.subrange(start as int, n as int));
    if start == n {
        return None;
    }
    let mut acc: u64 = 0;
    let mut i: usize = start;
    assert(body.subrange(0, 0) =~= Seq::<char>::empty());
    while i < n
        invariant
            start <= i <= n,
            n == s@.len(),
            body == s@.subrange(start as int, n as int),
            body == unsigned_body(s@),
            forall|k: int| 0 <= k < i - start ==> is_radix_digit(#[trigger] body[k], radix as nat),
            acc == digits_value(body.subrange(0, i - start), radix as nat),
            acc <= max,
        decreases n - i,
    {
        let d = digit_value(s.get_char(i));
        assert(body[i - start] == s@[i as int]);
        if d >= radix {
            assert(!is_radix_digit(body[i - start], radix as nat));
            return None;
        }
        let ghost prefix = body.subrange(0, i + 1 - start);
        assert(prefix.drop_last() =~= body.subrange(0, i - start));
        assert(digits_value(prefix, radix as nat) == acc * radix + d);
        if d > max || acc > (max - d) / radix {
            proof {
                assert(acc * radix >= 0) by (nonlinear_arith)
                    requires
                        radix > 0,
                ;
                if d <= max {
                    let q = (max - d) as int / radix as int;
                    assert(acc * radix + d > max) by (nonlinear_arith)
                        requires
                            acc > q,
                            q == (max - d) as int / radix as int,
                            radix > 0,
                            d <= max,
                    ;
                }
                assert(acc * radix + d > max);
                if forall|k: int| 0 <= k < body.len() ==> is_radix_digit(#[trigger] body[k], radix as nat) {
                    lemma_digits_value_grows(body, i + 1 - start, radix as nat);
                    assert(digits_value(body, radix as nat) > max);
                }
            }
            return None;
        }
        proof {
            let q = (max - d) as int / radix as int;
            assert(acc * radix + d <= max) by (nonlinear_arith)
                requires
                    acc <= q,
                    q == (max - d) as int / radix as int,
                    radix > 0,
                    d <= max,
            ;
        }
        acc = acc * radix + d;
        i = i + 1;
    }
    assert(body.subrange(0, n - start) =~= body);
    Some(acc)
}

/// `u64::from_str_radix` in base 10 or 16 (base 10 is also what
/// `str::parse::<u64>` does): an optional `+`, then digits, at most
/// `u64::MAX`; the error's message on failure.
#[verifier::external_body]
pub(crate) fn u64_from_str_radix(s: &str, radix: u32) -> (r: Result<u64, String>)
    requires
        radix == 10 || radix == 16,
    ensures
        match r {
            Ok(v) => parsed_unsigned(s@, radix as nat, u64::MAX as nat) == Some(v as nat),
            Err(_) => parsed_unsigned(s@, radix as nat, u64::MAX as nat) is None,
        },
{
    u64::from_str_radix(s, radix).map_err(|e| e.to_string())
}

/// `u8::from_str_radix` in base 10 or 16 (base 10 is also what
/// `str::parse::<u8>` does); the error's message on failure.
#[verifier::external_body]
pub(crate) fn u8_from_str_radix(s: &str, radix: u32) -> (r: Result<u8, String>)
    requires
        radix == 10 || radix == 16,
    ensures
        match r {
            Ok(v) => parsed_unsigned(s@, radix as nat, u8::MAX as nat) == Some(v as nat),
            Err(_) => parsed_unsigned(s@, radix as nat, u8::MAX as nat) is None,
        },
{
    u8::from_str_radix(s, radix).map_err(|e| e.to_string())
}

} // verus!
