//! Text building blocks: character pushes and the decimal / hexadecimal
//! renderings of integers used in commands, messages and dumps.

use vstd::prelude::*;
use vstd::std_specs::iter::IteratorSpec;
use vstd::string::StrSliceExecFns;

verus! {

/// The character of digit `d` (`0`..`9`, then `a`..`f` or `A`..`F`).
pub open spec fn digit_char(d: nat, upper: bool) -> char {
    if d < 10 {
        (48 + d) as char
    } else if upper {
        (55 + d) as char
    } else {
        (87 + d) as char
    }
}

/// The decimal rendering of `n`, without leading zeros.
pub open spec fn dec_str(n: nat) -> Seq<char>
    decreases n,
{
    if n < 10 {
        seq![digit_char(n, false)]
    } else {
        dec_str(n / 10).push(digit_char(n % 10, false))
    }
}

/// The hexadecimal rendering of `n`, without leading zeros.
pub open spec fn hex_str(n: nat, upper: bool) -> Seq<char>
    decreases n,
{
    if n < 16 {
        seq![digit_char(n, upper)]
    } else {
        hex_str(n / 16, upper).push(digit_char(n % 16, upper))
    }
}

/// `s` left-padded with `'0'` up to `width` characters.
pub open spec fn zero_pad(s: Seq<char>, width: nat) -> Seq<char> {
    if s.len() >= width {
        s
    } else {
        Seq::new((width - s.len()) as nat, |i: int| '0') + s
    }
}

/// Appends one character to a string (`String::push`).
#[verifier::external_body]
pub(crate) fn push_char(s: &mut String, c: char)
    ensures
        final(s)@ == old(s)@.push(c),
{
    s.push(c);
}

/// Appends a string slice.
pub fn push_str(s: &mut String, t: &str)
    ensures
        final(s)@ == old(s)@ + t@,
{
    s.append(t);
}

/// The character of one digit.
pub fn digit(d: u64, upper: bool) -> (c: char)
    requires
        d < 16,
    ensures
        c == digit_char(d as nat, upper),
{
    if d < 10 {
        ((48 + d) as u8) as char
    } else if upper {
        ((55 + d) as u8) as char
    } else {
        ((87 + d) as u8) as char
    }
}

/// Appends the decimal rendering of `n`.
pub fn push_dec(s: &mut String, n: u64)
    ensures
        final(s)@ == old(s)@ + dec_str(n as nat),
    decreases n,
{
    if n >= 10 {
        push_dec(s, n / 10);
    }
    push_char(s, digit(n % 10, false));
    proof {
        if n >= 10 {
            assert(dec_str(n as nat) == dec_str((n / 10) as nat).push(digit_char((n % 10) as nat, false)));
        }
    }
}

} // verus!

verus! {

/// `s` without any leading `c`.
pub open spec fn strip_start(s: Seq<char>, c: char) -> Seq<char>
    decreases s.len(),
{
    if s.len() > 0 && s[0] == c {
        strip_start(s.drop_first(), c)
    } else {
        s
    }
}

/// `s` without any trailing `c`.
pub open spec fn strip_end(s: Seq<char>, c: char) -> Seq<char>
    decreases s.len(),
{
    if s.len() > 0 && s.last() == c {
        strip_end(s.drop_last(), c)
    } else {
        s
    }
}

/// `s` without its leading whitespace.
pub open spec fn trim_start_ws(s: Seq<char>) -> Seq<char>
    decreases s.len(),
{
    if s.len() > 0 && white_space(s[0]) {
        trim_start_ws(s.drop_first())
    } else {
        s
    }
}

/// `s` without its trailing whitespace.
pub open spec fn trim_end_ws(s: Seq<char>) -> Seq<char>
    decreases s.len(),
{
    if s.len() > 0 && white_space(s.last()) {
        trim_end_ws(s.drop_last())
    } else {
        s
    }
}

/// `s` without leading and trailing whitespace, whitespace being the
/// Unicode `White_Space` property.
pub open spec fn trimmed(s: Seq<char>) -> Seq<char> {
    trim_end_ws(trim_start_ws(s))
}

/// The lowercase mapping of `s`, as `str::to_lowercase` computes it over the
/// Unicode case tables.
pub uninterp spec fn lowercased(s: Seq<char>) -> Seq<char>;

/// The text of `b` decoded as UTF-8, with each invalid sequence replaced by
/// U+FFFD, as `String::from_utf8_lossy` computes it.
pub uninterp spec fn utf8_lossy(b: Seq<u8>) -> Seq<char>;

/// UTF-16 decoding with each unpaired surrogate replaced by U+FFFD.
pub open spec fn utf16_lossy(u: Seq<u16>) -> Seq<char>
    decreases u.len(),
{
    if u.len() == 0 {
        seq![]
    } else if u[0] < 0xD800 || u[0] > 0xDFFF {
        seq![u[0] as char] + utf16_lossy(u.drop_first())
    } else if u[0] <= 0xDBFF && u.len() >= 2 && 0xDC00 <= u[1] && u[1] <= 0xDFFF {
        seq![(0x10000 + (u[0] - 0xD800) * 0x400 + (u[1] - 0xDC00)) as char] + utf16_lossy(
            u.subrange(2, u.len() as int),
        )
    } else {
        seq!['\u{FFFD}'] + utf16_lossy(u.drop_first())
    }
}

/// The slice without leading and trailing whitespace.
pub(crate) fn str_trim(s: &str) -> (r: &str)
    ensures
        r@ == trimmed(s@),
{
    let n = s.unicode_len();
    let mut a: usize = 0;
    assert(s@.subrange(0, n as int) =~= s@);
    while a < n && is_white_space(s.get_char(a))
        invariant
            a <= n == s@.len(),
            trim_start_ws(s@) == trim_start_ws(s@.subrange(a as int, n as int)),
        decreases n - a,
    {
        assert(s@.subrange(a as int, n as int).drop_first() =~= s@.subrange(a + 1, n as int));
        a = a + 1;
    }
    let ghost t = s@.subrange(a as int, n as int);
    assert(a < n ==> t[0] == s@[a as int]);
    assert(trim_start_ws(s@) == t);
    let mut b: usize = n;
    while b > a && is_white_space(s.get_char(b - 1))
        invariant
            a <= b <= n == s@.len(),
            t == s@.subrange(a as int, n as int),
            trim_end_ws(t) == trim_end_ws(s@.subrange(a as int, b as int)),
        decreases b,
    {
        assert(s@.subrange(a as int, b as int).drop_last() =~= s@.subrange(a as int, b - 1));
        b = b - 1;
    }
    assert(b > a ==> s@.subrange(a as int, b as int).last() == s@[b - 1]);
    s.substring_char(a, b)
}

/// `str::to_lowercase`.
#[verifier::external_body]
pub(crate) fn str_to_lowercase(s: &str) -> (r: String)
    ensures
        r@ == lowercased(s@),
{
    s.to_lowercase()
}

/// The slice without leading and trailing NULs.
pub(crate) fn str_trim_nul(s: &str) -> (r: &str)
    ensures
        r@ == strip_end(strip_start(s@, '\0'), '\0'),
{
    let n = s.unicode_len();
    let mut a: usize = 0;
    assert(s@.subrange(0, n as int) =~= s@);
    while a < n && s.get_char(a) == '\0'
        invariant
            a <= n == s@.len(),
            strip_start(s@, '\0') == strip_start(s@.subrange(a as int, n as int), '\0'),
        decreases n - a,
    {
        assert(s@.subrange(a as int, n as int).drop_first() =~= s@.subrange(a + 1, n as int));
        a = a + 1;
    }
    let ghost t = s@.subrange(a as int, n as int);
    assert(a < n ==> t[0] == s@[a as int]);
    assert(strip_start(s@, '\0') == t);
    let mut b: usize = n;
    while b > a && s.get_char(b - 1) == '\0'
        invariant
            a <= b <= n == s@.len(),
            t == s@.subrange(a as int, n as int),
            strip_end(t, '\0') == strip_end(s@.subrange(a as int, b as int), '\0'),
        decreases b,
    {
        assert(s@.subrange(a as int, b as int).drop_last() =~= s@.subrange(a as int, b - 1));
        b = b - 1;
    }
    assert(b > a ==> s@.subrange(a as int, b as int).last() == s@[b - 1]);
    s.substring_char(a, b)
}

/// The slice without trailing `c`.
pub(crate) fn str_trim_end_matches(s: &str, c: char) -> (r: &str)
    ensures
        r@ == strip_end(s@, c),
{
    let n = s.unicode_len();
    let mut end: usize = n;
    assert(s@.subrange(0, n as int) =~= s@);
    while end > 0 && s.get_char(end - 1) == c
        invariant
            end <= n == s@.len(),
            strip_end(s@, c) == strip_end(s@.subrange(0, end as int), c),
        decreases end,
    {
        assert(s@.subrange(0, end as int).drop_last() =~= s@.subrange(0, end - 1));
        end = end - 1;
    }
    s.substring_char(0, end)
}

/// Whether `s` begins with `p`.
pub(crate) fn str_starts_with(s: &str, p: &str) -> (r: bool)
    ensures
        r == (p@.len() <= s@.len() && s@.subrange(0, p@.len() as int) == p@),
{
    let n = s.unicode_len();
    let m = p.unicode_len();
    if m > n {
        return false;
    }
    matches_at(s, p, 0, n, m)
}

/// Whether `p` occurs in `s` at `at`.
fn matches_at(s: &str, p: &str, at: usize, n: usize, m: usize) -> (r: bool)
    requires
        n == s@.len(),
        m == p@.len(),
        at + m <= n,
    ensures
        r == (s@.subrange(at as int, at + m) == p@),
{
    let mut k: usize = 0;
    while k < m
        invariant
            n == s@.len(),
            m == p@.len(),
            at + m <= n,
            k <= m,
            forall|j: int| 0 <= j < k ==> s@[at + j] == p@[j],
        decreases m - k,
    {
        if s.get_char(at + k) != p.get_char(k) {
            assert(s@.subrange(at as int, at + m)[k as int] != p@[k as int]);
            return false;
        }
        k = k + 1;
    }
    assert(s@.subrange(at as int, at + m) =~= p@);
    true
}

/// The text of an optional string.
pub open spec fn opt_view(s: Option<String>) -> Option<Seq<char>> {
    match s {
        Some(x) => Some(x@),
        None => None,
    }
}

/// `p` occurs in `s` as a contiguous run.
pub open spec fn contains_text(s: Seq<char>, p: Seq<char>) -> bool {
    exists|i: int| 0 <= i && i + p.len() <= s.len() && #[trigger] s.subrange(i, i + p.len()) == p
}

/// Whether `p` occurs in `s`.
pub(crate) fn str_contains(s: &str, p: &str) -> (r: bool)
    ensures
        r == contains_text(s@, p@),
{
    let n = s.unicode_len();
    let m = p.unicode_len();
    if m > n {
        return false;
    }
    if m == 0 {
        assert(s@.subrange(0, 0 + p@.len() as int) =~= p@);
        return true;
    }
    let mut i: usize = 0;
    while i <= n - m
        invariant
            n == s@.len(),
            m == p@.len(),
            0 < m <= n,
            i <= n - m + 1,
            forall|j: int| 0 <= j < i ==> #[trigger] s@.subrange(j, j + m) != p@,
        decreases n - m + 1 - i,
    {
        if matches_at(s, p, i, n, m) {
            return true;
        }
        i = i + 1;
    }
    false
}

/// `String::from_utf8_lossy`.
#[verifier::external_body]
pub(crate) fn utf8_to_string_lossy(b: &[u8]) -> (r: String)
    ensures
        r@ == utf8_lossy(b@),
{
    String::from_utf8_lossy(b).into_owned()
}

/// `char::from_u32`: the character whose scalar value is `v`, where `v` is
/// one (at most U+10FFFF and no surrogate).
#[verifier::external_body]
fn char_from_u32(v: u32) -> (r: Option<char>)
    ensures
        v <= 0x10FFFF && !(0xD800 <= v <= 0xDFFF) ==> r == Some(v as char),
        !(v <= 0x10FFFF && !(0xD800 <= v <= 0xDFFF)) ==> r is None,
{
    char::from_u32(v)
}

/// UTF-16 decoding, each unpaired surrogate replaced by U+FFFD.
pub(crate) fn utf16_to_string_lossy(u: &[u16]) -> (r: String)
    ensures
        r@ == utf16_lossy(u@),
{
    let mut out = String::new();
    let n = u.len();
    let mut i: usize = 0;
    assert(u@.subrange(0, n as int) =~= u@);
    while i < n
        invariant
            i <= n == u@.len(),
            out@ + utf16_lossy(u@.subrange(i as int, n as int)) == utf16_lossy(u@),
        decreases n - i,
    {
        let ghost rest = u@.subrange(i as int, n as int);
        let ghost before = out@;
        let a = u[i];
        assert(rest[0] == a);
        if a < 0xD800 || a > 0xDFFF {
            let c = match char_from_u32(a as u32) {
                Some(c) => c,
                None => '\u{FFFD}',
            };
            push_char(&mut out, c);
            assert(rest.drop_first() =~= u@.subrange(i + 1, n as int));
            assert(before.push(c) + utf16_lossy(rest.drop_first()) =~= before + (seq![c] + utf16_lossy(
                rest.drop_first(),
            )));
            i = i + 1;
        } else if a <= 0xDBFF && i + 1 < n && 0xDC00 <= u[i + 1] && u[i + 1] <= 0xDFFF {
            let b = u[i + 1];
            assert(rest[1] == b);
            let v: u32 = 0x10000 + (a as u32 - 0xD800) * 0x400 + (b as u32 - 0xDC00);
            let c = match char_from_u32(v) {
                Some(c) => c,
                None => '\u{FFFD}',
            };
            push_char(&mut out, c);
            assert(rest.subrange(2, rest.len() as int) =~= u@.subrange(i + 2, n as int));
            assert(before.push(c) + utf16_lossy(rest.subrange(2, rest.len() as int)) =~= before + (seq![c]
                + utf16_lossy(rest.subrange(2, rest.len() as int))));
            i = i + 2;
        } else {
            push_char(&mut out, '\u{FFFD}');
            assert(rest.drop_first() =~= u@.subrange(i + 1, n as int));
            assert(before.push('\u{FFFD}') + utf16_lossy(rest.drop_first()) =~= before + (seq!['\u{FFFD}']
                + utf16_lossy(rest.drop_first())));
            i = i + 1;
        }
    }
    assert(u@.subrange(n as int, n as int) =~= Seq::<u16>::empty());
    assert(out@ + utf16_lossy(Seq::<u16>::empty()) =~= out@);
    out
}

/// `str::to_string`.
pub fn to_owned_string(s: &str) -> (r: String)
    ensures
        r@ == s@,
{
    String::from_str(s)
}

} // verus!

verus! {

/// Whether two string slices hold the same characters.
pub(crate) fn str_eq(a: &str, b: &str) -> (r: bool)
    ensures
        r == (a@ == b@),
{
    let n = a.unicode_len();
    if n != b.unicode_len() {
        return false;
    }
    let r = matches_at(a, b, 0, n, n);
    assert(a@.subrange(0, n as int) =~= a@);
    r
}

} // verus!

verus! {

/// Appends the hexadecimal rendering of `n`.
pub fn push_hex(s: &mut String, n: u64, upper: bool)
    ensures
        final(s)@ == old(s)@ + hex_str(n as nat, upper),
    decreases n,
{
    if n >= 16 {
        push_hex(s, n / 16, upper);
    }
    push_char(s, digit(n % 16, upper));
    proof {
        if n >= 16 {
            assert(hex_str(n as nat, upper) == hex_str((n / 16) as nat, upper).push(
                digit_char((n % 16) as nat, upper),
            ));
        }
    }
}

/// The number of hexadecimal digits of `n`.
pub fn hex_len(n: u64) -> (r: u64)
    ensures
        r == hex_str(n as nat, false).len(),
        r <= n + 1,
    decreases n,
{
    if n < 16 {
        1
    } else {
        let r = hex_len(n / 16) + 1;
        assert(hex_str(n as nat, false) == hex_str((n / 16) as nat, false).push(
            digit_char((n % 16) as nat, false),
        ));
        r
    }
}

proof fn lemma_hex_len_upper(n: nat)
    ensures
        hex_str(n, true).len() == hex_str(n, false).len(),
    decreases n,
{
    if n >= 16 {
        lemma_hex_len_upper(n / 16);
    }
}

/// Appends the hexadecimal rendering of `n`, left-padded with zeros to
/// `width` digits.
pub fn push_hex_padded(s: &mut String, n: u64, width: usize, upper: bool)
    ensures
        final(s)@ == old(s)@ + zero_pad(hex_str(n as nat, upper), width as nat),
{
    let len = hex_len(n);
    proof {
        lemma_hex_len_upper(n as nat);
    }
    let ghost start = s@;
    let mut k: u64 = len;
    while k < width as u64
        invariant
            len <= k <= width || (k == len && len >= width),
            len == hex_str(n as nat, upper).len(),
            s@ == start + Seq::new((k - len) as nat, |i: int| '0'),
        decreases width - k,
    {
        push_char(s, '0');
        assert(Seq::new((k - len) as nat, |i: int| '0').push('0') =~= Seq::new(
            (k + 1 - len) as nat,
            |i: int| '0',
        ));
        k = k + 1;
    }
    push_hex(s, n, upper);
    if len >= width as u64 {
        assert(s@ =~= start + hex_str(n as nat, upper));
    } else {
        assert(s@ =~= start + (Seq::new((width - len) as nat, |i: int| '0') + hex_str(n as nat, upper)));
    }
}

} // verus!

verus! {

/// The first position from `i` on where `p` occurs in `s`.
pub open spec fn find_text(s: Seq<char>, p: Seq<char>, i: int) -> Option<int>
    decreases s.len() + 1 - i,
{
    if i < 0 || i + p.len() > s.len() {
        None
    } else if s.subrange(i, i + p.len()) == p {
        Some(i)
    } else {
        find_text(s, p, i + 1)
    }
}

/// The characters of `s`.
pub fn chars_of(s: &str) -> (r: Vec<char>)
    ensures
        r@ == s@,
{
    broadcast use vstd::string::group_string_axioms;
    let mut it = s.chars();
    let mut r: Vec<char> = Vec::new();
    loop
        invariant
            r@ + it.remaining() == s@,
            it.obeys_prophetic_iter_laws(),
            it.decrease() is Some,
        decreases it.decrease()->0,
    {
        let ghost before = it.remaining();
        match it.next() {
            Some(c) => {
                r.push(c);
                assert(r@ + it.remaining() =~= s@);
            },
            None => {
                assert(r@ =~= s@);
                return r;
            },
        }
    }
}

/// The first position from `from` on where `p` occurs in `s`.
pub fn find_chars(s: &Vec<char>, p: &Vec<char>, from: usize) -> (r: Option<usize>)
    ensures
        match r {
            Some(i) => find_text(s@, p@, from as int) == Some(i as int) && from <= i && i + p@.len()
                <= s@.len(),
            None => find_text(s@, p@, from as int) is None,
        },
{
    let mut i: usize = from;
    while i <= s.len() && p.len() <= s.len() - i
        invariant
            from <= i,
            find_text(s@, p@, from as int) == find_text(s@, p@, i as int),
        decreases s@.len() + 1 - i,
    {
        let mut k: usize = 0;
        let mut same = true;
        while k < p.len()
            invariant
                k <= p@.len(),
                i + p@.len() <= s@.len(),
                s@.len() == s.len(),
                same == (forall|t: int| 0 <= t < k ==> s@[i + t] == p@[t]),
            decreases p@.len() - k,
        {
            if s[i + k] != p[k] {
                same = false;
            }
            k = k + 1;
        }
        if same {
            assert(s@.subrange(i as int, i + p@.len()) =~= p@);
            return Some(i);
        }
        assert(s@.subrange(i as int, i + p@.len()) != p@) by {
            let t = choose|t: int| 0 <= t < p@.len() && s@[i + t] != p@[t];
            assert(s@.subrange(i as int, i + p@.len())[t] != p@[t]);
        }
        i = i + 1;
    }
    None
}

/// The string of `c[lo..hi]`.
pub fn string_of_chars(c: &Vec<char>, lo: usize, hi: usize) -> (r: String)
    requires
        lo <= hi <= c@.len(),
    ensures
        r@ == c@.subrange(lo as int, hi as int),
{
    let mut r = String::new();
    let mut i: usize = lo;
    while i < hi
        invariant
            lo <= i <= hi,
            hi <= c@.len(),
            r@ == c@.subrange(lo as int, i as int),
        decreases hi - i,
    {
        push_char(&mut r, c[i]);
        assert(r@ =~= c@.subrange(lo as int, i + 1));
        i = i + 1;
    }
    r
}

} // verus!

verus! {

/// Whether `c` has the Unicode `White_Space` property, as
/// `char::is_whitespace` reads it: U+0009 to U+000D, U+0020, U+0085,
/// U+00A0, U+1680, U+2000 to U+200A, U+2028, U+2029, U+202F, U+205F and
/// U+3000.
pub open spec fn white_space(c: char) -> bool {
    ||| '\u{9}' <= c <= '\u{D}'
    ||| c == ' '
    ||| c == '\u{85}'
    ||| c == '\u{A0}'
    ||| c == '\u{1680}'
    ||| '\u{2000}' <= c <= '\u{200A}'
    ||| c == '\u{2028}'
    ||| c == '\u{2029}'
    ||| c == '\u{202F}'
    ||| c == '\u{205F}'
    ||| c == '\u{3000}'
}

/// Whether `c` is whitespace.
pub(crate) fn is_white_space(c: char) -> (r: bool)
    ensures
        r == white_space(c),
{
    ('\u{9}' <= c && c <= '\u{D}') || c == ' ' || c == '\u{85}' || c == '\u{A0}' || c == '\u{1680}' || (
    '\u{2000}' <= c && c <= '\u{200A}') || c == '\u{2028}' || c == '\u{2029}' || c == '\u{202F}' || c
        == '\u{205F}' || c == '\u{3000}'
}

/// The words of `s`: its maximal runs of characters other than white space,
/// in order, as `str::split_whitespace` yields them.
pub open spec fn words(s: Seq<char>) -> Seq<Seq<char>>
    decreases s.len(),
{
    if s.len() == 0 {
        seq![]
    } else {
        let w = words(s.drop_last());
        let c = s.last();
        if white_space(c) {
            w
        } else if s.len() >= 2 && !white_space(s[s.len() - 2]) {
            w.drop_last().push(w.last().push(c))
        } else {
            w.push(seq![c])
        }
    }
}

/// The words of `s`.
pub fn split_words(s: &str) -> (r: Vec<Vec<char>>)
    ensures
        r@.map_values(|w: Vec<char>| w@) == words(s@),
{
    let cs = chars_of(s);
    let mut done: Vec<Vec<char>> = Vec::new();
    let mut cur: Vec<char> = Vec::new();
    let mut i: usize = 0;
    while i < cs.len()
        invariant
            i <= cs@.len(),
            cs@ == s@,
            cur@.len() > 0 ==> i > 0 && !white_space(cs@[i - 1]),
            i > 0 && !white_space(cs@[i - 1]) ==> cur@.len() > 0,
            words(cs@.subrange(0, i as int)) == if cur@.len() > 0 {
                done@.map_values(|w: Vec<char>| w@).push(cur@)
            } else {
                done@.map_values(|w: Vec<char>| w@)
            },
        decreases cs@.len() - i,
    {
        let ghost pre = cs@.subrange(0, i as int);
        let ghost next = cs@.subrange(0, i + 1);
        assert(next.drop_last() =~= pre);
        let ghost dv = done@.map_values(|w: Vec<char>| w@);
        let c = cs[i];
        if is_white_space(c) {
            if cur.len() > 0 {
                let ghost cv = cur@;
                done.push(cur);
                cur = Vec::new();
                assert(done@.map_values(|w: Vec<char>| w@) =~= dv.push(cv));
            }
        } else {
            let ghost cv = cur@;
            let had = cur.len() > 0;
            cur.push(c);
            if had {
                assert(next[next.len() - 2] == cs@[i - 1]);
                assert(words(next) =~= dv.push(cv).drop_last().push(dv.push(cv).last().push(c)));
                assert(words(next) =~= dv.push(cur@));
            } else {
                if i > 0 {
                    assert(next[next.len() - 2] == cs@[i - 1]);
                }
                assert(cur@ =~= seq![c]);
                assert(words(pre) == dv);
                assert(words(next) =~= dv.push(cur@));
            }
        }
        i = i + 1;
    }
    assert(cs@.subrange(0, cs@.len() as int) =~= cs@);
    if cur.len() > 0 {
        let ghost dv = done@.map_values(|w: Vec<char>| w@);
        let ghost cv = cur@;
        done.push(cur);
        assert(done@.map_values(|w: Vec<char>| w@) =~= dv.push(cv));
    }
    done
}

} // verus!

verus! {

/// The binary rendering of `n`, without leading zeros.
pub open spec fn bin_str(n: nat) -> Seq<char>
    decreases n,
{
    if n < 2 {
        seq![digit_char(n, false)]
    } else {
        bin_str(n / 2).push(digit_char(n % 2, false))
    }
}

/// Appends the binary rendering of `n`.
pub fn push_bin(s: &mut String, n: u64)
    ensures
        final(s)@ == old(s)@ + bin_str(n as nat),
    decreases n,
{
    if n >= 2 {
        push_bin(s, n / 2);
    }
    push_char(s, digit(n % 2, false));
    proof {
        if n >= 2 {
            assert(bin_str(n as nat) == bin_str((n / 2) as nat).push(digit_char((n % 2) as nat, false)));
        }
    }
}

/// `n` spaces.
pub open spec fn spaces(n: nat) -> Seq<char> {
    Seq::new(n, |i: int| ' ')
}

/// `s` followed by spaces up to `width` characters.
pub open spec fn pad_right(s: Seq<char>, width: nat) -> Seq<char> {
    if s.len() < width {
        s + spaces((width - s.len()) as nat)
    } else {
        s
    }
}

/// `s` after spaces up to `width` characters.
pub open spec fn pad_left(s: Seq<char>, width: nat) -> Seq<char> {
    if s.len() < width {
        spaces((width - s.len()) as nat) + s
    } else {
        s
    }
}

/// Appends `n` copies of `c`.
pub fn push_repeat(s: &mut String, c: char, n: usize)
    ensures
        final(s)@ == old(s)@ + Seq::new(n as nat, |i: int| c),
{
    let ghost start = s@;
    let mut k: usize = 0;
    while k < n
        invariant
            k <= n,
            s@ == start + Seq::new(k as nat, |i: int| c),
        decreases n - k,
    {
        push_char(s, c);
        assert(s@ =~= start + Seq::new((k + 1) as nat, |i: int| c));
        k = k + 1;
    }
}

/// Appends `t` followed by spaces up to `width` characters.
pub fn push_padded_right(s: &mut String, t: &str, width: usize)
    ensures
        final(s)@ == old(s)@ + pad_right(t@, width as nat),
{
    push_str(s, t);
    let n = t.unicode_len();
    if n < width {
        push_repeat(s, ' ', width - n);
        assert(Seq::new((width - n) as nat, |i: int| ' ') =~= spaces((width - n) as nat));
    }
}

/// Appends `t` after spaces up to `width` characters.
pub fn push_padded_left(s: &mut String, t: &str, width: usize)
    ensures
        final(s)@ == old(s)@ + pad_left(t@, width as nat),
{
    let n = t.unicode_len();
    let ghost start = s@;
    if n < width {
        push_repeat(s, ' ', width - n);
        assert(Seq::new((width - n) as nat, |i: int| ' ') =~= spaces((width - n) as nat));
    }
    push_str(s, t);
    assert(s@ =~= start + pad_left(t@, width as nat));
}

/// The decimal rendering of `n` as a string.
pub fn dec_string(n: u64) -> (r: String)
    ensures
        r@ == dec_str(n as nat),
{
    let mut r = String::new();
    push_dec(&mut r, n);
    r
}

} // verus!
