//! The Firehose session state and the decisions of its exchanges: which
//! command to send, what an answer changes, when an answer is complete.
//! The transport reads and writes are the caller's.

use crate::base::event::{emit_event, Event, EventSink, FirehoseEvent};
use crate::firehose::command::{command_xml, FirehoseCommand};
use crate::firehose::error::FirehoseError;
use crate::firehose::response::{
    config_view, parsed_response, response_is, ConfigView, FirehoseResponse, ResponseValue,
};
use crate::firehose::response::strings_view;
use crate::num::{parse_unsigned, parsed_unsigned};
use crate::text::{
    chars_of, contains_text, find_chars, find_text, opt_view, push_str, split_words, str_contains,
    str_trim, string_of_chars, to_owned_string, trimmed, utf8_lossy, utf8_to_string_lossy, words,
};
use std::sync::Arc;
use vstd::prelude::*;

verus! {

/// The session state as plain values.
pub struct ClientView {
    pub memory_name: Seq<char>,
    pub sector_size: u32,
    pub max_payload_size: u32,
    pub max_payload_size_from_target: Option<u32>,
    pub max_payload_size_to_target_supported: Option<u32>,
    pub max_xml_size: Option<u32>,
    pub target_name: Seq<char>,
    pub version: Option<Seq<char>>,
    pub total_sectors: u64,
    pub initialized: bool,
    /// Bytes that arrived after the last complete answer.
    pub leftover: Seq<u8>,
}

/// The Firehose session: device configuration as negotiated, and bytes
/// received past the last answer.
pub struct FirehoseClient {
    pub(crate) memory_name: String,
    pub(crate) sector_size: u32,
    pub(crate) max_payload_size: u32,
    pub(crate) max_payload_size_from_target: Option<u32>,
    pub(crate) max_payload_size_to_target_supported: Option<u32>,
    pub(crate) max_xml_size: Option<u32>,
    pub(crate) target_name: String,
    pub(crate) version: Option<String>,
    pub(crate) total_sectors: u64,
    pub(crate) initialized: bool,
    pub(crate) leftover: Vec<u8>,
    pub(crate) event_sink: Option<Arc<dyn EventSink>>,
}

impl View for FirehoseClient {
    type V = ClientView;

    closed spec fn view(&self) -> ClientView {
        ClientView {
            memory_name: self.memory_name@,
            sector_size: self.sector_size,
            max_payload_size: self.max_payload_size,
            max_payload_size_from_target: self.max_payload_size_from_target,
            max_payload_size_to_target_supported: self.max_payload_size_to_target_supported,
            max_xml_size: self.max_xml_size,
            target_name: self.target_name@,
            version: opt_view(self.version),
            total_sectors: self.total_sectors,
            initialized: self.initialized,
            leftover: self.leftover@,
        }
    }
}

/// The state before configuration: eMMC, 512-byte sectors, 1 MiB payloads.
pub open spec fn initial_client() -> ClientView {
    ClientView {
        memory_name: "eMMC"@,
        sector_size: 512,
        max_payload_size: 1048576,
        max_payload_size_from_target: None,
        max_payload_size_to_target_supported: None,
        max_xml_size: None,
        target_name: "unknown"@,
        version: None,
        total_sectors: 0,
        initialized: false,
        leftover: seq![],
    }
}

/// `o`'s value, else `d`.
pub open spec fn or_keep<T>(o: Option<T>, d: T) -> T {
    match o {
        Some(v) => v,
        None => d,
    }
}

/// `o` where it has a value, else `d`.
pub open spec fn or_else<T>(o: Option<T>, d: Option<T>) -> Option<T> {
    match o {
        Some(v) => Some(v),
        None => d,
    }
}

/// The state after an acknowledged configure answer with configuration
/// `c`: each field the device reported replaces the negotiated one.
pub open spec fn configured(v: ClientView, c: ConfigView) -> ClientView {
    ClientView {
        memory_name: or_keep(c.memory_name, v.memory_name),
        sector_size: or_keep(c.sector_size, v.sector_size),
        max_payload_size: or_keep(c.max_payload_size, v.max_payload_size),
        max_payload_size_from_target: or_else(c.max_payload_size_from_target, v.max_payload_size_from_target),
        max_payload_size_to_target_supported: or_else(
            c.max_payload_size_to_target_supported,
            v.max_payload_size_to_target_supported,
        ),
        max_xml_size: or_else(c.max_xml_size, v.max_xml_size),
        target_name: or_keep(c.target_name, v.target_name),
        version: or_else(c.version, v.version),
        total_sectors: or_keep(c.total_sectors, v.total_sectors),
        initialized: true,
        leftover: v.leftover,
    }
}

/// The reason a refused answer gives: its error message, else `default`.
pub open spec fn refusal(r: FirehoseResponse, default: Seq<char>) -> Seq<char> {
    or_keep(opt_view(r.error), default)
}

/// The XML document that carries a command.
pub open spec fn framed_xml(c: FirehoseCommand) -> Seq<char> {
    "<?xml version=\"1.0\" encoding=\"UTF-8\" ?><data>"@ + command_xml(c) + "</data>"@
}

/// Wraps a command's XML in the document the device expects.
pub fn frame_command(cmd: &FirehoseCommand) -> (r: String)
    ensures
        r@ == framed_xml(*cmd),
{
    let mut out = String::new();
    push_str(&mut out, "<?xml version=\"1.0\" encoding=\"UTF-8\" ?><data>");
    let inner = cmd.to_xml();
    push_str(&mut out, inner.as_str());
    push_str(&mut out, "</data>");
    out
}

/// Reads an answer; malformed XML is an invalid response whose reason is
/// the reader's message.
pub fn parse_response(xml: &str) -> (r: Result<FirehoseResponse, FirehoseError>)
    ensures
        match parsed_response(xml@) {
            Some(s) => r matches Ok(resp) && response_is(resp, s),
            None => r matches Err(FirehoseError::InvalidResponse { .. }),
        },
{
    match FirehoseResponse::from_xml(xml) {
        Ok(resp) => Ok(resp),
        Err(e) => Err(FirehoseError::InvalidResponse { reason: e }),
    }
}

/// Fails with a NAK error for `command` unless `resp` is an ACK; the reason
/// is the answer's error message, else "unknown".
pub fn expect_ack(resp: &FirehoseResponse, command: &str) -> (r: Result<(), FirehoseError>)
    ensures
        resp.value == ResponseValue::Ack ==> r is Ok,
        resp.value == ResponseValue::Nak ==> (r matches Err(FirehoseError::Nak { command: c, reason })
            && c@ == command@ && reason@ == refusal(*resp, "unknown"@)),
{
    if resp.is_ack() {
        Ok(())
    } else {
        let reason = match &resp.error {
            Some(e) => e.clone(),
            None => to_owned_string("unknown"),
        };
        Err(FirehoseError::Nak { command: to_owned_string(command), reason })
    }
}

/// The byte that a word gives when it is `0x` (or, with `upper`, also
/// `0X`) followed by a hexadecimal number that fits a byte.
pub open spec fn hex_word_byte(w: Seq<char>, upper: bool) -> Option<u8> {
    if w.len() >= 2 && w[0] == '0' && (w[1] == 'x' || (upper && w[1] == 'X')) {
        match parsed_unsigned(w.subrange(2, w.len() as int), 16, 255) {
            Some(v) => Some(v as u8),
            None => None,
        }
    } else {
        None
    }
}

/// The bytes that the words `ws` give, in order.
pub open spec fn hex_words_bytes(ws: Seq<Seq<char>>, upper: bool) -> Seq<u8>
    decreases ws.len(),
{
    if ws.len() == 0 {
        seq![]
    } else {
        hex_words_bytes(ws.drop_last(), upper) + match hex_word_byte(ws.last(), upper) {
            Some(b) => seq![b],
            None => seq![],
        }
    }
}

/// The data bytes that some loaders put in their log messages as `0x..`
/// words instead of sending them raw.
pub open spec fn log_bytes(logs: Seq<Seq<char>>) -> Seq<u8>
    decreases logs.len(),
{
    if logs.len() == 0 {
        seq![]
    } else {
        log_bytes(logs.drop_last()) + if contains_text(logs.last(), "0x"@) {
            hex_words_bytes(words(logs.last()), false)
        } else {
            seq![]
        }
    }
}

/// Appends the bytes that the words of `s` give.
fn push_hex_words(out: &mut Vec<u8>, s: &str, upper: bool)
    ensures
        final(out)@ == old(out)@ + hex_words_bytes(words(s@), upper),
{
    let ws = split_words(s);
    let ghost wv = ws@.map_values(|w: Vec<char>| w@);
    let ghost start = out@;
    let mut i: usize = 0;
    while i < ws.len()
        invariant
            i <= ws@.len(),
            wv == ws@.map_values(|w: Vec<char>| w@),
            wv == words(s@),
            out@ == start + hex_words_bytes(wv.subrange(0, i as int), upper),
        decreases ws@.len() - i,
    {
        let w = &ws[i];
        assert(wv.subrange(0, i + 1).drop_last() =~= wv.subrange(0, i as int));
        assert(wv[i as int] == w@);
        let ghost before = out@;
        if w.len() >= 2 && w[0] == '0' && (w[1] == 'x' || (upper && w[1] == 'X')) {
            let digits = string_of_chars(w, 2, w.len());
            match parse_unsigned(digits.as_str(), 16, 255) {
                Some(v) => {
                    out.push(v as u8);
                },
                None => {},
            }
        }
        assert(out@ =~= start + hex_words_bytes(wv.subrange(0, i + 1), upper));
        i = i + 1;
    }
    assert(wv.subrange(0, wv.len() as int) =~= wv);
}

/// The bytes of the log messages `logs`.
pub fn bytes_from_logs(logs: &Vec<String>) -> (r: Vec<u8>)
    ensures
        r@ == log_bytes(strings_view(logs@)),
{
    let ghost lv = strings_view(logs@);
    let mut out: Vec<u8> = Vec::new();
    let mut i: usize = 0;
    while i < logs.len()
        invariant
            i <= logs@.len(),
            lv == strings_view(logs@),
            out@ == log_bytes(lv.subrange(0, i as int)),
        decreases logs@.len() - i,
    {
        assert(lv.subrange(0, i + 1).drop_last() =~= lv.subrange(0, i as int));
        assert(lv[i as int] == logs@[i as int]@);
        if str_contains(logs[i].as_str(), "0x") {
            push_hex_words(&mut out, logs[i].as_str(), false);
        }
        assert(out@ =~= log_bytes(lv.subrange(0, i + 1)));
        i = i + 1;
    }
    assert(lv.subrange(0, lv.len() as int) =~= lv);
    out
}

/// `c` is an ASCII hexadecimal digit.
pub open spec fn is_hex_char(c: char) -> bool {
    ('0' <= c && c <= '9') || ('a' <= c && c <= 'f') || ('A' <= c && c <= 'F')
}

/// The digest that one log message carries: what follows `Digest `, or the
/// whole message when it is 64 hexadecimal digits.
pub open spec fn digest_in(log: Seq<char>) -> Option<Seq<char>> {
    match find_text(log, "Digest "@, 0) {
        Some(i) => Some(log.subrange(i + 7, log.len() as int)),
        None => if log.len() == 64 && forall|k: int| 0 <= k < 64 ==> is_hex_char(#[trigger] log[k]) {
            Some(log)
        } else {
            None
        },
    }
}

/// The first digest that the messages from `i` on carry.
pub open spec fn digest_from(logs: Seq<Seq<char>>, i: int) -> Option<Seq<char>>
    decreases logs.len() - i,
{
    if i < 0 || i >= logs.len() {
        None
    } else {
        match digest_in(logs[i]) {
            Some(d) => Some(d),
            None => digest_from(logs, i + 1),
        }
    }
}

/// The digest an answer reports: the first one its messages carry, else
/// its last message.
pub open spec fn digest_of(logs: Seq<Seq<char>>) -> Option<Seq<char>> {
    match digest_from(logs, 0) {
        Some(d) => Some(d),
        None => if logs.len() > 0 {
            Some(logs.last())
        } else {
            None
        },
    }
}

fn digest_in_log(log: &String) -> (r: Option<String>)
    ensures
        opt_view(r) == digest_in(log@),
{
    let cs = chars_of(log.as_str());
    let pat = chars_of("Digest ");
    proof {
        reveal_strlit("Digest ");
    }
    assert(pat@.len() == 7);
    match find_chars(&cs, &pat, 0) {
        Some(i) => {
            let n = cs.len();
            assert(i + 7 <= n);
            return Some(string_of_chars(&cs, i + 7, n));
        },
        None => {},
    }
    if cs.len() != 64 {
        return None;
    }
    let mut k: usize = 0;
    while k < 64
        invariant
            k <= 64,
            cs@.len() == 64,
            cs@ == log@,
            find_text(log@, "Digest "@, 0) is None,
            forall|t: int| 0 <= t < k ==> is_hex_char(#[trigger] cs@[t]),
        decreases 64 - k,
    {
        let c = cs[k];
        if !(('0' <= c && c <= '9') || ('a' <= c && c <= 'f') || ('A' <= c && c <= 'F')) {
            assert(!is_hex_char(cs@[k as int]));
            return None;
        }
        k = k + 1;
    }
    Some(log.clone())
}

/// The SHA-256 digest that an acknowledged getsha256digest answer reports.
pub fn extract_digest(resp: &FirehoseResponse) -> (r: Result<String, FirehoseError>)
    ensures
        match digest_of(strings_view(resp.logs@)) {
            Some(d) => r matches Ok(s) && s@ == d,
            None => r matches Err(FirehoseError::InvalidResponse { reason }) && reason@
                == "No digest in response"@,
        },
{
    let ghost lv = strings_view(resp.logs@);
    let mut i: usize = 0;
    while i < resp.logs.len()
        invariant
            i <= resp.logs@.len(),
            lv == strings_view(resp.logs@),
            digest_from(lv, 0) == digest_from(lv, i as int),
        decreases resp.logs@.len() - i,
    {
        assert(lv[i as int] == resp.logs@[i as int]@);
        match digest_in_log(&resp.logs[i]) {
            Some(d) => {
                return Ok(d);
            },
            None => {},
        }
        i = i + 1;
    }
    let n = resp.logs.len();
    if n > 0 {
        Ok(resp.logs[n - 1].clone())
    } else {
        Err(FirehoseError::InvalidResponse { reason: to_owned_string("No digest in response") })
    }
}

/// A peek answer chunk that reports a refusal.
pub open spec fn peek_refused(t: Seq<char>) -> bool {
    contains_text(t, "NAK"@) || contains_text(t, "Invalid parameters"@) || contains_text(t, "can't"@)
}

/// A peek answer chunk that ends the answer.
pub open spec fn peek_done(t: Seq<char>) -> bool {
    contains_text(t, "</data>"@) || contains_text(t, "<response"@)
}

/// Takes in one chunk of a peek answer: a refusal fails with the chunk's
/// trimmed text; otherwise the `0x..` words of the chunk are appended to
/// `data`, and the result says whether the answer is complete.
pub fn peek_chunk(data: &mut Vec<u8>, chunk: &[u8]) -> (r: Result<bool, FirehoseError>)
    ensures
        peek_refused(utf8_lossy(chunk@)) ==> final(data)@ == old(data)@ && (r matches Err(
            FirehoseError::Nak { command, reason },
        ) && command@ == "peek"@ && reason@ == trimmed(utf8_lossy(chunk@))),
        !peek_refused(utf8_lossy(chunk@)) ==> final(data)@ == old(data)@ + hex_words_bytes(
            words(utf8_lossy(chunk@)),
            true,
        ) && r == Ok::<bool, FirehoseError>(peek_done(utf8_lossy(chunk@))),
{
    let text = utf8_to_string_lossy(chunk);
    let t = text.as_str();
    if str_contains(t, "NAK") || str_contains(t, "Invalid parameters") || str_contains(t, "can't") {
        return Err(
            FirehoseError::Nak { command: to_owned_string("peek"), reason: to_owned_string(str_trim(t)) },
        );
    }
    push_hex_words(data, t, true);
    Ok(str_contains(t, "</data>") || str_contains(t, "<response"))
}

/// Whether a chunk received while the loader boots holds an answer.
pub fn response_ready(chunk: &[u8]) -> (r: bool)
    ensures
        r == (contains_text(utf8_lossy(chunk@), "<response "@) || contains_text(
            utf8_lossy(chunk@),
            "</data>"@,
        )),
{
    let text = utf8_to_string_lossy(chunk);
    str_contains(text.as_str(), "<response ") || str_contains(text.as_str(), "</data>")
}

/// UTF-8 encoded size of a character.
pub open spec fn utf8_width(c: char) -> nat {
    let v = c as u32;
    if v < 0x80 {
        1
    } else if v < 0x800 {
        2
    } else if v < 0x10000 {
        3
    } else {
        4
    }
}

/// UTF-8 encoded size of a text.
pub open spec fn utf8_size(s: Seq<char>) -> nat
    decreases s.len(),
{
    if s.len() == 0 {
        0
    } else {
        utf8_size(s.drop_last()) + utf8_width(s.last())
    }
}

/// The end of the answer in `t` (as a character position): after the
/// first `<response ` tag's `/>` or `</response>`, and after a `</data>`
/// that follows it.
pub open spec fn answer_end(t: Seq<char>) -> Option<int> {
    match find_text(t, "<response "@, 0) {
        None => None,
        Some(st) => {
            let end = match find_text(t, "/>"@, st) {
                Some(k) => Some(k + 2),
                None => match find_text(t, "</response>"@, st) {
                    Some(k) => Some(k + 11),
                    None => None,
                },
            };
            match end {
                None => None,
                Some(e) => match find_text(t, "</data>"@, e) {
                    Some(k) => Some(k + 7),
                    None => Some(e),
                },
            }
        },
    }
}

/// The text shows an answer (checked when a read brings nothing).
pub open spec fn answer_hint(t: Seq<char>) -> bool {
    contains_text(t, "<response "@) && (contains_text(t, "/>"@) || contains_text(t, "</response>"@))
}

/// The most bytes an answer may take.
pub const MAX_ANSWER_BYTES: usize = 131072;

/// The number of empty reads in a row after which an answer times out.
pub const MAX_EMPTY_READS: u32 = 10;

/// What collecting an answer does after a read.
#[derive(Debug)]
pub enum CollectStep {
    /// The answer is complete.
    Complete(String),
    /// Nothing usable arrived: wait briefly, then read again.
    Retry,
    /// Data arrived but the answer is not complete: read again.
    ReadMore,
    Failed(FirehoseError),
}

/// An answer being collected.
pub struct ResponseCollector {
    pub buffer: Vec<u8>,
    pub empty_reads: u32,
}

/// The outcome of one read while collecting, as plain values.
pub enum CollectView {
    /// The answer's text and the bytes that follow it.
    Complete(Seq<char>, Seq<u8>),
    /// The number of empty reads in a row so far.
    Retry(nat),
    /// The bytes collected so far.
    ReadMore(Seq<u8>),
    TimedOut,
    TooLarge,
}

/// One step of collecting an answer: `buf` collected so far, `empty` empty
/// reads in a row so far, `chunk` what the read brought (nothing on a
/// timeout). An empty read counts unless the buffer already shows an
/// answer; more than ten in a row time out. Otherwise the answer is cut
/// after its end, the rest kept for later; without an end, more than
/// 128 KiB is too large.
pub open spec fn collect_step(buf: Seq<u8>, empty: nat, chunk: Seq<u8>) -> CollectView {
    if chunk.len() == 0 && !(buf.len() > 0 && answer_hint(utf8_lossy(buf))) {
        if empty + 1 > 10 {
            CollectView::TimedOut
        } else {
            CollectView::Retry(empty + 1)
        }
    } else {
        let b = buf + chunk;
        let t = utf8_lossy(b);
        match answer_end(t) {
            Some(e) => {
                let cut = utf8_size(t.subrange(0, e));
                if cut < b.len() {
                    CollectView::Complete(utf8_lossy(b.subrange(0, cut as int)), b.subrange(cut as int, b.len() as int))
                } else {
                    CollectView::Complete(t, seq![])
                }
            },
            None => if b.len() > 131072 {
                CollectView::TooLarge
            } else {
                CollectView::ReadMore(b)
            },
        }
    }
}

fn char_width(c: char) -> (r: usize)
    ensures
        r == utf8_width(c),
{
    let v = c as u32;
    if v < 0x80 {
        1
    } else if v < 0x800 {
        2
    } else if v < 0x10000 {
        3
    } else {
        4
    }
}

/// The UTF-8 size of `t[..e]` when it is below `limit`.
fn prefix_size_below(t: &Vec<char>, e: usize, limit: usize) -> (r: Option<usize>)
    requires
        e <= t@.len(),
    ensures
        match r {
            Some(n) => n == utf8_size(t@.subrange(0, e as int)) && n < limit,
            None => utf8_size(t@.subrange(0, e as int)) >= limit,
        },
{
    if limit == 0 {
        return None;
    }
    let mut acc: usize = 0;
    let mut i: usize = 0;
    assert(t@.subrange(0, 0) =~= Seq::<char>::empty());
    while i < e
        invariant
            i <= e <= t@.len(),
            acc == utf8_size(t@.subrange(0, i as int)),
            acc < limit,
        decreases e - i,
    {
        assert(t@.subrange(0, i + 1).drop_last() =~= t@.subrange(0, i as int));
        let w = char_width(t[i]);
        if w >= limit - acc {
            proof {
                lemma_utf8_size_grows(t@.subrange(0, e as int), i + 1);
                assert(t@.subrange(0, e as int).subrange(0, i + 1) =~= t@.subrange(0, i + 1));
            }
            return None;
        }
        acc = acc + w;
        i = i + 1;
    }
    if acc >= limit {
        return None;
    }
    Some(acc)
}

proof fn lemma_utf8_size_grows(s: Seq<char>, k: int)
    requires
        0 <= k <= s.len(),
    ensures
        utf8_size(s.subrange(0, k)) <= utf8_size(s),
    decreases s.len() - k,
{
    if k < s.len() {
        lemma_utf8_size_grows(s, k + 1);
        assert(s.subrange(0, k + 1).drop_last() =~= s.subrange(0, k));
    } else {
        assert(s.subrange(0, k) =~= s);
    }
}

fn find_lit(t: &Vec<char>, p: &str, from: usize) -> (r: Option<usize>)
    ensures
        match r {
            Some(i) => find_text(t@, p@, from as int) == Some(i as int) && from <= i && i + p@.len() <= t@.len(),
            None => find_text(t@, p@, from as int) is None,
        },
{
    let pc = chars_of(p);
    find_chars(t, &pc, from)
}

/// The character position where the answer in `t` ends.
fn answer_end_of(t: &Vec<char>) -> (r: Option<usize>)
    ensures
        match r {
            Some(e) => answer_end(t@) == Some(e as int) && e <= t@.len(),
            None => answer_end(t@) is None,
        },
{
    proof {
        reveal_strlit("<response ");
        reveal_strlit("/>");
        reveal_strlit("</response>");
        reveal_strlit("</data>");
    }
    let _n = t.len();
    let st = match find_lit(t, "<response ", 0) {
        Some(st) => st,
        None => return None,
    };
    let end = match find_lit(t, "/>", st) {
        Some(k) => k + 2,
        None => match find_lit(t, "</response>", st) {
            Some(k) => k + 11,
            None => return None,
        },
    };
    match find_lit(t, "</data>", end) {
        Some(k) => Some(k + 7),
        None => Some(end),
    }
}

/// The start of a read's data before any raw transfer: the bytes the
/// answer's log messages carry (at most `total`), then bytes left over
/// from the answer (up to `total` in all); and what stays left over.
pub open spec fn read_prefix(logs: Seq<Seq<char>>, left: Seq<u8>, total: nat) -> (Seq<u8>, Seq<u8>) {
    let lb = log_bytes(logs);
    let a = if lb.len() <= total {
        lb
    } else {
        lb.subrange(0, total as int)
    };
    if a.len() < total && left.len() > 0 {
        let n = if left.len() <= total - a.len() {
            left.len()
        } else {
            (total - a.len()) as nat
        };
        (a + left.subrange(0, n as int), left.subrange(n as int, left.len() as int))
    } else {
        (a, left)
    }
}

/// Bytes that arrive behind a complete answer are kept, not lost: what is
/// left over is the tail of everything received.
pub proof fn lemma_rest_is_tail(buf: Seq<u8>, empty: nat, chunk: Seq<u8>)
    ensures
        collect_step(buf, empty, chunk) matches CollectView::Complete(_, rest) ==> rest.len() <= (buf
            + chunk).len() && (buf + chunk).subrange((buf + chunk).len() - rest.len(), (buf + chunk).len() as int)
            == rest,
{
    let b = buf + chunk;
    match collect_step(buf, empty, chunk) {
        CollectView::Complete(_, rest) => {
            if rest.len() == 0 {
                assert(b.subrange(b.len() as int, b.len() as int) =~= rest);
            }
        },
        _ => {},
    }
}

impl ResponseCollector {
    pub open spec fn step_result(&self, chunk: Seq<u8>) -> CollectView {
        collect_step(self.buffer@, self.empty_reads as nat, chunk)
    }
}

impl FirehoseClient {
    pub fn new() -> (c: FirehoseClient)
        ensures
            c@ == initial_client(),
            c.spec_event_sink() is None,
    {
        let c = FirehoseClient {
            memory_name: to_owned_string("eMMC"),
            sector_size: 512,
            max_payload_size: 1024 * 1024,
            max_payload_size_from_target: None,
            max_payload_size_to_target_supported: None,
            max_xml_size: None,
            target_name: to_owned_string("unknown"),
            version: None,
            total_sectors: 0,
            initialized: false,
            leftover: Vec::new(),
            event_sink: None,
        };
        assert(c@.leftover =~= seq![]);
        c
    }

    /// The sink that receives the session's events, if any.
    pub closed spec fn spec_event_sink(&self) -> Option<Arc<dyn EventSink>> {
        self.event_sink
    }

    /// The same session, reporting its events to `sink`.
    pub fn with_event_sink(self, sink: Option<Arc<dyn EventSink>>) -> (c: FirehoseClient)
        ensures
            c@ == self@,
            c.spec_event_sink() == sink,
    {
        let mut c = self;
        c.event_sink = sink;
        c
    }

    fn emit(&self, event: FirehoseEvent) {
        emit_event(&self.event_sink, Event::Firehose(event));
    }

    /// Starts configuration: reports it, and gives the configure command
    /// built from the current state (storage initialisation kept, ZLP-aware
    /// host).
    pub fn begin_configure(&self) -> (cmd: FirehoseCommand)
        ensures
            cmd matches FirehoseCommand::Configure {
                memory_name,
                target_name,
                skip_storage_init,
                zlp_aware_host,
                max_payload_size,
            } && memory_name@ == self@.memory_name && target_name@ == self@.target_name
                && !skip_storage_init && zlp_aware_host && max_payload_size == self@.max_payload_size,
    {
        self.emit(FirehoseEvent::ConfigureStarted);
        FirehoseCommand::Configure {
            memory_name: self.memory_name.clone(),
            target_name: self.target_name.clone(),
            skip_storage_init: false,
            zlp_aware_host: true,
            max_payload_size: self.max_payload_size,
        }
    }

    /// Takes in the answer to configure: a refusal fails with its reason
    /// ("unknown error" when it gives none) and changes nothing; an ACK
    /// takes every field the device reported and marks the session
    /// initialised.
    pub fn finish_configure(&mut self, resp: FirehoseResponse) -> (r: Result<(), FirehoseError>)
        ensures
            final(self).spec_event_sink() == old(self).spec_event_sink(),
            resp.value == ResponseValue::Ack ==> r is Ok && final(self)@ == configured(
                old(self)@,
                config_view(resp.config),
            ),
            resp.value == ResponseValue::Nak ==> final(self)@ == old(self)@ && (r matches Err(
                FirehoseError::ConfigureFailed { reason },
            ) && reason@ == refusal(resp, "unknown error"@)),
    {
        if !resp.is_ack() {
            let reason = match resp.error {
                Some(e) => e,
                None => to_owned_string("unknown error"),
            };
            return Err(FirehoseError::ConfigureFailed { reason });
        }
        let c = resp.config;
        match c.memory_name {
            Some(name) => {
                self.memory_name = name;
            },
            None => {},
        }
        match c.sector_size {
            Some(v) => {
                self.sector_size = v;
            },
            None => {},
        }
        match c.max_payload_size {
            Some(v) => {
                self.max_payload_size = v;
            },
            None => {},
        }
        if c.max_payload_size_from_target.is_some() {
            self.max_payload_size_from_target = c.max_payload_size_from_target;
        }
        if c.max_payload_size_to_target_supported.is_some() {
            self.max_payload_size_to_target_supported = c.max_payload_size_to_target_supported;
        }
        if c.max_xml_size.is_some() {
            self.max_xml_size = c.max_xml_size;
        }
        match c.target_name {
            Some(t) => {
                self.target_name = t;
            },
            None => {},
        }
        match c.version {
            Some(v) => {
                self.version = Some(v);
            },
            None => {},
        }
        match c.total_sectors {
            Some(v) => {
                self.total_sectors = v;
            },
            None => {},
        }
        self.initialized = true;
        self.emit(FirehoseEvent::ConfigureComplete);
        Ok(())
    }

    /// Starts collecting an answer, from the bytes left over by the last.
    pub fn begin_response(&mut self) -> (c: ResponseCollector)
        ensures
            final(self).spec_event_sink() == old(self).spec_event_sink(),
            c.buffer@ == old(self)@.leftover,
            c.empty_reads == 0,
            final(self)@ == (ClientView { leftover: seq![], ..old(self)@ }),
    {
        let mut buffer: Vec<u8> = Vec::new();
        std::mem::swap(&mut buffer, &mut self.leftover);
        assert(self@.leftover =~= seq![]);
        ResponseCollector { buffer, empty_reads: 0 }
    }

    /// Takes in what one read brought while collecting an answer (nothing
    /// on a timeout). On completion the bytes after the answer are kept for
    /// the next read.
    pub fn collect(&mut self, c: &mut ResponseCollector, chunk: &[u8]) -> (r: CollectStep)
        ensures
            final(self).spec_event_sink() == old(self).spec_event_sink(),
            match old(c).step_result(chunk@) {
                CollectView::Complete(text, rest) => (r matches CollectStep::Complete(s) && s@ == text)
                    && final(self)@ == (ClientView { leftover: rest, ..old(self)@ }),
                CollectView::Retry(n) => r matches CollectStep::Retry && final(c).empty_reads == n
                    && final(c).buffer@ == old(c).buffer@ && final(self)@ == old(self)@,
                CollectView::ReadMore(b) => r matches CollectStep::ReadMore && final(c).empty_reads == 0
                    && final(c).buffer@ == b && final(self)@ == old(self)@,
                CollectView::TimedOut => (r matches CollectStep::Failed(FirehoseError::Timeout { command })
                    && command@ == "read_response"@) && final(self)@ == old(self)@,
                CollectView::TooLarge => (r matches CollectStep::Failed(
                    FirehoseError::InvalidResponse { reason },
                ) && reason@ == "response too large"@) && final(self)@ == old(self)@,
            },
    {
        if chunk.len() == 0 {
            let hint = if c.buffer.len() > 0 {
                let text = utf8_to_string_lossy(c.buffer.as_slice());
                let t = text.as_str();
                str_contains(t, "<response ") && (str_contains(t, "/>") || str_contains(t, "</response>"))
            } else {
                false
            };
            if !hint {
                if c.empty_reads >= MAX_EMPTY_READS {
                    return CollectStep::Failed(FirehoseError::Timeout { command: to_owned_string("read_response") });
                }
                c.empty_reads = c.empty_reads + 1;
                return CollectStep::Retry;
            }
        }
        assert(!(chunk@.len() == 0 && !(old(c).buffer@.len() > 0 && answer_hint(utf8_lossy(old(c).buffer@)))));
        c.empty_reads = 0;
        let ghost b0 = c.buffer@;
        let mut i: usize = 0;
        while i < chunk.len()
            invariant
                i <= chunk@.len(),
                c.buffer@ == b0 + chunk@.subrange(0, i as int),
                c.empty_reads == 0,
            decreases chunk@.len() - i,
        {
            c.buffer.push(chunk[i]);
            assert(c.buffer@ =~= b0 + chunk@.subrange(0, i + 1));
            i = i + 1;
        }
        assert(c.buffer@ =~= b0 + chunk@);
        let text = utf8_to_string_lossy(c.buffer.as_slice());
        let tc = chars_of(text.as_str());
        assert(tc@ == utf8_lossy(old(c).buffer@ + chunk@));
        match answer_end_of(&tc) {
            Some(e) => {
                let len = c.buffer.len();
                match prefix_size_below(&tc, e, len) {
                    Some(cut) => {
                        let mut head: Vec<u8> = Vec::new();
                        let mut rest: Vec<u8> = Vec::new();
                        let mut j: usize = 0;
                        while j < len
                            invariant
                                j <= len == c.buffer@.len(),
                                cut < len,
                                j <= cut ==> head@ == c.buffer@.subrange(0, j as int) && rest@.len() == 0,
                                j > cut ==> head@ == c.buffer@.subrange(0, cut as int) && rest@
                                    == c.buffer@.subrange(cut as int, j as int),
                            decreases len - j,
                        {
                            if j < cut {
                                head.push(c.buffer[j]);
                                assert(head@ =~= c.buffer@.subrange(0, j + 1));
                            } else {
                                rest.push(c.buffer[j]);
                                assert(rest@ =~= c.buffer@.subrange(cut as int, j + 1));
                            }
                            j = j + 1;
                        }
                        self.leftover = rest;
                        assert(old(c).step_result(chunk@) == CollectView::Complete(utf8_lossy(head@), rest@));
                        assert(self@ == (ClientView { leftover: rest@, ..old(self)@ }));
                        CollectStep::Complete(utf8_to_string_lossy(head.as_slice()))
                    },
                    None => {
                        self.leftover = Vec::new();
                        assert(self@ == (ClientView { leftover: seq![], ..old(self)@ }));
                        CollectStep::Complete(text)
                    },
                }
            },
            None => {
                if c.buffer.len() > MAX_ANSWER_BYTES {
                    CollectStep::Failed(FirehoseError::InvalidResponse { reason: to_owned_string("response too large") })
                } else {
                    CollectStep::ReadMore
                }
            },
        }
    }

    /// The read command for `count` sectors from `start` on `lun`, in the
    /// session's sector size; reports that the read starts.
    pub fn begin_read(&self, lun: u8, start: u64, count: u64) -> (cmd: FirehoseCommand)
        ensures
            cmd == (FirehoseCommand::Read {
                sector_size: self@.sector_size,
                num_sectors: count,
                physical_partition: lun,
                start_sector: start,
            }),
    {
        self.emit(FirehoseEvent::ReadStarted { lun, start, count });
        FirehoseCommand::Read { sector_size: self.sector_size, num_sectors: count, physical_partition: lun, start_sector: start }
    }

    /// The number of bytes `num_sectors` sectors take.
    pub fn read_size(&self, num_sectors: u64) -> (r: u64)
        requires
            num_sectors * self@.sector_size <= u64::MAX,
        ensures
            r == num_sectors * self@.sector_size,
    {
        num_sectors * (self.sector_size as u64)
    }

    /// The data of a read that is already at hand once the device has
    /// acknowledged it (`resp`): the bytes of its log messages, then the
    /// bytes left over from the answer, `total` at most. The rest arrives
    /// raw.
    pub fn take_read_data(&mut self, resp: &FirehoseResponse, total: usize) -> (data: Vec<u8>)
        ensures
            final(self).spec_event_sink() == old(self).spec_event_sink(),
            data@ == read_prefix(strings_view(resp.logs@), old(self)@.leftover, total as nat).0,
            final(self)@ == (ClientView {
                leftover: read_prefix(strings_view(resp.logs@), old(self)@.leftover, total as nat).1,
                ..old(self)@
            }),
    {
        let lb = bytes_from_logs(&resp.logs);
        let mut data: Vec<u8> = Vec::new();
        let mut i: usize = 0;
        while i < lb.len() && i < total
            invariant
                i <= lb@.len(),
                i <= total,
                data@ == lb@.subrange(0, i as int),
            decreases lb@.len() - i,
        {
            data.push(lb[i]);
            assert(data@ =~= lb@.subrange(0, i + 1));
            i = i + 1;
        }
        if lb.len() <= total {
            assert(lb@.subrange(0, lb@.len() as int) =~= lb@);
        }
        let ghost a = data@;
        if data.len() < total && self.leftover.len() > 0 {
            let room = total - data.len();
            let n = if self.leftover.len() <= room {
                self.leftover.len()
            } else {
                room
            };
            let mut rest: Vec<u8> = Vec::new();
            let mut j: usize = 0;
            while j < self.leftover.len()
                invariant
                    j <= self.leftover@.len(),
                    n <= self.leftover@.len(),
                    j <= n ==> data@ == a + self.leftover@.subrange(0, j as int) && rest@.len() == 0,
                    j > n ==> data@ == a + self.leftover@.subrange(0, n as int) && rest@
                        == self.leftover@.subrange(n as int, j as int),
                decreases self.leftover@.len() - j,
            {
                if j < n {
                    data.push(self.leftover[j]);
                    assert(data@ =~= a + self.leftover@.subrange(0, j + 1));
                } else {
                    rest.push(self.leftover[j]);
                    assert(rest@ =~= self.leftover@.subrange(n as int, j + 1));
                }
                j = j + 1;
            }
            if n == self.leftover.len() {
                assert(rest@ =~= self.leftover@.subrange(n as int, n as int));
            }
            self.leftover = rest;
        }
        data
    }

    /// Reports that `current` of `total` bytes of a read have arrived.
    pub fn report_read_progress(&self, current: u64, total: u64) {
        self.emit(FirehoseEvent::ReadProgress { current, total });
    }

    /// Takes in the answer that ends a read: anything but an ACK is a
    /// refusal of the read; an ACK is reported as the read's completion.
    pub fn finish_read(&self, resp: &FirehoseResponse) -> (r: Result<(), FirehoseError>)
        ensures
            resp.value == ResponseValue::Ack ==> r is Ok,
            resp.value == ResponseValue::Nak ==> (r matches Err(FirehoseError::Nak { command, reason })
                && command@ == "read"@ && reason@ == refusal(*resp, "unknown"@)),
    {
        let r = expect_ack(resp, "read");
        if r.is_ok() {
            self.emit(FirehoseEvent::ReadComplete);
        }
        r
    }

    /// The program command for `count` sectors from `start` on `lun`; the
    /// data follows it raw.
    pub fn program_command(&self, lun: u8, start: u64, count: u64) -> (cmd: FirehoseCommand)
        ensures
            cmd == (FirehoseCommand::Program {
                sector_size: self@.sector_size,
                num_sectors: count,
                physical_partition: lun,
                start_sector: start,
                filename: None,
            }),
    {
        FirehoseCommand::Program {
            sector_size: self.sector_size,
            num_sectors: count,
            physical_partition: lun,
            start_sector: start,
            filename: None,
        }
    }

    /// The erase command for `count` sectors from `start` on `lun`.
    pub fn erase_command(&self, lun: u8, start: u64, count: u64) -> (cmd: FirehoseCommand)
        ensures
            cmd == (FirehoseCommand::Erase {
                sector_size: self@.sector_size,
                num_sectors: count,
                physical_partition: lun,
                start_sector: start,
            }),
    {
        FirehoseCommand::Erase { sector_size: self.sector_size, num_sectors: count, physical_partition: lun, start_sector: start }
    }

    /// The command that asks for the SHA-256 digest of `count` sectors from
    /// `start` on `lun`.
    pub fn sha256_command(&self, lun: u8, start: u64, count: u64) -> (cmd: FirehoseCommand)
        ensures
            cmd == (FirehoseCommand::GetSha256Digest {
                sector_size: self@.sector_size,
                num_sectors: count,
                physical_partition: lun,
                start_sector: start,
            }),
    {
        FirehoseCommand::GetSha256Digest {
            sector_size: self.sector_size,
            num_sectors: count,
            physical_partition: lun,
            start_sector: start,
        }
    }

    pub fn sector_size(&self) -> (r: u32)
        ensures
            r == self@.sector_size,
    {
        self.sector_size
    }

    pub fn max_payload_size(&self) -> (r: u32)
        ensures
            r == self@.max_payload_size,
    {
        self.max_payload_size
    }

    pub fn is_initialized(&self) -> (r: bool)
        ensures
            r == self@.initialized,
    {
        self.initialized
    }

    pub fn memory_name(&self) -> (r: &str)
        ensures
            r@ == self@.memory_name,
    {
        self.memory_name.as_str()
    }

    pub fn target_name(&self) -> (r: &str)
        ensures
            r@ == self@.target_name,
    {
        self.target_name.as_str()
    }

    pub fn version(&self) -> (r: Option<&str>)
        ensures
            match r {
                Some(s) => self@.version == Some(s@),
                None => self@.version is None,
            },
    {
        match &self.version {
            Some(v) => Some(v.as_str()),
            None => None,
        }
    }

    pub fn max_payload_size_from_target(&self) -> (r: Option<u32>)
        ensures
            r == self@.max_payload_size_from_target,
    {
        self.max_payload_size_from_target
    }

    pub fn max_payload_size_to_target_supported(&self) -> (r: Option<u32>)
        ensures
            r == self@.max_payload_size_to_target_supported,
    {
        self.max_payload_size_to_target_supported
    }

    pub fn max_xml_size(&self) -> (r: Option<u32>)
        ensures
            r == self@.max_xml_size,
    {
        self.max_xml_size
    }

    pub fn total_sectors(&self) -> (r: u64)
        ensures
            r == self@.total_sectors,
    {
        self.total_sectors
    }

    /// Takes the sector size and total sector count that getstorageinfo
    /// reported, where it reported them.
    pub fn update_from_storage_info(&mut self, sector_size: Option<u32>, total_sectors: Option<u64>)
        ensures
            final(self).spec_event_sink() == old(self).spec_event_sink(),
            final(self)@ == (ClientView {
                sector_size: or_keep(sector_size, old(self)@.sector_size),
                total_sectors: or_keep(total_sectors, old(self)@.total_sectors),
                ..old(self)@
            }),
    {
        match sector_size {
            Some(v) => {
                self.sector_size = v;
            },
            None => {},
        }
        match total_sectors {
            Some(v) => {
                self.total_sectors = v;
            },
            None => {},
        }
    }

    pub fn set_memory_name(&mut self, name: String)
        ensures
            final(self).spec_event_sink() == old(self).spec_event_sink(),
            final(self)@ == (ClientView { memory_name: name@, ..old(self)@ }),
    {
        self.memory_name = name;
    }
}

impl Default for FirehoseClient {
    fn default() -> (c: FirehoseClient)
        ensures
            c@ == initial_client(),
            c.spec_event_sink() is None,
    {
        FirehoseClient::new()
    }
}

/// Where the raw part of a read stands after more bytes came in.
#[derive(Debug, Clone, Copy, PartialEq, Eq, Structural)]
pub enum FillStep {
    /// This many bytes are in; more are owed.
    More(usize),
    /// All the bytes are in.
    Done,
}

/// The buffer the raw part of a read fills: `total` bytes, starting with
/// the data already at hand (`total` of it at most), zeros after it; and how
/// many bytes are already in.
pub fn read_buffer(at_hand: &Vec<u8>, total: usize) -> (r: (Vec<u8>, usize))
    ensures
        r.1 == (if at_hand@.len() <= total {
            at_hand@.len()
        } else {
            total as nat
        }),
        r.0@.len() == total,
        r.0@.subrange(0, r.1 as int) == at_hand@.subrange(0, r.1 as int),
        forall|i: int| r.1 <= i < total ==> r.0@[i] == 0,
{
    let have: usize = if at_hand.len() <= total {
        at_hand.len()
    } else {
        total
    };
    let mut buf: Vec<u8> = Vec::new();
    let mut i: usize = 0;
    while i < total
        invariant
            i <= total,
            have <= total,
            have <= at_hand@.len(),
            buf@.len() == i,
            forall|k: int| 0 <= k < i && k < have ==> buf@[k] == at_hand@[k],
            forall|k: int| have <= k < i ==> buf@[k] == 0,
        decreases total - i,
    {
        if i < have {
            buf.push(at_hand[i]);
        } else {
            buf.push(0);
        }
        i = i + 1;
    }
    assert(buf@.subrange(0, have as int) =~= at_hand@.subrange(0, have as int));
    (buf, have)
}

/// The raw part of a read: `read` of `total` bytes are in, and a read of the
/// device gave `received` more. Nothing received means the device stopped
/// sending: the read timed out.
pub fn fill_step(read: usize, total: usize, received: usize) -> (r: Result<FillStep, FirehoseError>)
    requires
        read < total,
        received <= total - read,
    ensures
        received == 0 ==> (r matches Err(FirehoseError::Timeout { command }) && command@ == "read"@),
        0 < received && read + received < total ==> r == Ok::<FillStep, FirehoseError>(
            FillStep::More((read + received) as usize),
        ),
        0 < received && read + received == total ==> r == Ok::<FillStep, FirehoseError>(FillStep::Done),
{
    if received == 0 {
        return Err(FirehoseError::Timeout { command: to_owned_string("read") });
    }
    let now = read + received;
    if now < total {
        Ok(FillStep::More(now))
    } else {
        Ok(FillStep::Done)
    }
}

} // verus!
