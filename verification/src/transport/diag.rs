//! DIAG packets: CRC-16/CCITT and HDLC framing.

use vstd::prelude::*;

verus! {

/// One bit step of the reflected CRC-16/CCITT register (polynomial 0x8408).
pub open spec fn crc16_bit(c: u16) -> u16 {
    if c & 1 != 0 {
        ((c >> 1u16) ^ 0x8408u16) as u16
    } else {
        c >> 1u16
    }
}

/// `n` bit steps.
pub open spec fn crc16_bits(c: u16, n: nat) -> u16
    decreases n,
{
    if n == 0 {
        c
    } else {
        crc16_bits(crc16_bit(c), (n - 1) as nat)
    }
}

/// The register after the bytes of `data`, from `init`.
pub open spec fn crc16_update(init: u16, data: Seq<u8>) -> u16
    decreases data.len(),
{
    if data.len() == 0 {
        init
    } else {
        let c = crc16_update(init, data.drop_last());
        crc16_bits(c ^ (data.last() as u16), 8)
    }
}

/// CRC-16/CCITT of `data` (init 0xFFFF, reflected, final xor 0xFFFF).
pub open spec fn crc16(data: Seq<u8>) -> u16 {
    crc16_update(0xFFFF, data) ^ 0xFFFF
}

/// CRC-16/CCITT (polynomial 0x11021, init 0xFFFF, xorOut 0xFFFF), as DIAG
/// HDLC framing uses it.
pub fn crc16_ccitt(data: &[u8]) -> (r: u16)
    ensures
        r == crc16(data@),
{
    let mut crc: u16 = 0xFFFF;
    let mut i: usize = 0;
    while i < data.len()
        invariant
            i <= data@.len(),
            crc == crc16_update(0xFFFF, data@.subrange(0, i as int)),
        decreases data@.len() - i,
    {
        assert(data@.subrange(0, i + 1).drop_last() =~= data@.subrange(0, i as int));
        crc = crc ^ (data[i] as u16);
        let mut k: usize = 0;
        let ghost start = crc;
        while k < 8
            invariant
                k <= 8,
                crc == crc16_bits(start, k as nat),
            decreases 8 - k,
        {
            proof {
                lemma_bits_step(start, k as nat);
            }
            if crc & 1 != 0 {
                crc = (crc >> 1) ^ 0x8408;
            } else {
                crc = crc >> 1;
            }
            k = k + 1;
        }
        i = i + 1;
    }
    assert(data@.subrange(0, data@.len() as int) =~= data@);
    crc ^ 0xFFFF
}

proof fn lemma_bits_step(c: u16, n: nat)
    ensures
        crc16_bits(c, n + 1) == crc16_bit(crc16_bits(c, n)),
    decreases n,
{
    if n > 0 {
        lemma_bits_step(crc16_bit(c), (n - 1) as nat);
        assert(crc16_bits(c, n + 1) == crc16_bits(crc16_bit(c), n));
        assert(crc16_bits(c, n) == crc16_bits(crc16_bit(c), (n - 1) as nat));
    } else {
        assert(crc16_bits(c, 1) == crc16_bits(crc16_bit(c), 0));
    }
}

/// The HDLC escape of one byte.
pub open spec fn hdlc_byte(b: u8) -> Seq<u8> {
    if b == 0x7E {
        seq![0x7Du8, 0x5Eu8]
    } else if b == 0x7D {
        seq![0x7Du8, 0x5Du8]
    } else {
        seq![b]
    }
}

/// The HDLC escape of a payload: 0x7E becomes 0x7D 0x5E, 0x7D becomes
/// 0x7D 0x5D.
pub open spec fn hdlc_escaped(s: Seq<u8>) -> Seq<u8>
    decreases s.len(),
{
    if s.len() == 0 {
        seq![]
    } else {
        hdlc_escaped(s.drop_last()) + hdlc_byte(s.last())
    }
}

/// Escapes a payload for HDLC.
pub fn hdlc_escape(payload: &[u8]) -> (out: Vec<u8>)
    ensures
        out@ == hdlc_escaped(payload@),
{
    let mut out: Vec<u8> = Vec::new();
    let mut i: usize = 0;
    while i < payload.len()
        invariant
            i <= payload@.len(),
            out@ == hdlc_escaped(payload@.subrange(0, i as int)),
        decreases payload@.len() - i,
    {
        assert(payload@.subrange(0, i + 1).drop_last() =~= payload@.subrange(0, i as int));
        let b = payload[i];
        if b == 0x7E {
            out.push(0x7D);
            out.push(0x5E);
        } else if b == 0x7D {
            out.push(0x7D);
            out.push(0x5D);
        } else {
            out.push(b);
        }
        assert(out@ =~= hdlc_escaped(payload@.subrange(0, i + 1)));
        i = i + 1;
    }
    assert(payload@.subrange(0, payload@.len() as int) =~= payload@);
    out
}

/// The body of a DIAG packet before escaping: command, payload, CRC
/// (little-endian).
pub open spec fn diag_body(cmd: u8, payload: Seq<u8>) -> Seq<u8> {
    let d = seq![cmd] + payload;
    let c = crc16(d);
    d + seq![(c & 0xFF) as u8, (c >> 8u16) as u8]
}

/// An HDLC-framed DIAG packet: 0x7E, the escaped body, 0x7E.
pub open spec fn diag_packet(cmd: u8, payload: Seq<u8>) -> Seq<u8> {
    seq![0x7Eu8] + hdlc_escaped(diag_body(cmd, payload)) + seq![0x7Eu8]
}

/// Builds an HDLC-framed DIAG packet.
pub fn diag_frame(cmd: u8, payload: &[u8]) -> (frame: Vec<u8>)
    ensures
        frame@ == diag_packet(cmd, payload@),
{
    let mut data: Vec<u8> = Vec::new();
    data.push(cmd);
    let mut i: usize = 0;
    while i < payload.len()
        invariant
            i <= payload@.len(),
            data@ == seq![cmd] + payload@.subrange(0, i as int),
        decreases payload@.len() - i,
    {
        data.push(payload[i]);
        assert(data@ =~= seq![cmd] + payload@.subrange(0, i + 1));
        i = i + 1;
    }
    assert(payload@.subrange(0, payload@.len() as int) =~= payload@);
    let ghost d = data@;
    let crc = crc16_ccitt(data.as_slice());
    data.push((crc & 0xFF) as u8);
    data.push((crc >> 8) as u8);
    assert(d == seq![cmd] + payload@);
    assert(data@ =~= diag_body(cmd, payload@));
    let escaped = hdlc_escape(data.as_slice());
    let mut frame: Vec<u8> = Vec::new();
    frame.push(0x7E);
    let mut j: usize = 0;
    while j < escaped.len()
        invariant
            j <= escaped@.len(),
            frame@ == seq![0x7Eu8] + escaped@.subrange(0, j as int),
        decreases escaped@.len() - j,
    {
        frame.push(escaped[j]);
        assert(frame@ =~= seq![0x7Eu8] + escaped@.subrange(0, j + 1));
        j = j + 1;
    }
    frame.push(0x7E);
    assert(escaped@.subrange(0, escaped@.len() as int) =~= escaped@);
    assert(frame@ =~= diag_packet(cmd, payload@));
    frame
}

} // verus!

verus! {

/// An escaped payload never holds the frame flag 0x7E, so a frame's flags
/// are the only 0x7E bytes in it.
pub proof fn lemma_escaped_has_no_flag(s: Seq<u8>)
    ensures
        forall|i: int| 0 <= i < hdlc_escaped(s).len() ==> hdlc_escaped(s)[i] != 0x7E,
    decreases s.len(),
{
    if s.len() > 0 {
        lemma_escaped_has_no_flag(s.drop_last());
        let a = hdlc_escaped(s.drop_last());
        let b = hdlc_byte(s.last());
        assert forall|i: int| 0 <= i < hdlc_escaped(s).len() implies hdlc_escaped(s)[i] != 0x7E by {
            if i < a.len() {
                assert(hdlc_escaped(s)[i] == a[i]);
            } else {
                assert(hdlc_escaped(s)[i] == b[i - a.len()]);
            }
        }
    }
}

/// A DIAG frame starts and ends with 0x7E and holds no other 0x7E.
pub proof fn lemma_frame_flags(cmd: u8, payload: Seq<u8>)
    ensures
        diag_packet(cmd, payload)[0] == 0x7E,
        diag_packet(cmd, payload).last() == 0x7E,
        forall|i: int| 0 < i < diag_packet(cmd, payload).len() - 1 ==> diag_packet(cmd, payload)[i] != 0x7E,
{
    let e = hdlc_escaped(diag_body(cmd, payload));
    lemma_escaped_has_no_flag(diag_body(cmd, payload));
    let f = diag_packet(cmd, payload);
    assert forall|i: int| 0 < i < f.len() - 1 implies f[i] != 0x7E by {
        assert(f[i] == e[i - 1]);
    }
}

} // verus!
