//! The full twelve-byte DNS message header: every flag bit by name, decoded
//! from and encoded back to its wire form.

use vstd::prelude::*;
use crate::wire::{u16_at, u16_hi, u16_lo, u16_be_bytes, read_u16_at, u16_to_be};

verus! {

/// A DNS message header: the identifier, each flag of the flags word, and
/// the four section counts.
#[derive(Clone, Copy, Debug, PartialEq, Eq, Structural)]
pub struct MessageHeader {
    /// Opaque correlation token chosen by the client.
    pub id: u16,
    /// Query (false) or response (true).
    pub qr: bool,
    /// Kind of query, bits 11 to 14 of the flags word.
    pub opcode: u8,
    /// Authoritative answer.
    pub aa: bool,
    /// Truncation.
    pub tc: bool,
    /// Recursion desired.
    pub rd: bool,
    /// Recursion available.
    pub ra: bool,
    /// The reserved bit between RA and AD.
    pub z: bool,
    /// Authentic data.
    pub ad: bool,
    /// Checking disabled.
    pub cd: bool,
    /// Response code, the low four bits of the flags word.
    pub rcode: u8,
    /// Number of questions.
    pub qdcount: u16,
    /// Number of answer records.
    pub ancount: u16,
    /// Number of authority records.
    pub nscount: u16,
    /// Number of additional records.
    pub arcount: u16,
}

impl MessageHeader {
    /// The multi-bit fields hold only the bits their wire slots can carry.
    pub open spec fn wf(self) -> bool {
        self.opcode < 16 && self.rcode < 16
    }
}

/// The flags word assembled from its named fields.
pub open spec fn encode_flags(h: MessageHeader) -> u16 {
    (if h.qr { 0x8000u16 } else { 0u16 })
        | ((h.opcode as u16) << 11)
        | (if h.aa { 0x0400u16 } else { 0u16 })
        | (if h.tc { 0x0200u16 } else { 0u16 })
        | (if h.rd { 0x0100u16 } else { 0u16 })
        | (if h.ra { 0x0080u16 } else { 0u16 })
        | (if h.z { 0x0040u16 } else { 0u16 })
        | (if h.ad { 0x0020u16 } else { 0u16 })
        | (if h.cd { 0x0010u16 } else { 0u16 })
        | (h.rcode as u16)
}

/// The header read from the first twelve bytes of a message.
pub open spec fn spec_decode_header(s: Seq<u8>) -> MessageHeader {
    let f = u16_at(s, 2);
    MessageHeader {
        id: u16_at(s, 0),
        qr: f & 0x8000 != 0,
        opcode: ((f >> 11) & 0xF) as u8,
        aa: f & 0x0400 != 0,
        tc: f & 0x0200 != 0,
        rd: f & 0x0100 != 0,
        ra: f & 0x0080 != 0,
        z: f & 0x0040 != 0,
        ad: f & 0x0020 != 0,
        cd: f & 0x0010 != 0,
        rcode: (f & 0xF) as u8,
        qdcount: u16_at(s, 4),
        ancount: u16_at(s, 6),
        nscount: u16_at(s, 8),
        arcount: u16_at(s, 10),
    }
}

/// The twelve wire bytes of a header.
pub open spec fn spec_encode_header(h: MessageHeader) -> Seq<u8> {
    u16_be_bytes(h.id) + u16_be_bytes(encode_flags(h)) + u16_be_bytes(h.qdcount) + u16_be_bytes(
        h.ancount,
    ) + u16_be_bytes(h.nscount) + u16_be_bytes(h.arcount)
}

/// Decodes the fixed header from the first twelve bytes of a message.
pub fn decode_header(bytes: &[u8]) -> (h: MessageHeader)
    requires
        bytes@.len() >= 12,
    ensures
        h == spec_decode_header(bytes@),
        h.wf(),
{
    let f = read_u16_at(bytes, 2);
    proof {
        assert((f >> 11) & 0xF < 16 && f & 0xF < 16) by (bit_vector);
    }
    MessageHeader {
        id: read_u16_at(bytes, 0),
        qr: f & 0x8000 != 0,
        opcode: ((f >> 11) & 0xF) as u8,
        aa: f & 0x0400 != 0,
        tc: f & 0x0200 != 0,
        rd: f & 0x0100 != 0,
        ra: f & 0x0080 != 0,
        z: f & 0x0040 != 0,
        ad: f & 0x0020 != 0,
        cd: f & 0x0010 != 0,
        rcode: (f & 0xF) as u8,
        qdcount: read_u16_at(bytes, 4),
        ancount: read_u16_at(bytes, 6),
        nscount: read_u16_at(bytes, 8),
        arcount: read_u16_at(bytes, 10),
    }
}

/// Encodes a header into its twelve wire bytes.
pub fn encode_header(h: &MessageHeader) -> (r: Vec<u8>)
    requires
        h.wf(),
    ensures
        r@ == spec_encode_header(*h),
        r@.len() == 12,
{
    let flags: u16 = (if h.qr { 0x8000u16 } else { 0u16 }) | ((h.opcode as u16) << 11) | (if h.aa {
        0x0400u16
    } else {
        0u16
    }) | (if h.tc { 0x0200u16 } else { 0u16 }) | (if h.rd { 0x0100u16 } else { 0u16 }) | (if h.ra {
        0x0080u16
    } else {
        0u16
    }) | (if h.z { 0x0040u16 } else { 0u16 }) | (if h.ad { 0x0020u16 } else { 0u16 }) | (if h.cd {
        0x0010u16
    } else {
        0u16
    }) | (h.rcode as u16);
    let mut r: Vec<u8> = Vec::new();
    let (b0, b1) = u16_to_be(h.id);
    r.push(b0);
    r.push(b1);
    let (b2, b3) = u16_to_be(flags);
    r.push(b2);
    r.push(b3);
    let (b4, b5) = u16_to_be(h.qdcount);
    r.push(b4);
    r.push(b5);
    let (b6, b7) = u16_to_be(h.ancount);
    r.push(b6);
    r.push(b7);
    let (b8, b9) = u16_to_be(h.nscount);
    r.push(b8);
    r.push(b9);
    let (b10, b11) = u16_to_be(h.arcount);
    r.push(b10);
    r.push(b11);
    assert(r@ =~= spec_encode_header(*h));
    r
}

/// Splitting a 16-bit value read from two bytes back into big-endian bytes
/// gives the two bytes again.
proof fn lemma_u16_recombine(a: u8, b: u8)
    ensures
        u16_hi((a * 256 + b) as u16) == a,
        u16_lo((a * 256 + b) as u16) == b,
{
    assert(((a as u16 * 256 + b as u16) as u16) / 256 == a && ((a as u16 * 256 + b as u16) as u16)
        % 256 == b) by (bit_vector);
}

/// Decoding a header and re-encoding it with no field changes reproduces the
/// original twelve bytes exactly.
pub proof fn lemma_header_roundtrip(s: Seq<u8>)
    requires
        s.len() >= 12,
    ensures
        spec_encode_header(spec_decode_header(s)) == s.subrange(0, 12),
{
    let h = spec_decode_header(s);
    let f = u16_at(s, 2);
    assert(encode_flags(h) == f) by {
        assert(((if (f & 0x8000u16) != 0 { 0x8000u16 } else { 0u16 }) | ((((f >> 11) & 0xF) as u8
            as u16) << 11) | (if (f & 0x0400u16) != 0 { 0x0400u16 } else { 0u16 }) | (if (f
            & 0x0200u16) != 0 { 0x0200u16 } else { 0u16 }) | (if (f & 0x0100u16) != 0 { 0x0100u16 } else { 0u16 })
            | (if (f & 0x0080u16) != 0 { 0x0080u16 } else { 0u16 }) | (if (f & 0x0040u16) != 0 { 0x0040u16 } else { 0u16 })
            | (if (f & 0x0020u16) != 0 { 0x0020u16 } else { 0u16 }) | (if (f & 0x0010u16) != 0 { 0x0010u16 } else { 0u16 })
            | ((f & 0xFu16) as u8 as u16)) == f) by (bit_vector);
    }
    lemma_u16_recombine(s[0], s[1]);
    lemma_u16_recombine(s[2], s[3]);
    lemma_u16_recombine(s[4], s[5]);
    lemma_u16_recombine(s[6], s[7]);
    lemma_u16_recombine(s[8], s[9]);
    lemma_u16_recombine(s[10], s[11]);
    assert(spec_encode_header(h) =~= s.subrange(0, 12));
}

} // verus!
