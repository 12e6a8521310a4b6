//! The response mutator: flips a message into a response in place, splices
//! TXT records into a growable buffer while keeping the count fields
//! consistent, and synthesizes a minimal OPT record.

use vstd::prelude::*;
use vstd::string::StringSliceAdditionalSpecFns;
use crate::constants::{QR_MASK, RCODE_MASK, RCODE_REFUSED, RR_TYPE_TXT, RR_TYPE_OPT, RR_CLASS_IN};
use crate::errors::DnsError;
use crate::parser::BareHeader;
use crate::serializer::{
    char_string_of, is_valid_character_string, push_character_string, push_domain_name,
    valid_character_string,
};
use crate::wire::{u16_at, u16_hi, u16_lo, u16_be_bytes, u32_be_bytes, u16_to_be, read_u16_at};

verus! {

/// TCP frames a DNS message behind a two-byte length prefix; every header
/// offset on that transport is shifted by this much.
pub const TCP_OFFSET: usize = 2;

/// Bytes the mutator adds around a TXT payload: a two-byte compression
/// pointer for the name, TYPE, CLASS, TTL, RDLENGTH, and the payload's
/// one-byte length prefix.
pub const TXT_RECORD_OVERHEAD: usize = 13;

/// A flags word rewritten as a response: QR set, the low four bits replaced
/// by `rcode`, everything else untouched.
pub open spec fn response_flags(f: u16, rcode: u8) -> u16 {
    ((f | QR_MASK) & !RCODE_MASK) | (rcode as u16)
}

/// A message whose flags word at `base + 2` has been rewritten as a
/// response.
pub open spec fn with_response_flags(s: Seq<u8>, base: int, rcode: u8) -> Seq<u8> {
    let f = response_flags(u16_at(s, base + 2), rcode);
    s.update(base + 2, u16_hi(f)).update(base + 3, u16_lo(f))
}

/// A message whose 16-bit count field at `at` has been replaced by `v`.
pub open spec fn with_count(s: Seq<u8>, at: int, v: u16) -> Seq<u8> {
    s.update(at, u16_hi(v)).update(at + 1, u16_lo(v))
}

/// A message with `rec` spliced in at `off`, every byte from `off` on
/// shifted right.
pub open spec fn spliced(s: Seq<u8>, off: int, rec: Seq<u8>) -> Seq<u8> {
    s.subrange(0, off) + rec + s.subrange(off, s.len() as int)
}

/// A message with `patch` written over the bytes at `off`, nothing shifted.
pub open spec fn overwritten(s: Seq<u8>, off: int, patch: Seq<u8>) -> Seq<u8> {
    s.subrange(0, off) + patch + s.subrange(off + patch.len(), s.len() as int)
}

/// The TXT record the mutator builds around the payload bytes `msg`: a
/// compression pointer back to the question name, TYPE TXT, CLASS IN, the
/// caller's TTL, RDLENGTH, and the payload as one character-string.
pub open spec fn txt_record_bytes(ttl: u32, msg: Seq<u8>) -> Seq<u8> {
    seq![0xC0u8, 0x0Cu8] + u16_be_bytes(RR_TYPE_TXT) + u16_be_bytes(RR_CLASS_IN) + u32_be_bytes(
        ttl,
    ) + u16_be_bytes((msg.len() + 1) as u16) + char_string_of(msg)
}

/// The eleven bytes of a minimal OPT pseudo-record: root name, TYPE OPT, a
/// 512-byte payload-size class field, zeroed TTL flags, empty RDATA.
pub open spec fn minimal_opt_bytes() -> Seq<u8> {
    seq![0u8, 0u8, 41u8, 2u8, 0u8, 0u8, 0u8, 0u8, 0u8, 0u8, 0u8]
}

/// The whole rewrite of a refused UDP query: flags turned into a REFUSED
/// response, the reason spliced into the answer section and again into the
/// additional section with each count bumped, and, when the query carried
/// EDNS, a minimal OPT record spliced in at the new additional-section end.
pub open spec fn spec_error_response(s: Seq<u8>, h: BareHeader, msg: Seq<u8>) -> Seq<u8> {
    let rec1 = txt_record_bytes(3600, msg);
    let rec2 = txt_record_bytes(7200, msg);
    let s1 = with_response_flags(s, 0, RCODE_REFUSED);
    let s2 = with_count(spliced(s1, h.answer_offset as int, rec1), 6, (h.ancount + 1) as u16);
    let s3 = with_count(
        spliced(s2, h.nameserver_offset + rec1.len(), rec2),
        10,
        (h.arcount + 1) as u16,
    );
    if h.arcount > 0 {
        spliced(s3, h.nameserver_offset + rec1.len() + rec2.len(), minimal_opt_bytes())
    } else {
        s3
    }
}

/// The whole rewrite of a refused TCP message: flags behind the length
/// prefix turned into a REFUSED response, the reason spliced in at the end
/// of the question section, ANCOUNT bumped, and the two-byte length prefix
/// grown by the inserted record to reflect the new total message length.
pub open spec fn spec_refused_tcp(s: Seq<u8>, h: BareHeader, msg: Seq<u8>) -> Seq<u8> {
    let rec = txt_record_bytes(100, msg);
    let s1 = with_response_flags(s, TCP_OFFSET as int, RCODE_REFUSED);
    let s2 = spliced(s1, h.question_offset + TCP_OFFSET, rec);
    let s3 = with_count(s2, 6 + TCP_OFFSET, (h.ancount + 1) as u16);
    with_count(s3, 0, (u16_at(s, 0) + rec.len()) as u16)
}

/// The rewrite keeps every flag but QR and the RCODE: QR is set, and the
/// low four bits become the response code.
pub proof fn lemma_response_flags(f: u16, rcode: u8)
    requires
        rcode < 16,
    ensures
        response_flags(f, rcode) & QR_MASK != 0,
        response_flags(f, rcode) & RCODE_MASK == rcode,
{
    assert((((f | 0x8000u16) & !0x000Fu16) | (rcode as u16)) & 0x8000u16 != 0) by (bit_vector);
    assert(((((f | 0x8000u16) & !0x000Fu16) | (rcode as u16)) & 0x000Fu16) == rcode)
        by (bit_vector)
        requires
            rcode < 16,
    ;
}

/// Any TCP reply the relay builds is a response: whatever the message held,
/// its flags carry QR and RCODE REFUSED, its ANCOUNT is one more than the
/// request's, and its length prefix has grown by the inserted record.
pub proof fn lemma_refused_tcp_is_response(s: Seq<u8>, h: BareHeader, msg: Seq<u8>)
    requires
        12 <= h.question_offset,
        h.question_offset + TCP_OFFSET <= s.len(),
        h.ancount < 0xFFFF,
        u16_at(s, 0) + txt_record_bytes(100, msg).len() <= 0xFFFF,
    ensures
        ({
            let t = spec_refused_tcp(s, h, msg);
            &&& t.len() == s.len() + txt_record_bytes(100, msg).len()
            &&& u16_at(t, 4) & QR_MASK != 0
            &&& u16_at(t, 4) & RCODE_MASK == RCODE_REFUSED as u16
            &&& u16_at(t, 8) == h.ancount + 1
            &&& u16_at(t, 0) == u16_at(s, 0) + txt_record_bytes(100, msg).len()
        }),
{
    let f = response_flags(u16_at(s, 4), RCODE_REFUSED);
    let s1 = with_response_flags(s, TCP_OFFSET as int, RCODE_REFUSED);
    let rec = txt_record_bytes(100, msg);
    let off = h.question_offset + TCP_OFFSET;
    let s2 = spliced(s1, off, rec);
    let s3 = with_count(s2, 6 + TCP_OFFSET, (h.ancount + 1) as u16);
    let prefix = (u16_at(s, 0) + rec.len()) as u16;
    let t = with_count(s3, 0, prefix);
    assert(s1[4] == u16_hi(f) && s1[5] == u16_lo(f));
    assert(s2[4] == s1[4] && s2[5] == s1[5]);
    assert(t[4] == s1[4] && t[5] == s1[5]);
    assert(u16_at(t, 4) == f) by {
        crate::wire::lemma_u16_of_split(f);
    }
    lemma_response_flags(u16_at(s, 4), RCODE_REFUSED);
    assert(t[8] == u16_hi((h.ancount + 1) as u16) && t[9] == u16_lo((h.ancount + 1) as u16));
    assert(u16_at(t, 8) == (h.ancount + 1) as u16) by {
        crate::wire::lemma_u16_of_split((h.ancount + 1) as u16);
    }
    assert(t[0] == u16_hi(prefix) && t[1] == u16_lo(prefix));
    assert(u16_at(t, 0) == prefix) by {
        crate::wire::lemma_u16_of_split(prefix);
    }
}

/// Rewrites the flags word at `base + 2` in place: QR set to response, the
/// RCODE replaced, all other flags untouched.
fn write_response_flags(dnspacket: &mut Vec<u8>, base: usize, response_code: u8)
    requires
        base + 4 <= old(dnspacket)@.len(),
    ensures
        final(dnspacket)@ == with_response_flags(old(dnspacket)@, base as int, response_code),
{
    let n = dnspacket.len();
    assert(base + 4 <= n);
    let hi = dnspacket[base + 2];
    let lo = dnspacket[base + 3];
    let mut flags: u16 = hi as u16 * 256 + lo as u16;
    flags = flags | QR_MASK;
    flags = flags & !RCODE_MASK;
    flags = flags | response_code as u16;
    let (f_hi, f_lo) = u16_to_be(flags);
    dnspacket[base + 2] = f_hi;
    dnspacket[base + 3] = f_lo;
}

/// Sets the QR bit to "response" and overwrites the low four bits of the
/// flags word with the response code, leaving all other flags untouched.
pub fn convert_header_to_response(dnspacket: &mut Vec<u8>, response_code: u8)
    requires
        old(dnspacket)@.len() >= 4,
    ensures
        final(dnspacket)@ == with_response_flags(old(dnspacket)@, 0, response_code),
{
    write_response_flags(dnspacket, 0, response_code);
}

/// Writes a minimal OPT pseudo-record over the eleven bytes at the
/// insertion offset, reporting how many bytes of record it laid down.
pub fn overwrite_new_edns(dnspacket: &mut Vec<u8>, insertion_offset: usize) -> (r: Result<
    usize,
    DnsError,
>)
    requires
        insertion_offset + 11 <= old(dnspacket)@.len(),
    ensures
        r == Ok::<usize, DnsError>(11usize),
        final(dnspacket)@ == overwritten(old(dnspacket)@, insertion_offset as int, minimal_opt_bytes()),
{
    let n = dnspacket.len();
    assert(insertion_offset + 11 <= n);
    // Name of an OPT record is the root: a single zero byte.
    dnspacket[insertion_offset] = 0;
    let (t_hi, t_lo) = u16_to_be(RR_TYPE_OPT);
    dnspacket[insertion_offset + 1] = t_hi;
    dnspacket[insertion_offset + 2] = t_lo;
    // The class field of an OPT record carries the advertised payload size.
    dnspacket[insertion_offset + 3] = 2;
    dnspacket[insertion_offset + 4] = 0;
    // A zeroed TTL field: no extended RCODE, version zero, no flags.
    dnspacket[insertion_offset + 5] = 0;
    dnspacket[insertion_offset + 6] = 0;
    dnspacket[insertion_offset + 7] = 0;
    dnspacket[insertion_offset + 8] = 0;
    // Empty RDATA.
    dnspacket[insertion_offset + 9] = 0;
    dnspacket[insertion_offset + 10] = 0;
    assert(dnspacket@ =~= overwritten(old(dnspacket)@, insertion_offset as int, minimal_opt_bytes()));
    Ok(11)
}

/// Builds `result` as `buf` with `insert` spliced in at `off`, then swaps it
/// into place.
fn splice_into(buf: &mut Vec<u8>, off: usize, insert: &Vec<u8>)
    requires
        off <= old(buf)@.len(),
    ensures
        final(buf)@ == spliced(old(buf)@, off as int, insert@),
{
    let mut result: Vec<u8> = Vec::new();
    let mut i: usize = 0;
    while i < off
        invariant
            buf@ == old(buf)@,
            i <= off <= buf@.len(),
            result@ == buf@.subrange(0, i as int),
        decreases off - i,
    {
        result.push(buf[i]);
        assert(buf@.subrange(0, i + 1) =~= buf@.subrange(0, i as int) + seq![buf@[i as int]]);
        i += 1;
    }
    let mut j: usize = 0;
    while j < insert.len()
        invariant
            buf@ == old(buf)@,
            off <= buf@.len(),
            j <= insert@.len(),
            result@ == buf@.subrange(0, off as int) + insert@.subrange(0, j as int),
        decreases insert@.len() - j,
    {
        result.push(insert[j]);
        assert(insert@.subrange(0, j + 1) =~= insert@.subrange(0, j as int) + seq![
            insert@[j as int],
        ]);
        j += 1;
    }
    assert(insert@.subrange(0, insert@.len() as int) =~= insert@);
    let mut k: usize = off;
    while k < buf.len()
        invariant
            buf@ == old(buf)@,
            off <= k <= buf@.len(),
            result@ == buf@.subrange(0, off as int) + insert@ + buf@.subrange(off as int, k as int),
        decreases buf@.len() - k,
    {
        result.push(buf[k]);
        assert(buf@.subrange(off as int, k + 1) =~= buf@.subrange(off as int, k as int) + seq![
            buf@[k as int],
        ]);
        k += 1;
    }
    assert(result@ =~= spliced(buf@, off as int, insert@));
    *buf = result;
}

/// Validates the text, builds a TXT record whose name is a fixed two-byte
/// compression pointer to offset 12 (the first question name), splices it
/// into the buffer at the insertion offset, and returns the exact number of
/// bytes inserted. On failure the buffer is left untouched.
pub fn insert_txt_record_by_offset(
    dnspacket: &mut Vec<u8>,
    insertion_offset: usize,
    ttl: u32,
    message: &str,
) -> (r: Result<usize, DnsError>)
    requires
        insertion_offset <= old(dnspacket)@.len(),
        old(dnspacket)@.len() + 270 <= usize::MAX,
    ensures
        r is Ok <==> valid_character_string(message),
        r matches Ok(n) ==> n == TXT_RECORD_OVERHEAD + message.spec_bytes().len(),
        r is Ok ==> final(dnspacket)@ == spliced(
            old(dnspacket)@,
            insertion_offset as int,
            txt_record_bytes(ttl, message.spec_bytes()),
        ),
        r is Err ==> final(dnspacket)@ == old(dnspacket)@,
        !vstd::string::is_ascii(message) ==> r == Err::<usize, DnsError>(DnsError::NotAscii),
        vstd::string::is_ascii(message) && message.spec_bytes().len() > 256 ==> r == Err::<
            usize,
            DnsError,
        >(DnsError::CharacterStringTooLong),
{
    match is_valid_character_string(message) {
        Ok(_) => {},
        Err(e) => {
            return Err(e);
        },
    }

    let mut txt_record: Vec<u8> = Vec::with_capacity(255);
    // The record name: a compression pointer back to the question name.
    let mut name: Vec<u8> = Vec::new();
    name.push(0xC0);
    name.push(0x0C);
    match push_domain_name(name.as_slice(), &mut txt_record) {
        Ok(_) => {},
        Err(e) => {
            return Err(e);
        },
    }

    let (ty_hi, ty_lo) = u16_to_be(RR_TYPE_TXT);
    txt_record.push(ty_hi);
    txt_record.push(ty_lo);
    let (cl_hi, cl_lo) = u16_to_be(RR_CLASS_IN);
    txt_record.push(cl_hi);
    txt_record.push(cl_lo);
    txt_record.push((ttl / 0x100_0000) as u8);
    txt_record.push(((ttl / 0x1_0000) % 256) as u8);
    txt_record.push(((ttl / 256) % 256) as u8);
    txt_record.push((ttl % 256) as u8);
    let msg_len = message.as_bytes().len();
    let rd_len: u16 = (msg_len + 1) as u16;
    let (rd_hi, rd_lo) = u16_to_be(rd_len);
    txt_record.push(rd_hi);
    txt_record.push(rd_lo);
    match push_character_string(message, &mut txt_record) {
        Ok(_) => {},
        Err(e) => {
            return Err(e);
        },
    }
    assert(txt_record@ =~= txt_record_bytes(ttl, message.spec_bytes()));

    splice_into(dnspacket, insertion_offset, &txt_record);
    Ok(12 + msg_len + 1)
}

/// Splices a TXT record carrying the text into the answer section at the
/// given offset with a TTL of 3600, and increments ANCOUNT.
pub fn insert_txt_record_to_answer(
    dnspacket: &mut Vec<u8>,
    ancount: u16,
    txt_msg: &str,
    insertion_offset: usize,
) -> (r: Result<usize, DnsError>)
    requires
        valid_character_string(txt_msg),
        ancount < 0xFFFF,
        insertion_offset <= old(dnspacket)@.len(),
        old(dnspacket)@.len() + 270 <= usize::MAX,
    ensures
        r matches Ok(n) && n == TXT_RECORD_OVERHEAD + txt_msg.spec_bytes().len(),
        final(dnspacket)@ == with_count(
            spliced(old(dnspacket)@, insertion_offset as int, txt_record_bytes(3600, txt_msg.spec_bytes())),
            6,
            (ancount + 1) as u16,
        ),
{
    let insertion_size = insert_txt_record_by_offset(dnspacket, insertion_offset, 3600, txt_msg)
        .unwrap();
    let (an_hi, an_lo) = u16_to_be(ancount + 1);
    dnspacket[6] = an_hi;
    dnspacket[7] = an_lo;
    Ok(insertion_size)
}

/// Splices a TXT record carrying the text into the additional section at
/// the given offset with a TTL of 7200, and increments ARCOUNT.
pub fn insert_txt_record_to_additional(
    dnspacket: &mut Vec<u8>,
    arcount: u16,
    txt_msg: &str,
    insertion_offset: usize,
) -> (r: Result<usize, DnsError>)
    requires
        valid_character_string(txt_msg),
        arcount < 0xFFFF,
        insertion_offset <= old(dnspacket)@.len(),
        old(dnspacket)@.len() + 270 <= usize::MAX,
    ensures
        r matches Ok(n) && n == TXT_RECORD_OVERHEAD + txt_msg.spec_bytes().len(),
        final(dnspacket)@ == with_count(
            spliced(old(dnspacket)@, insertion_offset as int, txt_record_bytes(7200, txt_msg.spec_bytes())),
            10,
            (arcount + 1) as u16,
        ),
{
    let insertion_size = insert_txt_record_by_offset(dnspacket, insertion_offset, 7200, txt_msg)
        .unwrap();
    let (ar_hi, ar_lo) = u16_to_be(arcount + 1);
    dnspacket[10] = ar_hi;
    dnspacket[11] = ar_lo;
    Ok(insertion_size)
}

/// Builds the whole refusal for an ineligible UDP query: REFUSED flags, the
/// reason spliced into the answer and additional sections, and, when the
/// query carried EDNS, a minimal OPT record; returns the cumulative byte
/// count across all three insertions.
pub fn make_error_response(dnspacket: &mut Vec<u8>, header: &BareHeader, err_msg: &str) -> (r:
    Result<usize, DnsError>)
    requires
        valid_character_string(err_msg),
        old(dnspacket)@.len() >= 4,
        header.answer_offset <= header.nameserver_offset <= old(dnspacket)@.len(),
        header.ancount < 0xFFFF,
        header.arcount < 0xFFFF,
        old(dnspacket)@.len() + 600 <= usize::MAX,
    ensures
        r matches Ok(n) && n == 2 * (TXT_RECORD_OVERHEAD + err_msg.spec_bytes().len()) + (
        if header.arcount > 0 {
            11int
        } else {
            0int
        }),
        final(dnspacket)@ == spec_error_response(old(dnspacket)@, *header, err_msg.spec_bytes()),
{
    convert_header_to_response(dnspacket, RCODE_REFUSED);
    let added_size = insert_txt_record_to_answer(
        dnspacket,
        header.ancount,
        err_msg,
        header.answer_offset,
    ).unwrap();
    let added_size2 = insert_txt_record_to_additional(
        dnspacket,
        header.arcount,
        err_msg,
        header.nameserver_offset + added_size,
    ).unwrap();
    let mut edns_added_size: usize = 0;
    if header.arcount > 0 {
        let opt_record: Vec<u8> = vec![0, 0, 41, 2, 0, 0, 0, 0, 0, 0, 0];
        assert(opt_record@ =~= minimal_opt_bytes());
        splice_into(
            dnspacket,
            header.nameserver_offset + added_size + added_size2,
            &opt_record,
        );
        edns_added_size = opt_record.len();
    }
    Ok(added_size + added_size2 + edns_added_size)
}

/// Builds the refusal for a TCP message, whose DNS header sits behind the
/// two-byte length prefix: REFUSED flags, the reason spliced in at the end
/// of the question section with a TTL of 100, ANCOUNT bumped, and the
/// length prefix rewritten to reflect the grown message.
pub fn make_refused_response_tcp(dnspacket: &mut Vec<u8>, header: &BareHeader, err_msg: &str) -> (r:
    Result<usize, DnsError>)
    requires
        valid_character_string(err_msg),
        old(dnspacket)@.len() >= 6,
        header.question_offset + TCP_OFFSET <= old(dnspacket)@.len(),
        header.ancount < 0xFFFF,
        u16_at(old(dnspacket)@, 0) + TXT_RECORD_OVERHEAD + err_msg.spec_bytes().len() <= 0xFFFF,
        old(dnspacket)@.len() + 270 <= usize::MAX,
    ensures
        r matches Ok(n) && n == TXT_RECORD_OVERHEAD + err_msg.spec_bytes().len(),
        final(dnspacket)@ == spec_refused_tcp(old(dnspacket)@, *header, err_msg.spec_bytes()),
{
    let prior_msg_size = read_u16_at(dnspacket.as_slice(), 0);
    write_response_flags(dnspacket, TCP_OFFSET, RCODE_REFUSED);
    let added_size = insert_txt_record_by_offset(
        dnspacket,
        header.question_offset + TCP_OFFSET,
        100,
        err_msg,
    ).unwrap();
    let (an_hi, an_lo) = u16_to_be(header.ancount + 1);
    dnspacket[6 + TCP_OFFSET] = an_hi;
    dnspacket[7 + TCP_OFFSET] = an_lo;
    let (p_hi, p_lo) = u16_to_be(prior_msg_size + added_size as u16);
    dnspacket[0] = p_hi;
    dnspacket[1] = p_lo;
    Ok(added_size)
}

} // verus!
