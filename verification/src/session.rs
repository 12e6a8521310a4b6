//! One request through the relay: parse, classify, then forward, refuse, or
//! abandon; the TCP denial; and the random gate that splices an
//! advertisement into an upstream reply.

use vstd::prelude::*;
use vstd::slice::slice_subrange;
use vstd::utf8::{encode_utf8, is_ascii_chars};
use crate::constants::{QR_MASK, RCODE_MASK, RCODE_REFUSED};
use crate::eligibility::{classify_readable, spec_classify, try_check_query_eligibility};
use crate::errors::DnsError;
use crate::parser::{additional_section_end, parse_bare_header, spec_bare_header, BareHeader};
use crate::response_writer::{
    make_error_response, make_refused_response_tcp, insert_txt_record_to_additional,
    spec_error_response, spec_refused_tcp, spliced, txt_record_bytes, with_count,
    lemma_refused_tcp_is_response, TCP_OFFSET, TXT_RECORD_OVERHEAD,
};
use crate::serializer::is_valid_character_string;
use crate::wire::{u16_at, read_u16_at};

verus! {

/// What the relay does with one inbound datagram.
#[derive(Clone, Copy, Debug, PartialEq, Eq, Structural)]
pub enum DatagramAction {
    /// Forward the raw query verbatim to the upstream resolver.
    Forward,
    /// Send this many bytes from the start of the buffer back to the client.
    Reply(usize),
    /// Drop the request without a reply.
    Abandon,
}

/// A refusal can be written into the buffer: the reason fits a TXT record,
/// neither count is at its ceiling, and the walked offsets lie inside the
/// buffer.
pub open spec fn refusal_applicable(s: Seq<u8>, h: BareHeader, e: DnsError) -> bool {
    &&& e.reason_fits()
    &&& h.ancount < 0xFFFF
    &&& h.arcount < 0xFFFF
    &&& h.answer_offset <= h.nameserver_offset <= s.len()
}

/// Drives one UDP query from raw bytes to a decision: abandon it when its
/// sections cannot be walked or a refusal cannot be written, forward it
/// verbatim when it is eligible, and otherwise rewrite the buffer into a
/// REFUSED response and reply with the grown message.
pub fn process_query(buf: &mut Vec<u8>, size: usize) -> (r: DatagramAction)
    requires
        size <= old(buf)@.len(),
        old(buf)@.len() <= 0xFFFF,
    ensures
        ({
            let s0 = old(buf)@;
            let msg = s0.subrange(0, size as int);
            &&& (size < 12 ==> r == DatagramAction::Abandon && final(buf)@ == s0)
            &&& (size >= 12 && additional_section_end(msg) is None ==> r
                == DatagramAction::Abandon && final(buf)@ == s0)
            &&& (size >= 12 && additional_section_end(msg) is Some ==> {
                let h = spec_bare_header(msg);
                &&& (!classify_readable(s0, h) ==> r == DatagramAction::Abandon && final(buf)@
                    == s0)
                &&& (classify_readable(s0, h) ==> match spec_classify(s0, h) {
                    Ok(()) => r == DatagramAction::Forward && final(buf)@ == s0,
                    Err(e) => {
                        if refusal_applicable(s0, h, e) {
                            &&& r matches DatagramAction::Reply(n) && n == size + 2 * (
                            TXT_RECORD_OVERHEAD + e.spec_reason_bytes().len()) + (
                            if h.arcount > 0 {
                                11int
                            } else {
                                0int
                            })
                            &&& final(buf)@ == spec_error_response(s0, h, e.spec_reason_bytes())
                        } else {
                            r == DatagramAction::Abandon && final(buf)@ == s0
                        }
                    },
                })
            })
        }),
{
    if size < 12 {
        return DatagramAction::Abandon;
    }
    let msg = slice_subrange(buf.as_slice(), 0, size);
    let header = match parse_bare_header(msg) {
        Ok(h) => h,
        Err(_) => {
            return DatagramAction::Abandon;
        },
    };
    let verdict = match try_check_query_eligibility(buf.as_slice(), &header) {
        Some(v) => v,
        None => {
            return DatagramAction::Abandon;
        },
    };
    match verdict {
        Ok(_) => DatagramAction::Forward,
        Err(e) => {
            let reason = e.reason();
            match is_valid_character_string(reason) {
                Ok(_) => {},
                Err(_) => {
                    return DatagramAction::Abandon;
                },
            }
            if header.ancount == 0xFFFF || header.arcount == 0xFFFF {
                return DatagramAction::Abandon;
            }
            if header.answer_offset > header.nameserver_offset || header.nameserver_offset
                > buf.len() {
                return DatagramAction::Abandon;
            }
            let added = make_error_response(buf, &header, reason).unwrap();
            DatagramAction::Reply(size + added)
        },
    }
}

/// The fixed message sent to every TCP client.
pub open spec fn tcp_denial_reason() -> Seq<char> {
    "TCP is for enterprise clients only"@
}

/// The fixed TCP denial fits a TXT record.
pub open spec fn tcp_reason_ok() -> bool {
    is_ascii_chars(tcp_denial_reason()) && encode_utf8(tcp_denial_reason()).len() <= 256
}

/// Builds the reply to a TCP message of `n` bytes (two bytes of length
/// prefix, then a DNS message): a REFUSED response carrying the fixed
/// denial, with the length prefix grown by the inserted record. Returns how
/// many bytes of the buffer make up the reply.
pub fn build_tcp_denial(buf: &mut Vec<u8>, n: usize) -> (r: Result<usize, DnsError>)
    requires
        n <= old(buf)@.len(),
        old(buf)@.len() <= 0xFFFF,
    ensures
        r is Err ==> final(buf)@ == old(buf)@,
        ({
            let s0 = old(buf)@;
            let msg = s0.subrange(2, n as int);
            let reason = encode_utf8(tcp_denial_reason());
            &&& (n < 14 ==> r == Err::<usize, DnsError>(DnsError::Truncated))
            &&& (n >= 14 && additional_section_end(msg) is None ==> r == Err::<usize, DnsError>(
                DnsError::Truncated,
            ))
            &&& (n >= 14 && additional_section_end(msg) is Some && tcp_reason_ok() ==> {
                let h = spec_bare_header(msg);
                let added = TXT_RECORD_OVERHEAD + reason.len();
                let prior = u16_at(s0, 0);
                &&& (h.ancount == 0xFFFF ==> r == Err::<usize, DnsError>(DnsError::CountSaturated))
                &&& (h.ancount < 0xFFFF && h.question_offset + TCP_OFFSET > s0.len() ==> r
                    == Err::<usize, DnsError>(DnsError::Truncated))
                &&& (h.ancount < 0xFFFF && h.question_offset + TCP_OFFSET <= s0.len() ==> {
                    &&& (prior + added > 0xFFFF ==> r == Err::<usize, DnsError>(
                        DnsError::CountSaturated,
                    ))
                    &&& (prior + added <= 0xFFFF ==> {
                        &&& r == Ok::<usize, DnsError>((n + added) as usize)
                        &&& final(buf)@ == spec_refused_tcp(s0, h, reason)
                        &&& u16_at(final(buf)@, 4) & QR_MASK != 0
                        &&& u16_at(final(buf)@, 4) & RCODE_MASK == RCODE_REFUSED as u16
                        &&& u16_at(final(buf)@, 8) == h.ancount + 1
                        &&& u16_at(final(buf)@, 0) == prior + added
                    })
                })
            })
        }),
{
    if n < 14 {
        return Err(DnsError::Truncated);
    }
    let msg = slice_subrange(buf.as_slice(), 2, n);
    let header = match parse_bare_header(msg) {
        Ok(h) => h,
        Err(e) => {
            return Err(e);
        },
    };
    let reason = "TCP is for enterprise clients only";
    match is_valid_character_string(reason) {
        Ok(_) => {},
        Err(e) => {
            return Err(e);
        },
    }
    if header.ancount == 0xFFFF {
        return Err(DnsError::CountSaturated);
    }
    if buf.len() - TCP_OFFSET < header.question_offset {
        return Err(DnsError::Truncated);
    }
    let added_len = TXT_RECORD_OVERHEAD + reason.as_bytes().len();
    let prior = read_u16_at(buf.as_slice(), 0);
    if prior as usize + added_len > 0xFFFF {
        return Err(DnsError::CountSaturated);
    }

    let added = make_refused_response_tcp(buf, &header, reason).unwrap();
    proof {
        lemma_refused_tcp_is_response(old(buf)@, header, encode_utf8(tcp_denial_reason()));
    }
    Ok(n + added)
}

/// Relies on rand::random_range: a uniform draw from `0..bound` lies below
/// `bound`; the range must not be empty.
#[verifier::external_body]
fn random_below(bound: usize) -> (r: usize)
    requires
        bound >= 1,
    ensures
        r < bound,
{
    rand::random_range(0..bound)
}

/// An upstream reply can take one more additional record: its sections can
/// be walked, its ARCOUNT is below the ceiling, its additional section ends
/// inside the buffer, and the advertisement fits a TXT record.
pub open spec fn ad_insertable(s: Seq<u8>, ad: Seq<char>) -> bool {
    &&& 12 <= s.len()
    &&& additional_section_end(s) is Some
    &&& spec_bare_header(s).arcount < 0xFFFF
    &&& spec_bare_header(s).additional_offset <= s.len()
    &&& is_ascii_chars(ad) && encode_utf8(ad).len() <= 256
}

/// The reply after one advertisement is spliced in at the end of its
/// additional section, with ARCOUNT bumped.
pub open spec fn with_advertisement(s: Seq<u8>, ad: Seq<char>) -> Seq<u8> {
    let h = spec_bare_header(s);
    with_count(
        spliced(s, h.additional_offset as int, txt_record_bytes(7200, encode_utf8(ad))),
        10,
        (h.arcount + 1) as u16,
    )
}

/// The deterministic part of the ad-injection gate, taking the two draws as
/// arguments: skip outright when the first draw reaches the rate (so a rate
/// of zero never injects and a rate of one hundred always does), otherwise
/// walk the reply and splice the picked advertisement into its additional
/// section.
pub fn apply_ad_gate(
    response_buffer: &mut Vec<u8>,
    advertisements: &Vec<String>,
    ad_rate: u8,
    draw: u8,
    pick: usize,
) -> (r: Result<usize, DnsError>)
    requires
        advertisements@.len() >= 1,
        pick < advertisements@.len(),
        old(response_buffer)@.len() <= 0xFFFF,
    ensures
        ({
            let s0 = old(response_buffer)@;
            let ad = advertisements@[pick as int]@;
            &&& (draw >= ad_rate ==> r == Ok::<usize, DnsError>(0usize) && final(response_buffer)@
                == s0)
            &&& (draw < ad_rate && ad_insertable(s0, ad) ==> r == Ok::<usize, DnsError>((
            TXT_RECORD_OVERHEAD + encode_utf8(ad).len()) as usize) && final(response_buffer)@
                == with_advertisement(s0, ad))
            &&& (draw < ad_rate && !ad_insertable(s0, ad) ==> r is Err && final(response_buffer)@
                == s0)
        }),
{
    if draw >= ad_rate {
        return Ok(0);
    }

    if response_buffer.len() < 12 {
        return Err(DnsError::Truncated);
    }
    let header = match parse_bare_header(response_buffer.as_slice()) {
        Ok(h) => h,
        Err(e) => {
            return Err(e);
        },
    };
    let advert = &advertisements[pick];
    match is_valid_character_string(advert.as_str()) {
        Ok(_) => {},
        Err(e) => {
            return Err(e);
        },
    }
    if header.arcount == 0xFFFF {
        return Err(DnsError::CountSaturated);
    }
    if header.additional_offset > response_buffer.len() {
        return Err(DnsError::Truncated);
    }
    let added = insert_txt_record_to_additional(
        response_buffer,
        header.arcount,
        advert.as_str(),
        header.additional_offset,
    ).unwrap();
    Ok(added)
}

/// Draws two random numbers and runs the ad-injection gate on them: with
/// probability `ad_rate / 100` (capped at one) an advertisement picked
/// uniformly from the pool is spliced into the reply; otherwise nothing is
/// touched. A rate of zero never injects; a rate at or above one hundred
/// injects into every reply it can rewrite.
pub fn insert_advertisement(
    response_buffer: &mut Vec<u8>,
    advertisements: &Vec<String>,
    ad_rate: u8,
) -> (r: Result<usize, DnsError>)
    requires
        advertisements@.len() >= 1,
        old(response_buffer)@.len() <= 0xFFFF,
    ensures
        r == Ok::<usize, DnsError>(0usize) ==> final(response_buffer)@ == old(response_buffer)@,
        r matches Ok(n) ==> n == 0 || (exists|k: int|
            {
                &&& 0 <= k < advertisements@.len()
                &&& ad_insertable(old(response_buffer)@, advertisements@[k]@)
                &&& n == TXT_RECORD_OVERHEAD + encode_utf8(advertisements@[k]@).len()
                &&& final(response_buffer)@ == with_advertisement(
                    old(response_buffer)@,
                    advertisements@[k]@,
                )
            }),
        r is Err ==> final(response_buffer)@ == old(response_buffer)@,
        // A rate of zero never injects: whatever was drawn, the reply goes
        // back untouched.
        ad_rate == 0 ==> r == Ok::<usize, DnsError>(0usize) && final(response_buffer)@ == old(
            response_buffer,
        )@,
        // A rate at or above the ceiling never skips: every reply the
        // pool's advertisements fit into comes back mutated.
        ad_rate >= 100 ==> r != Ok::<usize, DnsError>(0usize),
        ad_rate >= 100 && (forall|k: int|
            0 <= k < advertisements@.len() ==> ad_insertable(
                old(response_buffer)@,
                #[trigger] advertisements@[k]@,
            )) ==> (r matches Ok(n) && n > 0),
{
    let draw = random_below(100) as u8;
    let pick = random_below(advertisements.len());
    let r = apply_ad_gate(response_buffer, advertisements, ad_rate, draw, pick);
    proof {
        let s0 = old(response_buffer)@;
        let ad = advertisements@[pick as int]@;
        if draw < ad_rate && ad_insertable(s0, ad) {
            assert(response_buffer@ == with_advertisement(s0, ad));
        }
    }
    r
}

/// Zeroes every byte of a reused receive buffer so that no stale bytes leak
/// into the next request.
pub fn zero_out_vector(buffer: &mut Vec<u8>)
    ensures
        final(buffer)@.len() == old(buffer)@.len(),
        forall|i: int| 0 <= i < old(buffer)@.len() ==> final(buffer)@[i] == 0,
{
    let mut i: usize = 0;
    while i < buffer.len()
        invariant
            i <= buffer@.len(),
            buffer@.len() == old(buffer)@.len(),
            forall|j: int| 0 <= j < i ==> buffer@[j] == 0,
        decreases buffer@.len() - i,
    {
        buffer[i] = 0;
        i += 1;
    }
}

} // verus!
