//! The message walker: computes the byte offset of the end of each section of
//! a DNS message by skipping the question and each resource record, honoring
//! label compression without ever dereferencing a pointer.

use vstd::prelude::*;
use crate::constants::EDNS_DO_MASK;
use crate::errors::DnsError;
use crate::wire::{u16_at, u32_at, read_u16_at, read_u32_at};

verus! {

/// A compression pointer is flagged by the top two bits of its first byte.
pub open spec fn is_pointer_byte(b: u8) -> bool {
    b & 0xC0 == 0xC0
}

/// Bytes occupied by a run of length-prefixed labels ending in the zero
/// label, starting at `off`; `None` when the run leaves the buffer.
pub open spec fn label_run_len(s: Seq<u8>, off: int) -> Option<int>
    decreases s.len() - off,
{
    if off < 0 || off >= s.len() {
        None
    } else if s[off] == 0 {
        Some(1)
    } else if off + 1 + s[off] > s.len() {
        None
    } else {
        match label_run_len(s, off + 1 + s[off]) {
            None => None,
            Some(rest) => Some(1 + s[off] + rest),
        }
    }
}

/// Bytes the walker skips for the domain name at `off`: exactly two for a
/// compression pointer, the whole label run otherwise.
pub open spec fn name_len(s: Seq<u8>, off: int) -> Option<int> {
    if off < 0 || off >= s.len() {
        None
    } else if is_pointer_byte(s[off]) {
        Some(2)
    } else {
        label_run_len(s, off)
    }
}

/// Bytes skipped for one question at `off`: its name plus QTYPE and QCLASS;
/// `None` when the question would end past the buffer.
pub open spec fn question_len(s: Seq<u8>, off: int) -> Option<int> {
    match name_len(s, off) {
        None => None,
        Some(n) => if off + n + 4 <= s.len() {
            Some(n + 4)
        } else {
            None
        },
    }
}

/// Bytes skipped for one resource record at `off`: its name, the ten fixed
/// bytes (TYPE, CLASS, TTL, RDLENGTH), and RDLENGTH bytes of RDATA; `None`
/// when RDLENGTH cannot be read or the record would end past the buffer.
pub open spec fn rr_len(s: Seq<u8>, off: int) -> Option<int> {
    match name_len(s, off) {
        None => None,
        Some(n) => if off + n + 10 <= s.len() && off + n + 10 + u16_at(s, off + n + 8) <= s.len() {
            Some(n + 10 + u16_at(s, off + n + 8))
        } else {
            None
        },
    }
}

/// Offset reached after skipping `n` questions starting at `off`.
pub open spec fn skip_questions(s: Seq<u8>, off: int, n: nat) -> Option<int>
    decreases n,
{
    if n == 0 {
        Some(off)
    } else {
        match question_len(s, off) {
            None => None,
            Some(l) => skip_questions(s, off + l, (n - 1) as nat),
        }
    }
}

/// Offset reached after skipping `n` resource records starting at `off`.
pub open spec fn skip_rrs(s: Seq<u8>, off: int, n: nat) -> Option<int>
    decreases n,
{
    if n == 0 {
        Some(off)
    } else {
        match rr_len(s, off) {
            None => None,
            Some(l) => skip_rrs(s, off + l, (n - 1) as nat),
        }
    }
}

/// `skip_questions` continued from an offset that may already be lost.
pub open spec fn skip_questions_opt(s: Seq<u8>, off: Option<int>, n: nat) -> Option<int> {
    match off {
        None => None,
        Some(o) => skip_questions(s, o, n),
    }
}

/// `skip_rrs` continued from an offset that may already be lost.
pub open spec fn skip_rrs_opt(s: Seq<u8>, off: Option<int>, n: nat) -> Option<int> {
    match off {
        None => None,
        Some(o) => skip_rrs(s, o, n),
    }
}

/// End of the question section: the walker's offset after the header and
/// QDCOUNT questions.
pub open spec fn question_section_end(s: Seq<u8>) -> Option<int> {
    skip_questions(s, 12, u16_at(s, 4) as nat)
}

/// End of the answer section: ANCOUNT records past the question section.
pub open spec fn answer_section_end(s: Seq<u8>) -> Option<int> {
    skip_rrs_opt(s, question_section_end(s), u16_at(s, 6) as nat)
}

/// End of the authority section: NSCOUNT records past the answer section.
pub open spec fn authority_section_end(s: Seq<u8>) -> Option<int> {
    skip_rrs_opt(s, answer_section_end(s), u16_at(s, 8) as nat)
}

/// End of the additional section: ARCOUNT records past the authority
/// section. For a well-formed message this is the end of the message.
pub open spec fn additional_section_end(s: Seq<u8>) -> Option<int> {
    skip_rrs_opt(s, authority_section_end(s), u16_at(s, 10) as nat)
}

/// A domain name encoded as a compression pointer is skipped by advancing
/// exactly two bytes, whatever the pointer's target holds.
pub proof fn lemma_pointer_skips_two(s: Seq<u8>, off: int)
    requires
        0 <= off < s.len(),
        is_pointer_byte(s[off]),
    ensures
        name_len(s, off) == Some(2int),
{
}

/// A successful label run ends at its zero label, inside the buffer.
pub proof fn lemma_label_run_in_bounds(s: Seq<u8>, off: int)
    requires
        label_run_len(s, off) is Some,
    ensures
        0 <= off < s.len(),
        off + label_run_len(s, off).unwrap() <= s.len(),
        label_run_len(s, off).unwrap() >= 1,
    decreases s.len() - off,
{
    if s[off] == 0 {
    } else {
        lemma_label_run_in_bounds(s, off + 1 + s[off]);
    }
}

/// A successful name skip stays within one byte past the buffer: a label run
/// ends inside it, and a pointer occupies two bytes of which only the first
/// is read.
pub proof fn lemma_name_len_bound(s: Seq<u8>, off: int)
    requires
        name_len(s, off) is Some,
    ensures
        0 <= off < s.len(),
        off + name_len(s, off).unwrap() <= s.len() + 1,
        name_len(s, off).unwrap() >= 1,
{
    if !is_pointer_byte(s[off]) {
        lemma_label_run_in_bounds(s, off);
    }
}

/// Skipping `n + k` questions is skipping `n`, then `k` more from where the
/// walk stood.
pub proof fn lemma_skip_questions_add(s: Seq<u8>, off: int, n: nat, k: nat)
    ensures
        skip_questions(s, off, n + k) == skip_questions_opt(s, skip_questions(s, off, n), k),
    decreases n,
{
    if n != 0 {
        match question_len(s, off) {
            None => {},
            Some(l) => {
                lemma_skip_questions_add(s, off + l, (n - 1) as nat, k);
            },
        }
    }
}

/// Skipping `n + k` resource records is skipping `n`, then `k` more from
/// where the walk stood.
pub proof fn lemma_skip_rrs_add(s: Seq<u8>, off: int, n: nat, k: nat)
    ensures
        skip_rrs(s, off, n + k) == skip_rrs_opt(s, skip_rrs(s, off, n), k),
    decreases n,
{
    if n != 0 {
        match rr_len(s, off) {
            None => {},
            Some(l) => {
                lemma_skip_rrs_add(s, off + l, (n - 1) as nat, k);
            },
        }
    }
}

/// The walk over questions only moves forward.
pub proof fn lemma_skip_questions_monotone(s: Seq<u8>, off: int, n: nat)
    requires
        skip_questions(s, off, n) is Some,
    ensures
        off <= skip_questions(s, off, n).unwrap(),
    decreases n,
{
    if n != 0 {
        match question_len(s, off) {
            None => {},
            Some(l) => {
                lemma_name_len_bound(s, off);
                lemma_skip_questions_monotone(s, off + l, (n - 1) as nat);
            },
        }
    }
}

/// A walk over questions that began inside the buffer ends inside it.
pub proof fn lemma_skip_questions_in_bounds(s: Seq<u8>, off: int, n: nat)
    requires
        off <= s.len(),
        skip_questions(s, off, n) is Some,
    ensures
        skip_questions(s, off, n).unwrap() <= s.len(),
    decreases n,
{
    if n != 0 {
        match question_len(s, off) {
            None => {},
            Some(l) => {
                lemma_skip_questions_in_bounds(s, off + l, (n - 1) as nat);
            },
        }
    }
}

/// A walk over resource records that began inside the buffer ends inside it.
pub proof fn lemma_skip_rrs_in_bounds(s: Seq<u8>, off: int, n: nat)
    requires
        off <= s.len(),
        skip_rrs(s, off, n) is Some,
    ensures
        skip_rrs(s, off, n).unwrap() <= s.len(),
    decreases n,
{
    if n != 0 {
        match rr_len(s, off) {
            None => {},
            Some(l) => {
                lemma_skip_rrs_in_bounds(s, off + l, (n - 1) as nat);
            },
        }
    }
}

/// The walk over resource records only moves forward.
pub proof fn lemma_skip_rrs_monotone(s: Seq<u8>, off: int, n: nat)
    requires
        skip_rrs(s, off, n) is Some,
    ensures
        off <= skip_rrs(s, off, n).unwrap(),
    decreases n,
{
    if n != 0 {
        match rr_len(s, off) {
            None => {},
            Some(l) => {
                lemma_name_len_bound(s, off);
                lemma_skip_rrs_monotone(s, off + l, (n - 1) as nat);
            },
        }
    }
}

/// After a successful walk over `n` questions, one more question either
/// extends the walk by that question's length or loses it.
pub proof fn lemma_skip_questions_step(s: Seq<u8>, off: int, n: nat)
    requires
        skip_questions(s, off, n) is Some,
    ensures
        skip_questions(s, off, n + 1) == (match question_len(s, skip_questions(s, off, n).unwrap()) {
            None => None::<int>,
            Some(l) => Some(skip_questions(s, off, n).unwrap() + l),
        }),
{
    reveal_with_fuel(skip_questions, 2);
    lemma_skip_questions_add(s, off, n, 1);
}

/// After a successful walk over `n` resource records, one more record either
/// extends the walk by that record's length or loses it.
pub proof fn lemma_skip_rrs_step(s: Seq<u8>, off: int, n: nat)
    requires
        skip_rrs(s, off, n) is Some,
    ensures
        skip_rrs(s, off, n + 1) == (match rr_len(s, skip_rrs(s, off, n).unwrap()) {
            None => None::<int>,
            Some(l) => Some(skip_rrs(s, off, n).unwrap() + l),
        }),
{
    reveal_with_fuel(skip_rrs, 2);
    lemma_skip_rrs_add(s, off, n, 1);
}

/// Advances past the domain name at the pointer when it fits in the buffer;
/// reports failure and leaves the pointer alone otherwise.
pub(crate) fn try_skip_domain_name(buf: &[u8], pointer_offset: &mut usize) -> (ok: bool)
    requires
        buf@.len() <= 0xFFFF,
    ensures
        ok <==> name_len(buf@, *old(pointer_offset) as int) is Some,
        ok ==> *final(pointer_offset) == *old(pointer_offset) + name_len(
            buf@,
            *old(pointer_offset) as int,
        ).unwrap(),
        !ok ==> *final(pointer_offset) == *old(pointer_offset),
{
    let start = *pointer_offset;
    if start >= buf.len() {
        return false;
    }
    let b = buf[start];
    if b & 0xC0 == 0xC0 {
        *pointer_offset = start + 2;
        return true;
    }
    let mut p = start;
    loop
        invariant
            buf@.len() <= 0xFFFF,
            start == *old(pointer_offset),
            *pointer_offset == *old(pointer_offset),
            start <= p < buf@.len(),
            !is_pointer_byte(buf@[start as int]),
            (match label_run_len(buf@, p as int) {
                Some(r) => label_run_len(buf@, start as int) == Some(p - start + r),
                None => label_run_len(buf@, start as int) is None,
            }),
        decreases buf@.len() - p,
    {
        let l = buf[p];
        if l == 0 {
            *pointer_offset = p + 1;
            return true;
        }
        if p + 1 + (l as usize) >= buf.len() {
            return false;
        }
        p = p + 1 + (l as usize);
    }
}

/// Jumps the pointer over a domain name: a two-byte compression pointer, or
/// a sequence of length-prefixed labels through their zero terminator, as
/// `name_len` says.
pub fn skip_domain_name(buf: &[u8], pointer_offset: &mut usize)
    requires
        buf@.len() <= 0xFFFF,
        name_len(buf@, *old(pointer_offset) as int) is Some,
    ensures
        *final(pointer_offset) == *old(pointer_offset) + name_len(
            buf@,
            *old(pointer_offset) as int,
        ).unwrap(),
{
    let ok = try_skip_domain_name(buf, pointer_offset);
    assert(ok);
}

/// Jumps the pointer over one question: its domain name plus the four bytes
/// of QTYPE and QCLASS.
pub fn skip_over_question(buf: &[u8], pointer_offset: &mut usize)
    requires
        buf@.len() <= 0xFFFF,
        question_len(buf@, *old(pointer_offset) as int) is Some,
    ensures
        *final(pointer_offset) == *old(pointer_offset) + question_len(
            buf@,
            *old(pointer_offset) as int,
        ).unwrap(),
{
    proof {
        lemma_name_len_bound(buf@, *old(pointer_offset) as int);
    }
    skip_domain_name(buf, pointer_offset);
    *pointer_offset += 4;
}

/// Jumps the pointer over one wire-encoded resource record: name, the ten
/// fixed bytes, and RDLENGTH bytes of RDATA.
pub fn skip_over_rr(buf: &[u8], pointer_offset: &mut usize)
    requires
        buf@.len() <= 0xFFFF,
        rr_len(buf@, *old(pointer_offset) as int) is Some,
    ensures
        *final(pointer_offset) == *old(pointer_offset) + rr_len(
            buf@,
            *old(pointer_offset) as int,
        ).unwrap(),
{
    proof {
        lemma_name_len_bound(buf@, *old(pointer_offset) as int);
    }
    skip_domain_name(buf, pointer_offset);
    *pointer_offset += 2 + 2 + 4;
    let rdlength = parse_u16(buf, pointer_offset);
    *pointer_offset += rdlength as usize;
}

/// Parses a big-endian u16 at the pointer and advances the pointer past it.
pub fn parse_u16(buf: &[u8], pointer_offset: &mut usize) -> (val: u16)
    requires
        *old(pointer_offset) + 2 <= buf@.len(),
    ensures
        val == u16_at(buf@, *old(pointer_offset) as int),
        *final(pointer_offset) == *old(pointer_offset) + 2,
{
    let n = buf.len();
    assert(*pointer_offset + 2 <= n);
    let val = read_u16_at(buf, *pointer_offset);
    *pointer_offset += 2;
    val
}

/// Advances past one question when it fits; reports failure and leaves the
/// pointer alone otherwise.
fn try_skip_question(buf: &[u8], pointer_offset: &mut usize) -> (ok: bool)
    requires
        buf@.len() <= 0xFFFF,
    ensures
        ok <==> question_len(buf@, *old(pointer_offset) as int) is Some,
        ok ==> *final(pointer_offset) == *old(pointer_offset) + question_len(
            buf@,
            *old(pointer_offset) as int,
        ).unwrap(),
        !ok ==> *final(pointer_offset) == *old(pointer_offset),
{
    let saved = *pointer_offset;
    if !try_skip_domain_name(buf, pointer_offset) {
        return false;
    }
    proof {
        lemma_name_len_bound(buf@, saved as int);
    }
    if *pointer_offset + 4 > buf.len() {
        *pointer_offset = saved;
        return false;
    }
    *pointer_offset += 4;
    true
}

/// Advances past one resource record when it fits; reports failure and
/// leaves the pointer alone otherwise.
fn try_skip_rr(buf: &[u8], pointer_offset: &mut usize) -> (ok: bool)
    requires
        buf@.len() <= 0xFFFF,
    ensures
        ok <==> rr_len(buf@, *old(pointer_offset) as int) is Some,
        ok ==> *final(pointer_offset) == *old(pointer_offset) + rr_len(
            buf@,
            *old(pointer_offset) as int,
        ).unwrap(),
        !ok ==> *final(pointer_offset) == *old(pointer_offset),
{
    let saved = *pointer_offset;
    if !try_skip_domain_name(buf, pointer_offset) {
        return false;
    }
    proof {
        lemma_name_len_bound(buf@, saved as int);
    }
    if *pointer_offset + 10 > buf.len() {
        *pointer_offset = saved;
        return false;
    }
    *pointer_offset += 8;
    let rdlength = parse_u16(buf, pointer_offset);
    if rdlength as usize > buf.len() - *pointer_offset {
        *pointer_offset = saved;
        return false;
    }
    *pointer_offset += rdlength as usize;
    true
}

/// Advances past `count` questions; on failure the section walk is lost.
fn try_skip_questions(buf: &[u8], pointer_offset: &mut usize, count: u16) -> (ok: bool)
    requires
        buf@.len() <= 0xFFFF,
    ensures
        ok <==> skip_questions(buf@, *old(pointer_offset) as int, count as nat) is Some,
        ok ==> Some(*final(pointer_offset) as int) == skip_questions(
            buf@,
            *old(pointer_offset) as int,
            count as nat,
        ),
{
    let start: usize = *pointer_offset;
    let mut i: u16 = 0;
    while i < count
        invariant
            buf@.len() <= 0xFFFF,
            start == *old(pointer_offset),
            i <= count,
            skip_questions(buf@, start as int, i as nat) == Some(*pointer_offset as int),
        decreases count - i,
    {
        if !try_skip_question(buf, pointer_offset) {
            proof {
                lemma_skip_questions_step(buf@, start as int, i as nat);
                lemma_skip_questions_add(buf@, start as int, (i + 1) as nat, (count - i - 1) as nat);
            }
            return false;
        }
        proof {
            lemma_skip_questions_step(buf@, start as int, i as nat);
        }
        i += 1;
    }
    true
}

/// Advances past `count` resource records; on failure the section walk is
/// lost.
fn try_skip_rrs(buf: &[u8], pointer_offset: &mut usize, count: u16) -> (ok: bool)
    requires
        buf@.len() <= 0xFFFF,
    ensures
        ok <==> skip_rrs(buf@, *old(pointer_offset) as int, count as nat) is Some,
        ok ==> Some(*final(pointer_offset) as int) == skip_rrs(
            buf@,
            *old(pointer_offset) as int,
            count as nat,
        ),
{
    let start: usize = *pointer_offset;
    let mut i: u16 = 0;
    while i < count
        invariant
            buf@.len() <= 0xFFFF,
            start == *old(pointer_offset),
            i <= count,
            skip_rrs(buf@, start as int, i as nat) == Some(*pointer_offset as int),
        decreases count - i,
    {
        if !try_skip_rr(buf, pointer_offset) {
            proof {
                lemma_skip_rrs_step(buf@, start as int, i as nat);
                lemma_skip_rrs_add(buf@, start as int, (i + 1) as nat, (count - i - 1) as nat);
            }
            return false;
        }
        proof {
            lemma_skip_rrs_step(buf@, start as int, i as nat);
        }
        i += 1;
    }
    true
}

/// Index of the first zero byte at or after `off`.
pub open spec fn first_zero(s: Seq<u8>, off: int) -> Option<int>
    decreases s.len() - off,
{
    if off < 0 || off >= s.len() {
        None
    } else if s[off] == 0 {
        Some(off)
    } else {
        first_zero(s, off + 1)
    }
}

/// The first zero byte lies between `off` and the end of the buffer.
pub proof fn lemma_first_zero_bounds(s: Seq<u8>, off: int)
    requires
        first_zero(s, off) is Some,
    ensures
        off <= first_zero(s, off).unwrap() < s.len(),
        s[first_zero(s, off).unwrap()] == 0,
    decreases s.len() - off,
{
    if s[off] != 0 {
        lemma_first_zero_bounds(s, off + 1);
    }
}

/// Every read `parse_dnssec_bit` makes lands inside the buffer: there is a
/// zero byte, and nine bytes of record follow it.
pub open spec fn dnssec_readable(t: Seq<u8>) -> bool {
    first_zero(t, 0) is Some && first_zero(t, 0).unwrap() + 9 <= t.len()
}

/// The DNSSEC-desired bit of the OPT record at the start of `t`.
pub open spec fn spec_dnssec_bit(t: Seq<u8>) -> bool {
    (u32_at(t, first_zero(t, 0).unwrap() + 5) & EDNS_DO_MASK) != 0
}

/// Reads the DNSSEC-desired bit when every needed byte is there; reports
/// `None` otherwise.
pub(crate) fn try_parse_dnssec_bit(bytes: &[u8]) -> (r: Option<bool>)
    ensures
        r is Some <==> dnssec_readable(bytes@),
        r matches Some(b) ==> b == spec_dnssec_bit(bytes@),
{
    let n = bytes.len();
    let mut pointer: usize = 0;
    while pointer < n && bytes[pointer] != 0
        invariant
            n == bytes@.len(),
            pointer <= n,
            first_zero(bytes@, pointer as int) == first_zero(bytes@, 0),
            forall|j: int| 0 <= j < pointer ==> bytes@[j] != 0,
        decreases n - pointer,
    {
        pointer += 1;
    }
    if pointer >= n {
        // No zero byte anywhere: the name never ends.
        return None;
    }
    proof {
        lemma_first_zero_bounds(bytes@, pointer as int);
    }
    if n - pointer < 9 {
        return None;
    }
    pointer += 5;
    let ttl = read_u32_at(bytes, pointer);
    Some((ttl & EDNS_DO_MASK) > 0)
}

/// Walks the OPT pseudo-record's domain name (a zero-terminated label run,
/// the root in practice), skips the four bytes of TYPE and CLASS, and tests
/// the DNSSEC-desired bit of the overloaded TTL field. Only meaningful on
/// the additional section of a message whose ARCOUNT is nonzero.
pub fn parse_dnssec_bit(bytes: &[u8]) -> (do_bit: bool)
    requires
        first_zero(bytes@, 0) is Some,
        first_zero(bytes@, 0).unwrap() + 9 <= bytes@.len(),
    ensures
        do_bit == ((u32_at(bytes@, first_zero(bytes@, 0).unwrap() + 5) & EDNS_DO_MASK) != 0),
{
    proof {
        lemma_first_zero_bounds(bytes@, 0);
    }
    let mut pointer: usize = 0;
    while bytes[pointer] != 0
        invariant
            first_zero(bytes@, 0) is Some,
            first_zero(bytes@, pointer as int) == first_zero(bytes@, 0),
            pointer <= first_zero(bytes@, 0).unwrap(),
            first_zero(bytes@, 0).unwrap() + 9 <= bytes@.len(),
        decreases bytes@.len() - pointer,
    {
        proof {
            lemma_first_zero_bounds(bytes@, pointer as int + 1);
        }
        pointer += 1;
    }
    // The zero terminator of the name, then TYPE and CLASS.
    pointer += 1;
    pointer += 4;
    let ttl = read_u32_at(bytes, pointer);
    (ttl & EDNS_DO_MASK) > 0
}

/// Not a pure representation of a DNS message header: the four section
/// counts, and the walker's computed end offset of each section.
#[derive(Debug)]
pub struct BareHeader {
    /// Number of questions.
    pub qdcount: u16,
    /// Number of answer records.
    pub ancount: u16,
    /// Number of authority records.
    pub nscount: u16,
    /// Number of additional records.
    pub arcount: u16,
    /// End of the question section (start of the answers).
    pub question_offset: usize,
    /// End of the answer section (start of the authority records).
    pub answer_offset: usize,
    /// End of the authority section (start of the additional records).
    pub nameserver_offset: usize,
    /// End of the additional section (end of the message when well formed).
    pub additional_offset: usize,
}

/// What a successful walk of `bytes` reports: counts read from the fixed
/// header, and the four section ends in walking order.
pub open spec fn header_matches(h: BareHeader, s: Seq<u8>) -> bool {
    &&& h.qdcount == u16_at(s, 4)
    &&& h.ancount == u16_at(s, 6)
    &&& h.nscount == u16_at(s, 8)
    &&& h.arcount == u16_at(s, 10)
    &&& Some(h.question_offset as int) == question_section_end(s)
    &&& Some(h.answer_offset as int) == answer_section_end(s)
    &&& Some(h.nameserver_offset as int) == authority_section_end(s)
    &&& Some(h.additional_offset as int) == additional_section_end(s)
}

/// The header a successful walk reports, written out from the section-end
/// spec functions.
pub open spec fn spec_bare_header(s: Seq<u8>) -> BareHeader
    recommends
        additional_section_end(s) is Some,
{
    BareHeader {
        qdcount: u16_at(s, 4),
        ancount: u16_at(s, 6),
        nscount: u16_at(s, 8),
        arcount: u16_at(s, 10),
        question_offset: question_section_end(s).unwrap() as usize,
        answer_offset: answer_section_end(s).unwrap() as usize,
        nameserver_offset: authority_section_end(s).unwrap() as usize,
        additional_offset: additional_section_end(s).unwrap() as usize,
    }
}

/// Reads the four count fields from the fixed header, then walks the whole
/// message once, recording where each section ends. Fails exactly when the
/// walk would run past the end of the buffer.
pub fn parse_bare_header(bytes: &[u8]) -> (r: Result<BareHeader, DnsError>)
    requires
        12 <= bytes@.len() <= 0xFFFF,
    ensures
        r is Ok <==> additional_section_end(bytes@) is Some,
        r matches Ok(h) ==> header_matches(h, bytes@) && h == spec_bare_header(bytes@),
        // the section ends are monotonically non-decreasing and lie within
        // the buffer
        r matches Ok(h) ==> 12 <= h.question_offset <= h.answer_offset <= h.nameserver_offset
            <= h.additional_offset <= bytes@.len(),
        r matches Err(e) ==> e == DnsError::Truncated,
{
    let qdcount = read_u16_at(bytes, 4);
    let ancount = read_u16_at(bytes, 6);
    let nscount = read_u16_at(bytes, 8);
    let arcount = read_u16_at(bytes, 10);

    let mut pointer: usize = 12;
    if !try_skip_questions(bytes, &mut pointer, qdcount) {
        return Err(DnsError::Truncated);
    }
    let question_offset = pointer;
    if !try_skip_rrs(bytes, &mut pointer, ancount) {
        return Err(DnsError::Truncated);
    }
    let answer_offset = pointer;
    if !try_skip_rrs(bytes, &mut pointer, nscount) {
        return Err(DnsError::Truncated);
    }
    let nameserver_offset = pointer;
    if !try_skip_rrs(bytes, &mut pointer, arcount) {
        return Err(DnsError::Truncated);
    }
    let additional_offset = pointer;

    proof {
        lemma_skip_questions_monotone(bytes@, 12, qdcount as nat);
        lemma_skip_rrs_monotone(bytes@, question_offset as int, ancount as nat);
        lemma_skip_rrs_monotone(bytes@, answer_offset as int, nscount as nat);
        lemma_skip_rrs_monotone(bytes@, nameserver_offset as int, arcount as nat);
        lemma_skip_questions_in_bounds(bytes@, 12, qdcount as nat);
        lemma_skip_rrs_in_bounds(bytes@, question_offset as int, ancount as nat);
        lemma_skip_rrs_in_bounds(bytes@, answer_offset as int, nscount as nat);
        lemma_skip_rrs_in_bounds(bytes@, nameserver_offset as int, arcount as nat);
    }
    Ok(BareHeader {
        qdcount,
        ancount,
        nscount,
        arcount,
        question_offset,
        answer_offset,
        nameserver_offset,
        additional_offset,
    })
}

} // verus!
