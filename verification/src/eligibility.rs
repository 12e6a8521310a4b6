//! The eligibility filter: a pure classification of a query as served or
//! refused, with a fixed reason per refusal, checks applied in a fixed
//! order where the first failing check wins.

use vstd::prelude::*;
use vstd::pervasive::unreached;
use vstd::slice::slice_subrange;
use crate::errors::DnsError;
use crate::parser::{
    name_len, try_skip_domain_name, parse_u16, dnssec_readable, spec_dnssec_bit,
    try_parse_dnssec_bit, BareHeader,
};
use crate::wire::u16_at;

verus! {

/// The denial rule on the question's QTYPE, tested in the filter's order:
/// obsolete types, mail exchange, zone transfers, then the unassigned,
/// private-use, and reserved ranges. Everything else passes.
pub open spec fn qtype_verdict(qtype: u16) -> Option<DnsError> {
    if qtype == 3 || qtype == 4 || qtype == 30 || qtype == 38 || qtype == 254 || qtype == 32769 {
        Some(DnsError::QtypeObsolete)
    } else if qtype == 15 {
        Some(DnsError::QtypeMx)
    } else if qtype == 251 || qtype == 252 {
        Some(DnsError::QtypeXfr)
    } else if 32770 <= qtype <= 65279 {
        Some(DnsError::QtypeUnassigned)
    } else if 65280 <= qtype <= 65534 {
        Some(DnsError::QtypePrivate)
    } else if qtype == 65535 {
        Some(DnsError::QtypeReserved)
    } else {
        None
    }
}

/// The denial rule on the question's QCLASS: the obsolete classes 3 and 4
/// are refused; class 1 (Internet) and, deliberately, every other value
/// pass.
pub open spec fn qclass_verdict(qclass: u16) -> Option<DnsError> {
    if qclass == 3 || qclass == 4 {
        Some(DnsError::QclassObsolete)
    } else {
        None
    }
}

/// Every read the filter performs, in the order it performs them, lands
/// inside the buffer; a check that fails before a read happens does not
/// require it.
pub open spec fn classify_readable(s: Seq<u8>, h: BareHeader) -> bool {
    h.qdcount >= 1 && h.ancount == 0 && h.nscount == 0 ==> {
        &&& name_len(s, 12) is Some
        &&& {
            let q = 12 + name_len(s, 12).unwrap();
            &&& q + 2 <= s.len()
            &&& (qtype_verdict(u16_at(s, q)) is None ==> {
                &&& q + 4 <= s.len()
                &&& (qclass_verdict(u16_at(s, q + 2)) is None && h.arcount > 0
                    ==> dnssec_readable(s.subrange(q + 4, s.len() as int)))
            })
        }
    }
}

/// The eligibility verdict over the raw bytes and the walked header: the
/// first failing check wins, and a query that passes every check is served.
pub open spec fn spec_classify(s: Seq<u8>, h: BareHeader) -> Result<(), DnsError> {
    if h.qdcount < 1 {
        Err(DnsError::NoQuestion)
    } else if h.ancount > 0 || h.nscount > 0 {
        Err(DnsError::HasRecords)
    } else {
        let q = 12 + name_len(s, 12).unwrap();
        match qtype_verdict(u16_at(s, q)) {
            Some(e) => Err(e),
            None => match qclass_verdict(u16_at(s, q + 2)) {
                Some(e) => Err(e),
                None => {
                    if h.arcount > 0 && spec_dnssec_bit(s.subrange(q + 4, s.len() as int)) {
                        Err(DnsError::DnssecRequested)
                    } else {
                        Ok(())
                    }
                },
            },
        }
    }
}

/// Classifies the query when every read it takes lands inside the buffer;
/// reports `None` when the walk past the question runs out of it instead.
pub fn try_check_query_eligibility(buf: &[u8], header: &BareHeader) -> (r: Option<
    Result<(), DnsError>,
>)
    requires
        buf@.len() <= 0xFFFF,
    ensures
        r is Some <==> classify_readable(buf@, *header),
        r matches Some(v) ==> v == spec_classify(buf@, *header),
{
    if header.qdcount < 1 {
        return Some(Err(DnsError::NoQuestion));
    }
    if header.ancount > 0 || header.nscount > 0 {
        return Some(Err(DnsError::HasRecords));
    }

    // The twelve-byte header has already been walked; the question is next.
    let mut pointer: usize = 12;
    if !try_skip_domain_name(buf, &mut pointer) {
        return None;
    }
    proof {
        crate::parser::lemma_name_len_bound(buf@, 12);
    }

    if pointer + 2 > buf.len() {
        return None;
    }
    let query_type = parse_u16(buf, &mut pointer);
    if query_type == 3 || query_type == 4 || query_type == 30 || query_type == 38 || query_type
        == 254 || query_type == 32769 {
        return Some(Err(DnsError::QtypeObsolete));
    }
    if query_type == 15 {
        return Some(Err(DnsError::QtypeMx));
    }
    if query_type == 251 || query_type == 252 {
        return Some(Err(DnsError::QtypeXfr));
    }
    if 32770 <= query_type && query_type <= 65279 {
        return Some(Err(DnsError::QtypeUnassigned));
    }
    if 65280 <= query_type && query_type <= 65534 {
        return Some(Err(DnsError::QtypePrivate));
    }
    if query_type == 65535 {
        return Some(Err(DnsError::QtypeReserved));
    }

    if pointer + 2 > buf.len() {
        return None;
    }
    let query_class = parse_u16(buf, &mut pointer);
    if query_class == 3 || query_class == 4 {
        return Some(Err(DnsError::QclassObsolete));
    }

    if header.arcount > 0 {
        let rest = slice_subrange(buf, pointer, buf.len());
        match try_parse_dnssec_bit(rest) {
            None => {
                return None;
            },
            Some(do_bit) => {
                if do_bit {
                    return Some(Err(DnsError::DnssecRequested));
                }
            },
        }
    }

    Some(Ok(()))
}

/// Checks whether a query should be served, assuming its question section
/// can be read; the verdict is exactly `spec_classify`.
pub fn check_query_eligibility(buf: &[u8], header: &BareHeader) -> (r: Result<(), DnsError>)
    requires
        buf@.len() <= 0xFFFF,
        classify_readable(buf@, *header),
    ensures
        r == spec_classify(buf@, *header),
{
    match try_check_query_eligibility(buf, header) {
        Some(verdict) => verdict,
        None => unreached(),
    }
}

} // verus!
