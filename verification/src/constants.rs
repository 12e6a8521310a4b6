//! Wire-format constants of the DNS message header, EDNS, and record types.

use vstd::prelude::*;

verus! {

/// QR bit of the header flags word: set in a response, clear in a query.
pub const QR_MASK: u16 = 0x8000;

/// Low four bits of the header flags word: the RCODE.
pub const RCODE_MASK: u16 = 0x000F;

/// RCODE signalling a policy refusal.
pub const RCODE_REFUSED: u8 = 5;

/// DNSSEC-desired ("DO") bit inside the TTL field of an OPT pseudo-record.
pub const EDNS_DO_MASK: u32 = 0x0000_8000;

/// Resource-record type of a TXT record.
pub const RR_TYPE_TXT: u16 = 16;

/// Resource-record type of the EDNS OPT pseudo-record.
pub const RR_TYPE_OPT: u16 = 41;

/// Resource-record class of the Internet.
pub const RR_CLASS_IN: u16 = 1;

} // verus!
