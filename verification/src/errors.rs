//! The closed set of things that can go wrong while parsing, classifying, or
//! rewriting a DNS message.

use vstd::prelude::*;

verus! {

/// One failure kind per parse failure, policy rejection, or encoding
/// constraint. A policy rejection's reason string doubles as the TXT payload
/// of the refusal the relay sends back.
#[derive(Clone, Copy, Debug, PartialEq, Eq, Structural)]
pub enum DnsError {
    /// The walk over the message's sections ran past the end of the buffer.
    Truncated,
    /// The query carries no question (QDCOUNT is zero).
    NoQuestion,
    /// The query already carries answer or authority records.
    HasRecords,
    /// The question's QTYPE is an obsolete record type.
    QtypeObsolete,
    /// The question asks for mail-exchange records.
    QtypeMx,
    /// The question asks for a zone transfer.
    QtypeXfr,
    /// The question's QTYPE lies in the unassigned range.
    QtypeUnassigned,
    /// The question's QTYPE lies in the private-use range.
    QtypePrivate,
    /// The question's QTYPE is the reserved value.
    QtypeReserved,
    /// The question's QCLASS is an obsolete class.
    QclassObsolete,
    /// The query asks for DNSSEC.
    DnssecRequested,
    /// A TXT payload is not pure ASCII.
    NotAscii,
    /// A TXT payload does not fit in a DNS character-string.
    CharacterStringTooLong,
    /// A name does not fit in a DNS domain-name encoding.
    DomainNameTooLong,
    /// A count field is at its ceiling and cannot take one more record.
    CountSaturated,
}

impl DnsError {
    /// The reason in the words the relay uses on the wire.
    pub open spec fn spec_reason(self) -> Seq<char> {
        match self {
            DnsError::Truncated => "message walk ran past the end of the buffer"@,
            DnsError::NoQuestion => "Your query needs a question (QDCOUNT is less than 1)"@,
            DnsError::HasRecords => "Format Error, we will bill your ISP"@,
            DnsError::QtypeObsolete => "You are OLD"@,
            DnsError::QtypeMx => "Very brave of you to trust me with your email"@,
            DnsError::QtypeXfr => "XFR Queries are for premium members only!"@,
            DnsError::QtypeUnassigned => "asdaoisdj"@,
            DnsError::QtypePrivate => "asdaoisdj"@,
            DnsError::QtypeReserved => "aisudoaisdj"@,
            DnsError::QclassObsolete => "DN$ only supports queries made after 1990"@,
            DnsError::DnssecRequested => "DN$ only supports DNSSEC for customers in the ENTERPRISE tier"@,
            DnsError::NotAscii => "message is not pure ascii"@,
            DnsError::CharacterStringTooLong => "message is too long to fit in a character string"@,
            DnsError::DomainNameTooLong => "message is too long to fit in a domain name"@,
            DnsError::CountSaturated => "count field cannot take another record"@,
        }
    }

    /// The reason's bytes on the wire: the UTF-8 form of the reason string
    /// (plain ASCII for every variant).
    pub open spec fn spec_reason_bytes(self) -> Seq<u8> {
        vstd::utf8::encode_utf8(self.spec_reason())
    }

    /// The reason fits a TXT record's character-string: pure ASCII, within
    /// reach of the one-byte length prefix.
    pub open spec fn reason_fits(self) -> bool {
        vstd::utf8::is_ascii_chars(self.spec_reason()) && self.spec_reason_bytes().len() <= 256
    }

    /// The reason, for callers that put it on the wire or in a log.
    pub fn reason(&self) -> (r: &'static str)
        ensures
            r@ == self.spec_reason(),
    {
        match self {
            DnsError::Truncated => "message walk ran past the end of the buffer",
            DnsError::NoQuestion => "Your query needs a question (QDCOUNT is less than 1)",
            DnsError::HasRecords => "Format Error, we will bill your ISP",
            DnsError::QtypeObsolete => "You are OLD",
            DnsError::QtypeMx => "Very brave of you to trust me with your email",
            DnsError::QtypeXfr => "XFR Queries are for premium members only!",
            DnsError::QtypeUnassigned => "asdaoisdj",
            DnsError::QtypePrivate => "asdaoisdj",
            DnsError::QtypeReserved => "aisudoaisdj",
            DnsError::QclassObsolete => "DN$ only supports queries made after 1990",
            DnsError::DnssecRequested => "DN$ only supports DNSSEC for customers in the ENTERPRISE tier",
            DnsError::NotAscii => "message is not pure ascii",
            DnsError::CharacterStringTooLong => "message is too long to fit in a character string",
            DnsError::DomainNameTooLong => "message is too long to fit in a domain name",
            DnsError::CountSaturated => "count field cannot take another record",
        }
    }
}

} // verus!
