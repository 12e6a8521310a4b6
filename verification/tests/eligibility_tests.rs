use adcache::eligibility::check_query_eligibility;
use adcache::errors::DnsError;
use adcache::parser::parse_bare_header;

/// A query for whitehouse.gov with the given QTYPE and QCLASS, and the
/// given count fields.
fn query_with(qtype: u16, qclass: u16, counts: [u16; 4]) -> Vec<u8> {
    let mut q: Vec<u8> = vec![0, 9, 1, 0];
    for c in counts {
        q.extend_from_slice(&c.to_be_bytes());
    }
    q.extend_from_slice(&[
        10, 119, 104, 105, 116, 101, 104, 111, 117, 115, 101, 3, 103, 111, 118, 0,
    ]);
    q.extend_from_slice(&qtype.to_be_bytes());
    q.extend_from_slice(&qclass.to_be_bytes());
    q
}

fn classify(buf: &[u8]) -> Result<(), DnsError> {
    let header = parse_bare_header(buf).expect("failed to walk query");
    check_query_eligibility(buf, &header)
}

#[test]
fn plain_a_query_is_allowed() {
    let q = query_with(1, 1, [1, 0, 0, 0]);
    assert_eq!(classify(&q), Ok(()));
}

#[test]
fn mx_query_is_denied_with_its_own_reason() {
    let q = query_with(15, 1, [1, 0, 0, 0]);
    let verdict = classify(&q);
    assert_eq!(verdict, Err(DnsError::QtypeMx));
    assert_eq!(
        verdict.unwrap_err().reason(),
        "Very brave of you to trust me with your email"
    );
}

#[test]
fn dnssec_desiring_query_is_denied() {
    let mut q = query_with(1, 1, [1, 0, 0, 1]);
    // one additional record: an OPT pseudo-record whose TTL has the DO bit
    q.extend_from_slice(&[0, 0, 41, 2, 0, 0, 0, 0x80, 0, 0, 0]);
    let verdict = classify(&q);
    assert_eq!(verdict, Err(DnsError::DnssecRequested));
    assert_eq!(
        verdict.unwrap_err().reason(),
        "DN$ only supports DNSSEC for customers in the ENTERPRISE tier"
    );
}

#[test]
fn query_without_dnssec_bit_passes_edns_check() {
    let mut q = query_with(1, 1, [1, 0, 0, 1]);
    q.extend_from_slice(&[0, 0, 41, 2, 0, 0, 0, 0, 0, 0, 0]);
    assert_eq!(classify(&q), Ok(()));
}

#[test]
fn questionless_query_is_denied() {
    let q = query_with(1, 1, [0, 0, 0, 0]);
    let verdict = classify(&q[0..12]);
    assert_eq!(verdict, Err(DnsError::NoQuestion));
    assert_eq!(
        verdict.unwrap_err().reason(),
        "Your query needs a question (QDCOUNT is less than 1)"
    );
}

#[test]
fn query_carrying_answers_is_denied() {
    // ANCOUNT=1 with an answer record present
    let mut q = query_with(1, 1, [1, 1, 0, 0]);
    q.extend_from_slice(&[192, 12, 0, 1, 0, 1, 0, 0, 1, 39, 0, 4, 2, 2, 2, 2]);
    let verdict = classify(&q);
    assert_eq!(verdict, Err(DnsError::HasRecords));
    assert_eq!(verdict.unwrap_err().reason(), "Format Error, we will bill your ISP");
}

#[test]
fn obsolete_xfr_unassigned_private_reserved_qtypes_are_denied() {
    let cases: [(u16, DnsError, &str); 7] = [
        (3, DnsError::QtypeObsolete, "You are OLD"),
        (32769, DnsError::QtypeObsolete, "You are OLD"),
        (251, DnsError::QtypeXfr, "XFR Queries are for premium members only!"),
        (252, DnsError::QtypeXfr, "XFR Queries are for premium members only!"),
        (40000, DnsError::QtypeUnassigned, "asdaoisdj"),
        (65300, DnsError::QtypePrivate, "asdaoisdj"),
        (65535, DnsError::QtypeReserved, "aisudoaisdj"),
    ];
    for (qtype, expected, reason) in cases {
        let q = query_with(qtype, 1, [1, 0, 0, 0]);
        let verdict = classify(&q);
        assert_eq!(verdict, Err(expected));
        assert_eq!(verdict.unwrap_err().reason(), reason);
    }
}

#[test]
fn obsolete_qclass_is_denied_but_unknown_classes_pass() {
    let q3 = query_with(1, 3, [1, 0, 0, 0]);
    let verdict = classify(&q3);
    assert_eq!(verdict, Err(DnsError::QclassObsolete));
    assert_eq!(
        verdict.unwrap_err().reason(),
        "DN$ only supports queries made after 1990"
    );
    // an unknown class is deliberately allowed
    let q9 = query_with(1, 9, [1, 0, 0, 0]);
    assert_eq!(classify(&q9), Ok(()));
}
