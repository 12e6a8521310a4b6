use adcache::constants::{QR_MASK, RCODE_MASK};
use adcache::errors::DnsError;
use adcache::session::{
    apply_ad_gate, build_tcp_denial, insert_advertisement, process_query, zero_out_vector,
    DatagramAction,
};

/// A plain A-record query for whitehouse.gov inside a larger receive
/// buffer, as the UDP loop would hand it over; returns (buffer, size).
fn received_query(counts: [u16; 4], qtype: u16) -> (Vec<u8>, usize) {
    let mut q: Vec<u8> = vec![0, 9, 1, 0];
    for c in counts {
        q.extend_from_slice(&c.to_be_bytes());
    }
    q.extend_from_slice(&[
        10, 119, 104, 105, 116, 101, 104, 111, 117, 115, 101, 3, 103, 111, 118, 0,
    ]);
    q.extend_from_slice(&qtype.to_be_bytes());
    q.extend_from_slice(&[0, 1]);
    let size = q.len();
    q.resize(512, 0);
    (q, size)
}

/// A well-formed response: the query plus one answer record, inside a
/// larger buffer.
fn received_response() -> (Vec<u8>, usize) {
    let mut r: Vec<u8> = vec![
        0, 1, 129, 128, 0, 1, 0, 1, 0, 0, 0, 0, 10, 119, 104, 105, 116, 101, 104, 111, 117, 115,
        101, 3, 103, 111, 118, 0, 0, 1, 0, 1, 192, 12, 0, 1, 0, 1, 0, 0, 1, 39, 0, 4, 2, 2, 2, 2,
    ];
    let size = r.len();
    r.resize(512, 0);
    (r, size)
}

#[test]
fn eligible_query_is_forwarded_untouched() {
    let (mut buf, size) = received_query([1, 0, 0, 0], 1);
    let before = buf.clone();
    assert_eq!(process_query(&mut buf, size), DatagramAction::Forward);
    assert_eq!(buf, before);
}

#[test]
fn ineligible_query_is_answered_with_refusal() {
    let (mut buf, size) = received_query([1, 0, 0, 0], 15);
    let reason_len = "Very brave of you to trust me with your email".len();
    let action = process_query(&mut buf, size);
    assert_eq!(action, DatagramAction::Reply(size + 2 * (13 + reason_len)));
    let flags = u16::from_be_bytes([buf[2], buf[3]]);
    assert_eq!(flags & QR_MASK, QR_MASK);
    assert_eq!(flags & RCODE_MASK, 5);
}

#[test]
fn unparseable_datagram_is_abandoned() {
    let (mut buf, size) = received_query([1, 0, 0, 0], 1);
    // claim a second question that is not there
    buf[5] = 2;
    let before = buf.clone();
    assert_eq!(process_query(&mut buf, size), DatagramAction::Abandon);
    assert_eq!(buf, before);
    // and a datagram shorter than a header is abandoned outright
    let mut tiny = vec![0u8; 8];
    assert_eq!(process_query(&mut tiny, 8), DatagramAction::Abandon);
}

#[test]
fn tcp_connection_is_always_refused() {
    // two bytes of TCP length prefix, then the DNS message
    let (query, size) = received_query([1, 0, 0, 0], 1);
    let mut framed: Vec<u8> = vec![0, (size - 2) as u8];
    framed.extend_from_slice(&query[0..size]);
    let n = framed.len();
    framed.resize(512, 0);
    let reason_len = "TCP is for enterprise clients only".len();

    let total = build_tcp_denial(&mut framed, n).expect("TCP denial failed");
    assert_eq!(total, n + 13 + reason_len);
    // the reply is a response: QR set, RCODE REFUSED, ANCOUNT one more
    let flags = u16::from_be_bytes([framed[4], framed[5]]);
    assert_eq!(flags & QR_MASK, QR_MASK);
    assert_eq!(flags & RCODE_MASK, 5);
    assert_eq!(u16::from_be_bytes([framed[8], framed[9]]), 1);
    // the length prefix grew by the inserted record
    assert_eq!(
        u16::from_be_bytes([framed[0], framed[1]]) as usize,
        (size - 2) + 13 + reason_len
    );
}

#[test]
fn tcp_denial_rejects_overfull_length_prefix() {
    let (query, size) = received_query([1, 0, 0, 0], 1);
    let mut framed: Vec<u8> = vec![0xFF, 0xFF];
    framed.extend_from_slice(&query[0..size]);
    let n = framed.len();
    let before = framed.clone();
    assert_eq!(
        build_tcp_denial(&mut framed, n).unwrap_err(),
        DnsError::CountSaturated
    );
    assert_eq!(framed, before);
}

#[test]
fn ad_gate_skips_when_draw_reaches_rate() {
    let ads = vec![String::from("get back to work")];
    // a draw above the rate skips, and so does one equal to it
    for draw in [51u8, 50u8] {
        let (mut buf, _) = received_response();
        let before = buf.clone();
        let r = apply_ad_gate(&mut buf, &ads, 50, draw, 0);
        assert_eq!(r, Ok(0));
        assert_eq!(buf, before);
    }
}

#[test]
fn ad_gate_inserts_when_draw_is_below_rate() {
    let (mut buf, _) = received_response();
    let ads = vec![String::from("get back to work")];
    let r = apply_ad_gate(&mut buf, &ads, 50, 49, 0);
    assert_eq!(r, Ok(13 + ads[0].len()));
    // ARCOUNT went up by one and the record sits at the old message end
    assert_eq!(u16::from_be_bytes([buf[10], buf[11]]), 1);
    assert_eq!(&buf[48..52], &[192, 12, 0, 16]);
}

#[test]
fn zero_rate_never_injects() {
    // at rate zero no reply is ever mutated, over any number of trials
    let ads = vec![String::from("CONSUME MORE PEASANT")];
    for _trial in 0..100 {
        let (mut buf, _) = received_response();
        let before = buf.clone();
        assert_eq!(insert_advertisement(&mut buf, &ads, 0), Ok(0));
        assert_eq!(buf, before);
    }
}

#[test]
fn full_rate_injects_into_every_reply() {
    let ads = vec![
        String::from("CONSUME MORE PEASANT"),
        String::from("Meet hot, lonely DNS records in your area tonight"),
    ];
    for _trial in 0..100 {
        let (mut buf, _) = received_response();
        let before_arcount = u16::from_be_bytes([buf[10], buf[11]]);
        let added = insert_advertisement(&mut buf, &ads, 100).expect("ad insertion failed");
        assert!(added > 0);
        assert!(added == 13 + ads[0].len() || added == 13 + ads[1].len());
        assert_eq!(u16::from_be_bytes([buf[10], buf[11]]), before_arcount + 1);
    }
}

#[test]
fn zeroed_buffer_keeps_length() {
    let mut buf: Vec<u8> = vec![1, 2, 3, 255, 0, 9];
    zero_out_vector(&mut buf);
    assert_eq!(buf, vec![0u8; 6]);
}
