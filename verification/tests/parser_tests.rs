use adcache::errors::DnsError;
use adcache::parser::{
    parse_bare_header, parse_dnssec_bit, parse_u16, skip_domain_name, skip_over_question,
    skip_over_rr,
};

#[test]
fn parse_u16_test() {
    let mut pointer: usize = 0;
    let reference_buffer: [u8; 2] = [2, 1];
    assert_eq!(parse_u16(&reference_buffer, &mut pointer), 513);
    assert_eq!(pointer, 2);
}

#[test]
fn parse_u16_symmetrical() {
    let mut pointer: usize = 0;
    let reference_buffer: [u8; 2] = [1, 1];
    assert_eq!(parse_u16(&reference_buffer, &mut pointer), 257);
    assert_eq!(pointer, 2);
}

#[test]
fn parse_u16_longer_buffer() {
    let mut pointer: usize = 0;
    let reference_buffer: [u8; 3] = [1, 1, 1];
    assert_eq!(parse_u16(&reference_buffer, &mut pointer), 257);
    assert_eq!(pointer, 2);
}

#[test]
fn skip_domain_name_test() {
    // www.whitehouse.gov. to domain name encoding
    let mut pointer: usize = 0;
    let reference_buffer: [u8; 20] = [
        3, 119, 119, 119, 10, 119, 104, 105, 116, 101, 104, 111, 117, 115, 101, 3, 103, 111, 118,
        0,
    ];
    skip_domain_name(&reference_buffer, &mut pointer);
    assert_eq!(pointer, 20);
}

#[test]
fn skip_question_test() {
    // whitehouse.gov question for an A record
    let mut pointer: usize = 0;
    let question_for_a_record: [u8; 24] = [
        3, 119, 119, 119, 10, 119, 104, 105, 116, 101, 104, 111, 117, 115, 101, 3, 103, 111, 118,
        0, 0, 1, 0, 1,
    ];
    skip_over_question(&question_for_a_record, &mut pointer);
    assert_eq!(pointer, 24);
}

#[test]
fn skip_question_test_complete_buffer() {
    let mut pointer: usize = 0;
    let question_for_a_record: [u8; 25] = [
        10, 119, 104, 105, 116, 101, 104, 111, 117, 115, 101, 3, 103, 111, 118, 0, 0, 1, 0, 1,
        255, 255, 255, 255, 255,
    ];
    skip_over_question(&question_for_a_record, &mut pointer);
    assert_eq!(pointer, 20);
}

#[test]
fn skips_dns_compressed_label_correctly() {
    let mut pointer: usize = 0;
    let dns_compressed_label: [u8; 6] = [192, 12, 5, 5, 5, 5];
    skip_domain_name(&dns_compressed_label, &mut pointer);
    assert_eq!(pointer, 2);
}

#[test]
fn parse_offsets_of_dnscompressed_response() {
    // made up response for whitehouse.gov
    let dns_response = [
        0, 1, 129, 128, 0, 1, 0, 1, 0, 0, 0, 0, 10, 119, 104, 105, 116, 101, 104, 111, 117, 115,
        101, 3, 103, 111, 118, 0, 0, 1, 0, 1, 192, 12, 0, 1, 0, 1, 0, 0, 1, 39, 0, 4, 2, 2, 2, 2,
    ];
    let header = parse_bare_header(&dns_response).expect("failed to parse header from response");
    assert_eq!(header.question_offset, 32);
    assert_eq!(header.answer_offset, 48);
}

#[test]
fn skip_rr_jumps_name_fixed_fields_and_rdata() {
    // compression pointer name, TYPE A, CLASS IN, TTL 295, RDLENGTH 4, RDATA
    let rr: [u8; 16] = [192, 12, 0, 1, 0, 1, 0, 0, 1, 39, 0, 4, 2, 2, 2, 2];
    let mut pointer: usize = 0;
    skip_over_rr(&rr, &mut pointer);
    assert_eq!(pointer, 16);
}

#[test]
fn walker_on_empty_message_reports_header_end() {
    // all four counts zero: every section ends right after the header
    let empty: [u8; 12] = [0, 7, 1, 0, 0, 0, 0, 0, 0, 0, 0, 0];
    let header = parse_bare_header(&empty).expect("failed to parse empty message");
    assert_eq!(header.question_offset, 12);
    assert_eq!(header.answer_offset, 12);
    assert_eq!(header.nameserver_offset, 12);
    assert_eq!(header.additional_offset, 12);
}

#[test]
fn walker_reaches_true_end_with_records_in_every_section() {
    // one question and one record in each of answer, authority, additional:
    // the computed additional offset is the exact end of the message
    let mut msg: Vec<u8> = vec![0, 1, 1, 0, 0, 1, 0, 1, 0, 1, 0, 1];
    msg.extend_from_slice(&[
        10, 119, 104, 105, 116, 101, 104, 111, 117, 115, 101, 3, 103, 111, 118, 0, 0, 1, 0, 1,
    ]);
    msg.extend_from_slice(&[192, 12, 0, 1, 0, 1, 0, 0, 1, 39, 0, 4, 1, 2, 3, 4]);
    msg.extend_from_slice(&[0, 0, 2, 0, 1, 0, 0, 0, 60, 0, 2, 192, 12]);
    msg.extend_from_slice(&[0, 0, 41, 2, 0, 0, 0, 0, 0, 0, 0]);
    let header = parse_bare_header(&msg).expect("failed to walk full message");
    assert_eq!(header.question_offset, 32);
    assert_eq!(header.answer_offset, 48);
    assert_eq!(header.nameserver_offset, 61);
    assert_eq!(header.additional_offset, msg.len());
}

#[test]
fn walker_rejects_truncated_message() {
    // one question claimed, but the name never ends inside the buffer
    let truncated: [u8; 16] = [0, 1, 1, 0, 0, 1, 0, 0, 0, 0, 0, 0, 3, 119, 119, 119];
    assert_eq!(parse_bare_header(&truncated).unwrap_err(), DnsError::Truncated);
}

#[test]
fn dnssec_bit_read_from_opt_ttl_field() {
    // root name, TYPE OPT, CLASS 512, TTL with the DO bit set
    let opt_with_do: [u8; 11] = [0, 0, 41, 2, 0, 0, 0, 0x80, 0, 0, 0];
    assert!(parse_dnssec_bit(&opt_with_do));
    let opt_without_do: [u8; 11] = [0, 0, 41, 2, 0, 0, 0, 0, 0, 0, 0];
    assert!(!parse_dnssec_bit(&opt_without_do));
}
