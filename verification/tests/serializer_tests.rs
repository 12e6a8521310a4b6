use adcache::errors::DnsError;
use adcache::serializer::{is_valid_character_string, push_character_string, push_domain_name};

#[test]
fn convert_string_to_dns_character_string() {
    let mut bytes: Vec<u8> = Vec::with_capacity(11);
    let res = push_character_string("aabcde  a!", &mut bytes);
    assert_eq!(res, Ok(()));
    assert_eq!(bytes, [10, 97, 97, 98, 99, 100, 101, 32, 32, 97, 33]);
}

#[test]
fn convert_to_character_string_fails_on_non_ascii() {
    let mut bytes: Vec<u8> = Vec::with_capacity(1);
    let non_ascii = String::from_utf8(vec![0xC3, 0xBC]).unwrap();
    let res = push_character_string(non_ascii.as_str(), &mut bytes);
    assert_eq!(res, Err(DnsError::NotAscii));
    assert_eq!(res.unwrap_err().reason(), "message is not pure ascii");
    assert!(bytes.is_empty());
}

#[test]
fn convert_to_character_string_fails_with_long_string() {
    let mut bytes: Vec<u8> = Vec::with_capacity(1);
    let long_string = "a".repeat(257);
    let res = push_character_string(long_string.as_str(), &mut bytes);
    assert_eq!(res, Err(DnsError::CharacterStringTooLong));
    assert_eq!(
        res.unwrap_err().reason(),
        "message is too long to fit in a character string"
    );
}

#[test]
fn convert_string_to_domain_name() {
    let mut bytes: Vec<u8> = Vec::with_capacity(9);
    push_domain_name(b"\x03aaa\x03com\x00", &mut bytes).expect("Failed to push bytes");
    assert_eq!(bytes, [3, 97, 97, 97, 3, 99, 111, 109, 0]);
}

#[test]
fn convert_string_to_domain_name_fails_with_long_string() {
    let mut bytes: Vec<u8> = Vec::with_capacity(9);
    let long_string = "a".repeat(254);
    let result = push_domain_name(long_string.as_str().as_bytes(), &mut bytes);
    assert_eq!(result, Err(DnsError::DomainNameTooLong));
    assert_eq!(
        result.unwrap_err().reason(),
        "message is too long to fit in a domain name"
    );
}

#[test]
fn character_string_of_exactly_256_bytes_wraps_length_prefix() {
    // the validity ceiling is 256 bytes, one past the one-byte prefix's
    // reach: the prefix is reduced modulo 256
    let text = "b".repeat(256);
    assert_eq!(is_valid_character_string(text.as_str()), Ok(()));
    let mut bytes: Vec<u8> = Vec::new();
    assert_eq!(push_character_string(text.as_str(), &mut bytes), Ok(()));
    assert_eq!(bytes.len(), 257);
    assert_eq!(bytes[0], 0);
    assert_eq!(bytes[1], b'b');
}

#[test]
fn domain_name_boundary_is_253_bytes() {
    let exactly = "c".repeat(253);
    let mut bytes: Vec<u8> = Vec::new();
    assert_eq!(push_domain_name(exactly.as_bytes(), &mut bytes), Ok(()));
    assert_eq!(bytes.len(), 253);
}
