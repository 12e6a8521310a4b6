//! Serializing text into wire-encoded DNS formats: the `<character-string>`
//! of a TXT record, and raw label-sequence domain names.

use vstd::prelude::*;
use vstd::string::{is_ascii, StringSliceAdditionalSpecFns};
use crate::errors::DnsError;

verus! {

/// A string fits a DNS `<character-string>` when it is pure ASCII and its
/// byte form is within reach of the one-byte length prefix.
pub open spec fn valid_character_string(s: &str) -> bool {
    is_ascii(s) && s.spec_bytes().len() <= 256
}

/// The wire form of a `<character-string>`: a one-byte length prefix
/// (reduced modulo 256), then the bytes of the text.
pub open spec fn char_string_of(b: Seq<u8>) -> Seq<u8> {
    seq![(b.len() % 256) as u8] + b
}

/// The `<character-string>` form of a string's bytes.
pub open spec fn character_string_bytes(s: &str) -> Seq<u8> {
    char_string_of(s.spec_bytes())
}

/// Returns whether a string fits the criteria for a `<character-string>`:
/// pure ASCII, at most 256 bytes; each failure is reported distinctly.
pub fn is_valid_character_string(message: &str) -> (r: Result<(), DnsError>)
    ensures
        r is Ok <==> valid_character_string(message),
        !is_ascii(message) ==> r == Err::<(), DnsError>(DnsError::NotAscii),
        is_ascii(message) && message.spec_bytes().len() > 256 ==> r == Err::<(), DnsError>(
            DnsError::CharacterStringTooLong,
        ),
{
    if !message.is_ascii() {
        return Err(DnsError::NotAscii);
    }
    if message.as_bytes().len() > 256 {
        return Err(DnsError::CharacterStringTooLong);
    }
    Ok(())
}

/// Validates a string and appends its `<character-string>` form to a vector;
/// on failure the vector is left untouched.
pub fn push_character_string(message: &str, bytes: &mut Vec<u8>) -> (r: Result<(), DnsError>)
    ensures
        r is Ok <==> valid_character_string(message),
        r is Ok ==> final(bytes)@ == old(bytes)@ + character_string_bytes(message),
        r is Err ==> final(bytes)@ == old(bytes)@,
        !is_ascii(message) ==> r == Err::<(), DnsError>(DnsError::NotAscii),
        is_ascii(message) && message.spec_bytes().len() > 256 ==> r == Err::<(), DnsError>(
            DnsError::CharacterStringTooLong,
        ),
{
    match is_valid_character_string(message) {
        Ok(_) => {},
        Err(e) => {
            return Err(e);
        },
    }

    let msg_bytes = message.as_bytes();
    let length_byte: u8 = (msg_bytes.len() % 256) as u8;
    bytes.push(length_byte);
    let mut i: usize = 0;
    while i < msg_bytes.len()
        invariant
            i <= msg_bytes@.len(),
            msg_bytes@ == message.spec_bytes(),
            bytes@ == old(bytes)@ + seq![(message.spec_bytes().len() % 256) as u8]
                + msg_bytes@.subrange(0, i as int),
        decreases msg_bytes@.len() - i,
    {
        bytes.push(msg_bytes[i]);
        assert(msg_bytes@.subrange(0, i + 1) == msg_bytes@.subrange(0, i as int) + seq![
            msg_bytes@[i as int],
        ]);
        i += 1;
    }
    assert(bytes@ == old(bytes)@ + character_string_bytes(message)) by {
        assert(msg_bytes@.subrange(0, msg_bytes@.len() as int) == msg_bytes@);
        assert(old(bytes)@ + seq![(message.spec_bytes().len() % 256) as u8] + msg_bytes@
            =~= old(bytes)@ + character_string_bytes(message));
    }
    Ok(())
}

/// Appends a raw, already label-encoded domain name (for example
/// `\x03abc\x03com\x00`, or a two-byte compression pointer) to a vector,
/// refusing one longer than the wire format allows; on failure the vector is
/// left untouched.
pub fn push_domain_name(message: &[u8], bytes: &mut Vec<u8>) -> (r: Result<(), DnsError>)
    ensures
        r is Ok <==> message@.len() <= 253,
        r is Ok ==> final(bytes)@ == old(bytes)@ + message@,
        r is Err ==> final(bytes)@ == old(bytes)@ && r == Err::<(), DnsError>(
            DnsError::DomainNameTooLong,
        ),
{
    if message.len() > 253 {
        return Err(DnsError::DomainNameTooLong);
    }
    let mut i: usize = 0;
    while i < message.len()
        invariant
            i <= message@.len(),
            bytes@ == old(bytes)@ + message@.subrange(0, i as int),
        decreases message@.len() - i,
    {
        bytes.push(message[i]);
        assert(message@.subrange(0, i + 1) == message@.subrange(0, i as int) + seq![
            message@[i as int],
        ]);
        i += 1;
    }
    assert(message@.subrange(0, message@.len() as int) == message@);
    Ok(())
}

} // verus!
