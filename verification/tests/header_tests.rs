use adcache::header::{decode_header, encode_header};

#[test]
fn header_fields_decoded_from_wire() {
    // ID 0x1234; QR=0, opcode 2, RD set, AD and CD set; counts 1,0,0,1
    let bytes: [u8; 12] = [0x12, 0x34, 0x11, 0x30, 0, 1, 0, 0, 0, 0, 0, 1];
    let h = decode_header(&bytes);
    assert_eq!(h.id, 0x1234);
    assert!(!h.qr);
    assert_eq!(h.opcode, 2);
    assert!(h.rd);
    assert!(h.ad);
    assert!(h.cd);
    assert_eq!(h.rcode, 0);
    assert_eq!(h.qdcount, 1);
    assert_eq!(h.arcount, 1);
}

#[test]
fn header_roundtrip_reproduces_original_bytes() {
    // decoding and re-encoding with no field changes gives the twelve
    // bytes back exactly, whatever flags were set
    let samples: [[u8; 12]; 3] = [
        [255, 255, 1, 48, 0, 1, 0, 0, 0, 0, 0, 0],
        [0, 1, 129, 128, 0, 1, 0, 1, 0, 0, 0, 0],
        [0x12, 0x34, 0xFF, 0xFF, 9, 9, 8, 8, 7, 7, 6, 6],
    ];
    for bytes in samples.iter() {
        let h = decode_header(bytes);
        let encoded = encode_header(&h);
        assert_eq!(encoded.as_slice(), &bytes[..]);
    }
}
