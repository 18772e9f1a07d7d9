use emv_tlv_parser::parse_tlv;
use emv_tlv_parser::parse_tlv_vec;
use emv_tlv_parser::DecodeError;

#[test]
fn test_nested_parse_tlv() {
    let data = vec![
        0x6F, 0x1A, 0x84, 0x0E, 0x31, 0x50, 0x41, 0x59, 0x2E, 0x53, 0x59, 0x53, 0x2E, 0x44, 0x44,
        0x46, 0x30, 0x31, 0xA5, 0x08, 0x88, 0x01, 0x02, 0x5F, 0x2D, 0x02, 0x65, 0x6E,
    ];

    match parse_tlv_vec(&data) {
        Ok(tags) => {
            assert_eq!(tags.len(), 5);
            assert_eq!(tags[0].id, vec![0x6F]);
            assert_eq!(tags[1].id, vec![0x84]);
            assert_eq!(tags[2].id, vec![0xA5]);
            assert_eq!(tags[3].id, vec![0x88]);
            assert_eq!(tags[4].id, vec![0x5f, 0x2D]);
        }
        Err(e) => panic!("Error parsing TLV: {:?}", e),
    }
}

#[test]
fn test_parse_tlv_data() {
    let data = vec![
        0x5F, 0x2A, 0x02, 0x03, 0x64, 0x82, 0x02, 0x08, 0x00, 0x95, 0x05, 0x80, 0x00, 0x00, 0x00,
        0x00, 0x9A, 0x03, 0x23, 0x11, 0x25, 0x9C, 0x01, 0x00, 0x9F, 0x02, 0x06, 0x00, 0x00, 0x00,
        0x00, 0x00, 0x01, 0x9F, 0x10, 0x20, 0x0F, 0xA5, 0x00, 0xA0, 0x83, 0x09, 0xC0, 0x00, 0xF4,
        0x56, 0xB8, 0x28, 0x60, 0x06, 0x4C, 0x95, 0x0F, 0x00, 0x00, 0x00, 0x00, 0x00, 0x00, 0x00,
        0x00, 0x00, 0x00, 0x00, 0x00, 0x00, 0x00, 0x00, 0x9F, 0x1A, 0x02, 0x03, 0x64, 0x9F, 0x26,
        0x08, 0xD5, 0x47, 0x07, 0x94, 0x27, 0xA4, 0x20, 0xB7, 0x9F, 0x27, 0x01, 0x80, 0x9F, 0x36,
        0x02, 0x00, 0xFC, 0x9F, 0x37, 0x04, 0x20, 0x47, 0x5A, 0x30, 0x9F, 0x6E, 0x04, 0x10, 0x30,
        0x00, 0x00, 0x9F, 0x08, 0x02, 0x00, 0x01,
    ];

    match parse_tlv_vec(&data) {
        Ok(tags) => {
            assert_eq!(tags.len(), 14);
            assert_eq!(tags[0].id, vec![0x5F, 0x2A]);
            assert_eq!(tags[1].id, vec![0x82]);
            assert_eq!(tags[2].id, vec![0x95]);
            assert_eq!(tags[3].id, vec![0x9A]);
            assert_eq!(tags[4].id, vec![0x9C]);
            assert_eq!(tags[5].id, vec![0x9F, 0x02]);
            assert_eq!(tags[6].id, vec![0x9F, 0x10]);
            assert_eq!(tags[7].id, vec![0x9F, 0x1A]);
            assert_eq!(tags[8].id, vec![0x9F, 0x26]);
            assert_eq!(tags[9].id, vec![0x9F, 0x27]);
            assert_eq!(tags[10].id, vec![0x9F, 0x36]);
            assert_eq!(tags[11].id, vec![0x9F, 0x37]);
            assert_eq!(tags[12].id, vec![0x9F, 0x6E]);
            assert_eq!(tags[13].id, vec![0x9F, 0x08]);
        }
        Err(e) => panic!("Error parsing TLV: {:?}", e),
    }
}

#[test]
fn test_parse_tlv_data_raw() {
    let data_raw = "6F1A840E315041592E5359532E4444463031A5088801025F2D02656E";

    match parse_tlv(data_raw.to_string()) {
        Ok(tags) => {
            assert_eq!(tags.len(), 5);
            assert_eq!(tags[0].id, vec![0x6F]);
            assert_eq!(tags[1].id, vec![0x84]);
            assert_eq!(tags[2].id, vec![0xA5]);
            assert_eq!(tags[3].id, vec![0x88]);
            assert_eq!(tags[4].id, vec![0x5f, 0x2D]);
        }
        Err(e) => panic!("Error parsing TLV: {:?}", e),
    }
}

#[test]
fn test_decode_empty() {
    let tags = parse_tlv_vec(&[]).expect("empty input must decode");
    assert!(tags.is_empty());
}

#[test]
fn test_nested_levels_and_names() {
    let data = vec![
        0x6F, 0x1A, 0x84, 0x0E, 0x31, 0x50, 0x41, 0x59, 0x2E, 0x53, 0x59, 0x53, 0x2E, 0x44, 0x44,
        0x46, 0x30, 0x31, 0xA5, 0x08, 0x88, 0x01, 0x02, 0x5F, 0x2D, 0x02, 0x65, 0x6E,
    ];
    let tags = parse_tlv_vec(&data).expect("message must decode");
    assert_eq!(tags.len(), 5);
    let levels: Vec<usize> = tags.iter().map(|t| t.nest_level).collect();
    assert_eq!(levels, vec![0, 1, 1, 2, 2]);
    assert_eq!(tags[0].name, "File Control Information (FCI) Template");
    assert_eq!(tags[1].name, "Dedicated File (DF) Name");
    assert_eq!(tags[2].name, "File Control Information (FCI) Proprietary Template");
    assert_eq!(tags[3].name, "Short File Identifier (SFI)");
    assert_eq!(tags[4].name, "Language Preference");
    assert_eq!(tags[1].length, 14);
    assert_eq!(tags[3].value, vec![0x02]);
    assert_eq!(tags[4].value, vec![0x65, 0x6E]);
}

#[test]
fn test_top_level_only() {
    let data = vec![
        0x5F, 0x2A, 0x02, 0x03, 0x64, 0x82, 0x02, 0x08, 0x00, 0x95, 0x05, 0x80, 0x00, 0x00, 0x00,
        0x00, 0x9A, 0x03, 0x23, 0x11, 0x25, 0x9C, 0x01, 0x00, 0x9F, 0x02, 0x06, 0x00, 0x00, 0x00,
        0x00, 0x00, 0x01, 0x9F, 0x10, 0x20, 0x0F, 0xA5, 0x00, 0xA0, 0x83, 0x09, 0xC0, 0x00, 0xF4,
        0x56, 0xB8, 0x28, 0x60, 0x06, 0x4C, 0x95, 0x0F, 0x00, 0x00, 0x00, 0x00, 0x00, 0x00, 0x00,
        0x00, 0x00, 0x00, 0x00, 0x00, 0x00, 0x00, 0x00, 0x9F, 0x1A, 0x02, 0x03, 0x64, 0x9F, 0x26,
        0x08, 0xD5, 0x47, 0x07, 0x94, 0x27, 0xA4, 0x20, 0xB7, 0x9F, 0x27, 0x01, 0x80, 0x9F, 0x36,
        0x02, 0x00, 0xFC, 0x9F, 0x37, 0x04, 0x20, 0x47, 0x5A, 0x30, 0x9F, 0x6E, 0x04, 0x10, 0x30,
        0x00, 0x00, 0x9F, 0x08, 0x02, 0x00, 0x01,
    ];
    let tags = parse_tlv_vec(&data).expect("message must decode");
    assert_eq!(tags.len(), 14);
    for t in &tags {
        assert_eq!(t.nest_level, 0);
    }
}

#[test]
fn test_constructed_values_decode() {
    // every constructed tag's value must itself decode successfully
    let data = vec![
        0x6F, 0x1A, 0x84, 0x0E, 0x31, 0x50, 0x41, 0x59, 0x2E, 0x53, 0x59, 0x53, 0x2E, 0x44, 0x44,
        0x46, 0x30, 0x31, 0xA5, 0x08, 0x88, 0x01, 0x02, 0x5F, 0x2D, 0x02, 0x65, 0x6E,
    ];
    let tags = parse_tlv_vec(&data).expect("message must decode");
    let mut constructed = 0;
    for t in &tags {
        if t.is_constructed() {
            constructed += 1;
            assert!(parse_tlv_vec(&t.value).is_ok());
        }
    }
    assert_eq!(constructed, 2);
}

#[test]
fn test_long_form_length() {
    // 0x81: one length byte follows
    let mut data = vec![0x84, 0x81, 0x03, 0xAA, 0xBB, 0xCC];
    let tags = parse_tlv_vec(&data).expect("long-form length must decode");
    assert_eq!(tags.len(), 1);
    assert_eq!(tags[0].length, 3);
    assert_eq!(tags[0].value, vec![0xAA, 0xBB, 0xCC]);

    // 0x80: zero length bytes, an empty value
    let tags = parse_tlv_vec(&[0x84, 0x80]).expect("zero length bytes must decode");
    assert_eq!(tags.len(), 1);
    assert_eq!(tags[0].length, 0);
    assert!(tags[0].value.is_empty());

    // 0x82: two length bytes, big-endian
    data = vec![0x84, 0x82, 0x01, 0x04];
    let mut value = vec![0u8; 0x0104];
    value[0] = 0x5A;
    data.extend_from_slice(&value);
    let tags = parse_tlv_vec(&data).expect("two length bytes must decode");
    assert_eq!(tags.len(), 1);
    assert_eq!(tags[0].length, 0x0104);
    assert_eq!(tags[0].value, value);
}

#[test]
fn test_truncated_inputs() {
    // identifier alone
    assert_eq!(parse_tlv_vec(&[0x6F]).unwrap_err(), DecodeError::TruncatedInput);
    // continuation byte present, length byte missing
    assert_eq!(parse_tlv_vec(&[0x5F, 0x2D]).unwrap_err(), DecodeError::TruncatedInput);
    // short-form length declares more value bytes than remain
    assert_eq!(parse_tlv_vec(&[0x6F, 0x05, 0x01]).unwrap_err(), DecodeError::TruncatedInput);
    // long-form length bytes cut short
    assert_eq!(parse_tlv_vec(&[0x84, 0x81]).unwrap_err(), DecodeError::TruncatedInput);
    assert_eq!(parse_tlv_vec(&[0x84, 0x82, 0x00]).unwrap_err(), DecodeError::TruncatedInput);
    // long-form declared value cut short
    assert_eq!(parse_tlv_vec(&[0x84, 0x81, 0x05, 0x01]).unwrap_err(), DecodeError::TruncatedInput);
    // truncation inside a nested element fails the whole decode
    assert_eq!(
        parse_tlv_vec(&[0x6F, 0x03, 0x84, 0x0E, 0x31]).unwrap_err(),
        DecodeError::TruncatedInput
    );
}

#[test]
fn test_truncated_prefixes_of_valid_message() {
    let data = vec![
        0x6F, 0x1A, 0x84, 0x0E, 0x31, 0x50, 0x41, 0x59, 0x2E, 0x53, 0x59, 0x53, 0x2E, 0x44, 0x44,
        0x46, 0x30, 0x31, 0xA5, 0x08, 0x88, 0x01, 0x02, 0x5F, 0x2D, 0x02, 0x65, 0x6E,
    ];
    // the message is one top-level element, so every proper nonempty prefix
    // cuts it short
    for cut in 1..data.len() {
        assert_eq!(
            parse_tlv_vec(&data[..cut]).unwrap_err(),
            DecodeError::TruncatedInput,
            "cut at {} must fail",
            cut
        );
    }
}

#[test]
fn test_unknown_identifier() {
    // a primitive identifier absent from the registry still decodes
    let tags = parse_tlv_vec(&[0xC1, 0x01, 0xFF]).expect("unknown tag must decode");
    assert_eq!(tags.len(), 1);
    assert_eq!(tags[0].name, "unknown");
    // same for a two-byte identifier
    let tags = parse_tlv_vec(&[0x9F, 0xF0, 0x00]).expect("unknown tag must decode");
    assert_eq!(tags.len(), 1);
    assert_eq!(tags[0].id, vec![0x9F, 0xF0]);
    assert_eq!(tags[0].name, "unknown");
}

#[test]
fn test_invalid_hex() {
    assert_eq!(parse_tlv("6F1".to_string()).unwrap_err(), DecodeError::InvalidHex);
    assert_eq!(parse_tlv("6Z00".to_string()).unwrap_err(), DecodeError::InvalidHex);
    assert_eq!(parse_tlv("zz".to_string()).unwrap_err(), DecodeError::InvalidHex);
}

#[test]
fn test_hex_round_trip() {
    let data = vec![
        0x6F, 0x1A, 0x84, 0x0E, 0x31, 0x50, 0x41, 0x59, 0x2E, 0x53, 0x59, 0x53, 0x2E, 0x44, 0x44,
        0x46, 0x30, 0x31, 0xA5, 0x08, 0x88, 0x01, 0x02, 0x5F, 0x2D, 0x02, 0x65, 0x6E,
    ];
    let from_bytes = parse_tlv_vec(&data).expect("bytes must decode");
    let from_hex = parse_tlv(hex::encode(&data)).expect("hex text must decode");
    assert_eq!(from_bytes.len(), from_hex.len());
    for (a, b) in from_bytes.iter().zip(from_hex.iter()) {
        assert_eq!(a.id, b.id);
        assert_eq!(a.name, b.name);
        assert_eq!(a.length, b.length);
        assert_eq!(a.value, b.value);
        assert_eq!(a.nest_level, b.nest_level);
    }
}

#[test]
fn test_truncated_errors_through_hex() {
    // a hex-valid text whose bytes are cut short fails with TruncatedInput
    assert_eq!(parse_tlv("6F05".to_string()).unwrap_err(), DecodeError::TruncatedInput);
}
