use emv_tlv_parser::get_name_by_id;
use emv_tlv_parser::parse_tlv_vec;
use emv_tlv_parser::TagDefinition;

#[test]
fn test_registry_lookup() {
    assert_eq!(get_name_by_id(vec![0x9F, 0x26]), "Application Cryptogram");
    assert_eq!(get_name_by_id(vec![0x6F]), "File Control Information (FCI) Template");
    assert_eq!(get_name_by_id(vec![0x5F, 0x2A]), "Transaction Currency Code");
    assert_eq!(get_name_by_id(vec![0xBF, 0x0C]), "File Control Information (FCI) Issuer Discretionary Data");
    assert_eq!(get_name_by_id(vec![0x9F, 0x23]), "Upper Consecutive Offline Limit");
    // absent identifiers resolve to the sentinel, not an error
    assert_eq!(get_name_by_id(vec![0x12]), "unknown");
    assert_eq!(get_name_by_id(vec![0x9F, 0xF0]), "unknown");
    assert_eq!(get_name_by_id(vec![]), "unknown");
    assert_eq!(get_name_by_id(vec![0x9F, 0x26, 0x00]), "unknown");
}

#[test]
fn test_tag_definition_new() {
    let def = TagDefinition::new(&[0x9F, 0x26], "Application Cryptogram");
    assert_eq!(def.id, &[0x9F, 0x26][..]);
    assert_eq!(def.name, "Application Cryptogram");
}

#[test]
fn test_render_top_level() {
    let tags = parse_tlv_vec(&[0x88, 0x01, 0x02]).expect("message must decode");
    assert_eq!(tags.len(), 1);
    let expected = format!(
        "  Id: {:5} | {} | Len: {:3} | Val: {}",
        "88", "Short File Identifier (SFI)", 1, "02"
    );
    assert_eq!(tags[0].render(), expected);
}

#[test]
fn test_render_nested() {
    let data = vec![
        0x6F, 0x1A, 0x84, 0x0E, 0x31, 0x50, 0x41, 0x59, 0x2E, 0x53, 0x59, 0x53, 0x2E, 0x44, 0x44,
        0x46, 0x30, 0x31, 0xA5, 0x08, 0x88, 0x01, 0x02, 0x5F, 0x2D, 0x02, 0x65, 0x6E,
    ];
    let tags = parse_tlv_vec(&data).expect("message must decode");
    // nest level 2: two indentation units before the line
    let expected_sfi = format!(
        "{}  Id: {:5} | {} | Len: {:3} | Val: {}",
        "  ".repeat(2),
        "88",
        "Short File Identifier (SFI)",
        1,
        "02"
    );
    assert_eq!(tags[3].render(), expected_sfi);
    // a two-byte identifier renders as two space-separated hex pairs
    let expected_lang = format!(
        "{}  Id: {:5} | {} | Len: {:3} | Val: {}",
        "  ".repeat(2),
        "5F 2D",
        "Language Preference",
        2,
        "65 6E"
    );
    assert_eq!(tags[4].render(), expected_lang);
    // the top-level constructed tag renders its whole value in hex
    let rendered = tags[0].render();
    assert!(rendered.starts_with("  Id: 6F    | File Control Information (FCI) Template | Len:  26 | Val: 84 0E 31"));
}
