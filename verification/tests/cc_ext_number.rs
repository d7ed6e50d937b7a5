use tetra_entities::cmce::cc_bs::pdu;
use tetra_entities::cmce::cc_bs::shared;

#[test]
fn external_subscriber_number_supports_24_digits() {
    let number = "123456789012345678901234";
    let field = pdu::encode_external_subscriber_number(number).expect("field should be generated");
    assert_eq!(field.len, 96);
    assert_ne!(field.data, 0);
    assert_eq!(pdu::decode_external_subscriber_number(&field), number);
}

#[test]
fn external_subscriber_number_truncates_to_24_digits() {
    let number = "1234567890123456789012345";
    let field = pdu::encode_external_subscriber_number(number).expect("field should be generated");
    assert_eq!(field.len, 96);
    assert_eq!(pdu::decode_external_subscriber_number(&field), "123456789012345678901234");
}

#[test]
fn external_subscriber_number_supports_16_digits() {
    let number = "1234567890123456";
    let field = shared::encode_external_subscriber_number(number).expect("field should be generated");
    assert_eq!(field.len, 64);
    assert_eq!(shared::decode_external_subscriber_number(&field), number);
}

#[test]
fn external_subscriber_number_truncates_to_16_digits() {
    let number = "12345678901234567";
    let field = shared::encode_external_subscriber_number(number).expect("field should be generated");
    assert_eq!(field.len, 64);
    assert_eq!(shared::decode_external_subscriber_number(&field), "1234567890123456");
}

#[test]
fn ext_number_skips_unsupported_characters_and_keeps_star_and_hash() {
    let field = shared::encode_external_subscriber_number(" +49 (30) *12#x ").expect("field");
    assert_eq!(field.len, 4 * 8);
    assert_eq!(field.data, 0x4930_a12b_0000_0000);
    assert_eq!(shared::decode_external_subscriber_number(&field), "4930*12#");
    let wide = pdu::encode_external_subscriber_number("*9#").expect("field");
    assert_eq!(wide.len, 12);
    assert_eq!(wide.data, 0xa9b);
    assert_eq!(pdu::decode_external_subscriber_number(&wide), "*9#");
}

#[test]
fn ext_number_without_digits_is_none() {
    assert!(shared::encode_external_subscriber_number("   ").is_none());
    assert!(shared::encode_external_subscriber_number("abc").is_none());
    assert!(pdu::encode_external_subscriber_number("").is_none());
}

#[test]
fn ext_number_decoder_drops_filler_nibbles() {
    let field = tetra_entities::cmce::type3::Type3FieldGeneric { field_id: 2, len: 12, data: 0x1f20_0000_0000_0000 };
    assert_eq!(shared::decode_external_subscriber_number(&field), "12");
    let empty = tetra_entities::cmce::type3::Type3FieldGeneric { field_id: 2, len: 0, data: u64::MAX };
    assert_eq!(shared::decode_external_subscriber_number(&empty), "");
    let wide = tetra_entities::cmce::type3::Type3FieldWide { field_id: 2, len: 8, data: 0xe7 };
    assert_eq!(pdu::decode_external_subscriber_number(&wide), "7");
}
