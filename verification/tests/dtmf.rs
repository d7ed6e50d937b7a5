use tetra_entities::cmce::cc_bs::dtmf::{decode_dtmf, pack_type3_bits_to_bytes, DtmfKind};
use tetra_entities::cmce::type3::Type3FieldGeneric;

fn field(len: usize, data: u64) -> Type3FieldGeneric {
    Type3FieldGeneric { field_id: 5, len, data }
}

#[test]
fn legacy_digit_string() {
    let d = decode_dtmf(&field(16, 0x12ab_0000_0000_0000));
    assert_eq!(d.kind, DtmfKind::LegacyDigits);
    assert_eq!(d.digits, "12*#");
    assert_eq!(d.parsed_bits, 16);
    assert!(!d.malformed);
}

#[test]
fn tone_start_with_digits_and_other_types() {
    // type 000, digits 5 and D: 000 0101 1111 = 11 bits
    let d = decode_dtmf(&field(11, 0b0000_1011_111u64 << 53));
    assert_eq!(d.kind, DtmfKind::ToneStart);
    assert_eq!(d.digits, "5D");
    assert!(!d.malformed);
    // type 001 alone
    let d = decode_dtmf(&field(3, 0b001u64 << 61));
    assert_eq!(d.kind, DtmfKind::ToneEnd);
    assert!(!d.malformed);
    // type 000 with no digits is malformed
    let d = decode_dtmf(&field(3, 0));
    assert_eq!(d.kind, DtmfKind::ToneStart);
    assert!(d.malformed);
    // type 110 with a tail is reserved and malformed
    let d = decode_dtmf(&field(7, 0b110u64 << 61));
    assert_eq!(d.kind, DtmfKind::Reserved(6));
    assert!(d.malformed);
    // too short to hold a type
    let d = decode_dtmf(&field(2, 0));
    assert_eq!(d.kind, DtmfKind::Invalid);
    assert!(d.malformed);
    let d = decode_dtmf(&field(0, 0));
    assert_eq!(d.kind, DtmfKind::Invalid);
    assert_eq!(d.parsed_bits, 0);
    // Longer than the 64-bit payload: only 64 bits are read.
    let d = decode_dtmf(&field(72, 0x1111_1111_1111_1111));
    assert_eq!(d.kind, DtmfKind::LegacyDigits);
    assert_eq!(d.digits.len(), 16);
    assert_eq!(d.parsed_bits, 64);
    assert_eq!(d.full_len_bits, 72);
    assert!(d.malformed);
}

#[test]
fn type3_payload_packs_msb_first_and_masks_the_tail() {
    assert_eq!(pack_type3_bits_to_bytes(&field(0, 0xffff)), (0, vec![]));
    assert_eq!(pack_type3_bits_to_bytes(&field(12, 0xabcd_0000_0000_0000)), (12, vec![0xab, 0xc0]));
    assert_eq!(pack_type3_bits_to_bytes(&field(16, 0xabcd_0000_0000_0000)), (16, vec![0xab, 0xcd]));
    let (n, bytes) = pack_type3_bits_to_bytes(&field(100, 0x0102_0304_0506_0708));
    assert_eq!(n, 64);
    assert_eq!(bytes, vec![1, 2, 3, 4, 5, 6, 7, 8]);
}
