use aflpp_cmplog::header::{AFLppCmpLogHeader, CMPLOG_KIND_INS, CMPLOG_KIND_RTN, HEADER_BYTES};

fn sample() -> AFLppCmpLogHeader {
    AFLppCmpLogHeader {
        hits: 6,
        id: 0x12_3456,
        shape: 7,
        kind: CMPLOG_KIND_RTN,
        attribute: 0b1010,
        overflow: true,
        reserved: 0x5,
    }
}

#[test]
fn header_packs_fields_at_their_bits() {
    let expected: u64 = 6
        | (0x12_3456u64 << 24)
        | (7u64 << 48)
        | (1u64 << 53)
        | (0b1010u64 << 55)
        | (1u64 << 59)
        | (0x5u64 << 60);
    assert_eq!(sample().to_word(), expected);
    assert_eq!(sample().to_word(), 0x5D27_1234_5600_0006);
}

#[test]
fn header_bytes_are_little_endian() {
    assert_eq!(
        sample().to_bytes(),
        [0x06, 0x00, 0x00, 0x56, 0x34, 0x12, 0x27, 0x5D]
    );
    assert_eq!(sample().to_bytes().len(), HEADER_BYTES);
}

#[test]
fn header_decodes_each_field() {
    let h = AFLppCmpLogHeader::from_bytes(&[0x06, 0x00, 0x00, 0x56, 0x34, 0x12, 0x27, 0x5D]);
    assert_eq!(h.hits, 6);
    assert_eq!(h.id, 0x12_3456);
    assert_eq!(h.shape, 7);
    assert_eq!(h.kind, CMPLOG_KIND_RTN);
    assert_eq!(h.attribute, 0b1010);
    assert!(h.overflow);
    assert_eq!(h.reserved, 0x5);
    assert_eq!(h, sample());
}

#[test]
fn header_round_trip_from_fields() {
    let h = sample();
    assert_eq!(AFLppCmpLogHeader::from_bytes(&h.to_bytes()), h);
    assert_eq!(AFLppCmpLogHeader::from_word(h.to_word()), h);
}

#[test]
fn header_round_trip_from_bytes() {
    let raw = [0xFF, 0x00, 0xAA, 0x55, 0x01, 0x80, 0x7E, 0xC3];
    assert_eq!(AFLppCmpLogHeader::from_bytes(&raw).to_bytes(), raw);
    let all = [0xFF; 8];
    let h = AFLppCmpLogHeader::from_bytes(&all);
    assert_eq!(h.hits, 0xFF_FFFF);
    assert_eq!(h.id, 0xFF_FFFF);
    assert_eq!(h.shape, 31);
    assert_eq!(h.kind, 3);
    assert_eq!(h.attribute, 15);
    assert!(h.overflow);
    assert_eq!(h.reserved, 15);
    assert_eq!(h.to_bytes(), all);
}

#[test]
fn header_of_zero_bytes_is_empty() {
    let h = AFLppCmpLogHeader::from_bytes(&[0; 8]);
    assert_eq!(
        h,
        AFLppCmpLogHeader {
            hits: 0,
            id: 0,
            shape: 0,
            kind: CMPLOG_KIND_INS,
            attribute: 0,
            overflow: false,
            reserved: 0,
        }
    );
}

#[test]
fn header_packing_cuts_fields_to_their_width() {
    let h = AFLppCmpLogHeader {
        hits: 0x0100_0007,
        id: 0xFF00_0001,
        shape: 0x27,
        kind: 0x05,
        attribute: 0x13,
        overflow: false,
        reserved: 0x1F,
    };
    let back = AFLppCmpLogHeader::from_word(h.to_word());
    assert_eq!(back.hits, 7);
    assert_eq!(back.id, 1);
    assert_eq!(back.shape, 7);
    assert_eq!(back.kind, 1);
    assert_eq!(back.attribute, 3);
    assert!(!back.overflow);
    assert_eq!(back.reserved, 15);
}
