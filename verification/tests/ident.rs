use soulcrush::ident::Id;

#[test]
fn an_identifier_is_written_in_hyphenated_lower_case() {
    let id = Id::from_u128(0xa1a2a3a4b1b2c1c2d1d2d3d4d5d6d7d8);
    assert_eq!(id.to_text(), "a1a2a3a4-b1b2-c1c2-d1d2-d3d4d5d6d7d8");
    assert_eq!(
        Id::from_u128(0).to_text(),
        "00000000-0000-0000-0000-000000000000"
    );
    assert_eq!(
        Id::from_u128(u128::MAX).to_text(),
        "ffffffff-ffff-ffff-ffff-ffffffffffff"
    );
    assert_eq!(
        Id::from_u128(0x0123456789abcdef0123456789abcdef).to_text(),
        "01234567-89ab-cdef-0123-456789abcdef"
    );
}

#[test]
fn a_hyphenated_text_is_read_as_its_value() {
    assert_eq!(
        Id::parse_str("550e8400-e29b-41d4-a716-446655440000"),
        Ok(Id::from_u128(0x550e8400e29b41d4a716446655440000))
    );
    assert_eq!(
        Id::parse_str("A1A2A3A4-B1B2-C1C2-D1D2-D3D4D5D6D7D8"),
        Ok(Id::from_u128(0xa1a2a3a4b1b2c1c2d1d2d3d4d5d6d7d8))
    );
}

#[test]
fn writing_and_reading_an_identifier_gives_it_back() {
    for bits in [0u128, 1, 0x550e8400e29b41d4a716446655440000, u128::MAX] {
        let id = Id::from_u128(bits);
        assert_eq!(Id::parse_str(&id.to_text()), Ok(id));
    }
}

#[test]
fn a_malformed_text_is_rejected_with_a_message() {
    for text in ["", "not-a-uuid", "550e8400-e29b-41d4-a716-44665544000", "zzzzzzzz-zzzz-zzzz-zzzz-zzzzzzzzzzzz"] {
        match Id::parse_str(text) {
            Ok(id) => panic!("{text:?} was read as {id:?}"),
            Err(message) => assert!(!message.is_empty()),
        }
    }
}

#[test]
fn a_fresh_identifier_has_the_random_layout() {
    for _ in 0..64 {
        let id = Id::new_v4();
        assert_eq!((id.bits >> 76) & 0xf, 4);
        assert_eq!((id.bits >> 62) & 0x3, 2);
        let text = id.to_text();
        assert_eq!(text.len(), 36);
        assert_eq!(text.as_bytes()[14], b'4');
    }
}

#[test]
fn fresh_identifiers_differ() {
    assert_ne!(Id::new_v4(), Id::new_v4());
}
