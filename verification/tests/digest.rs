use rumiga::digest::StateDigest;

#[test]
fn matches_published_fnv1a_vectors() {
    for (input, expected) in [
        (&b""[..], 0xcbf2_9ce4_8422_2325_u64),
        (&b"a"[..], 0xaf63_dc4c_8601_ec8c),
        (&b"foobar"[..], 0x8594_4171_f739_67e8),
        (&b"hello"[..], 0xa430_d846_80aa_bd0b),
    ] {
        let mut digest = StateDigest::new();
        digest.write_bytes(input);
        assert_eq!(digest.finish(), expected, "input {input:?}");
    }
}

#[test]
fn field_order_changes_the_digest() {
    let mut first = StateDigest::new();
    first.write_u16(1);
    first.write_u32(2);

    let mut second = StateDigest::new();
    second.write_u32(2);
    second.write_u16(1);

    assert_ne!(first.finish(), second.finish());
}

#[test]
fn width_is_part_of_the_digest() {
    let mut narrow = StateDigest::new();
    narrow.write_u16(1);

    let mut wide = StateDigest::new();
    wide.write_u32(1);

    assert_ne!(narrow.finish(), wide.finish());
}

#[test]
fn integers_are_written_little_endian() {
    let mut by_value = StateDigest::new();
    by_value.write_u32(0x0403_0201);
    let mut by_bytes = StateDigest::new();
    by_bytes.write_bytes(&[1, 2, 3, 4]);
    assert_eq!(by_value.finish(), by_bytes.finish());

    let mut slice = StateDigest::new();
    slice.write_u16_slice(&[0x0201, 0x0403]);
    let mut words = StateDigest::new();
    words.write_u16(0x0201);
    words.write_u16(0x0403);
    assert_eq!(slice.finish(), words.finish());

    let mut wide = StateDigest::new();
    wide.write_u64(0x0807_0605_0403_0201);
    let mut wide_bytes = StateDigest::new();
    wide_bytes.write_bytes(&[1, 2, 3, 4, 5, 6, 7, 8]);
    assert_eq!(wide.finish(), wide_bytes.finish());
}
