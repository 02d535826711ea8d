use hashed_storage::codec::Storable;

#[test]
fn integers_are_little_endian() {
    assert_eq!(0x0102_0304u32.encode(), vec![4, 3, 2, 1]);
    assert_eq!(0u32.encode(), vec![0, 0, 0, 0]);
    assert_eq!(u32::MAX.encode(), vec![255, 255, 255, 255]);
    assert_eq!((-1i64).encode(), vec![255; 8]);
    assert_eq!(i64::MIN.encode(), vec![0, 0, 0, 0, 0, 0, 0, 0x80]);
    assert_eq!(1i64.encode(), vec![1, 0, 0, 0, 0, 0, 0, 0]);
}

#[test]
fn integers_decode_from_the_front() {
    assert_eq!(u32::decode(&[4, 3, 2, 1]), Some(0x0102_0304));
    assert_eq!(u32::decode(&[4, 3, 2, 1, 0]), Some(0x0102_0304));
    assert_eq!(u32::decode(&[4, 3, 2]), None);
    assert_eq!(u32::decode(&[]), None);
    assert_eq!(i64::decode(&[0xfe, 255, 255, 255, 255, 255, 255, 255]), Some(-2));
    assert_eq!(i64::decode(&[0, 0, 0, 0, 0, 0, 0, 0x80, 1]), Some(i64::MIN));
    assert_eq!(i64::decode(&[255, 255, 255, 255, 255, 255, 255, 0x7f]), Some(i64::MAX));
    assert_eq!(i64::decode(&[1, 2, 3, 4, 5, 6, 7]), None);
}

#[test]
fn bools_are_one_byte() {
    assert_eq!(true.encode(), vec![1]);
    assert_eq!(false.encode(), vec![0]);
    assert_eq!(bool::decode(&[1]), Some(true));
    assert_eq!(bool::decode(&[0]), Some(false));
    assert_eq!(bool::decode(&[0, 7]), Some(false));
    assert_eq!(bool::decode(&[2]), None);
    assert_eq!(bool::decode(&[255]), None);
    assert_eq!(bool::decode(&[]), None);
}

#[test]
fn byte_strings_carry_a_compact_length() {
    assert_eq!(Vec::<u8>::new().encode(), vec![0]);
    assert_eq!(vec![5u8].encode(), vec![4, 5]);
    assert_eq!(b"Hello world".to_vec().encode(), b"\x2cHello world".to_vec());
    assert_eq!(Vec::<u8>::decode(&[0]), Some(Vec::new()));
    assert_eq!(Vec::<u8>::decode(&[4, 5]), Some(vec![5]));
    assert_eq!(Vec::<u8>::decode(&[4, 5, 6]), Some(vec![5]));
    assert_eq!(Vec::<u8>::decode(&[4]), None);
    assert_eq!(Vec::<u8>::decode(&[]), None);
    let long = vec![1u8; 0x4000];
    let encoded = long.encode();
    assert_eq!(encoded[..4], [0x02, 0x00, 0x01, 0x00]);
    assert_eq!(Vec::<u8>::decode(&encoded), Some(long));
}

#[test]
fn defaults_are_the_zero_values() {
    assert_eq!(u32::default_value(), 0);
    assert_eq!(i64::default_value(), 0);
    assert_eq!(bool::default_value(), false);
    assert_eq!(Vec::<u8>::default_value(), Vec::<u8>::new());
}
