use tls_codec::endian::ByteOrder;
use tls_codec::error::Error;
use tls_codec::ser::{bytes_size, to_bytes, Serialize, Serializer};

fn be<T: Serialize>(value: &T) -> Vec<u8> {
    to_bytes(value, ByteOrder::BigEndian).unwrap()
}

fn le<T: Serialize>(value: &T) -> Vec<u8> {
    to_bytes(value, ByteOrder::LittleEndian).unwrap()
}

#[test]
fn u8_is_one_byte_in_either_order() {
    assert_eq!(be(&0xABu8), vec![0xAB]);
    assert_eq!(le(&0xABu8), vec![0xAB]);
}

#[test]
fn i8_is_twos_complement() {
    assert_eq!(be(&-1i8), vec![0xFF]);
    assert_eq!(be(&-128i8), vec![0x80]);
    assert_eq!(le(&5i8), vec![0x05]);
}

#[test]
fn u16_in_both_orders() {
    assert_eq!(be(&0x1234u16), vec![0x12, 0x34]);
    assert_eq!(le(&0x1234u16), vec![0x34, 0x12]);
}

#[test]
fn i16_in_both_orders() {
    assert_eq!(be(&-2i16), vec![0xFF, 0xFE]);
    assert_eq!(le(&-2i16), vec![0xFE, 0xFF]);
    assert_eq!(be(&0x0102i16), vec![0x01, 0x02]);
}

#[test]
fn u32_in_both_orders() {
    assert_eq!(be(&0x0102_0304u32), vec![1, 2, 3, 4]);
    assert_eq!(le(&0x0102_0304u32), vec![4, 3, 2, 1]);
}

#[test]
fn i32_in_both_orders() {
    assert_eq!(be(&-0x0102_0304i32), vec![0xFE, 0xFD, 0xFC, 0xFC]);
    assert_eq!(le(&-0x0102_0304i32), vec![0xFC, 0xFC, 0xFD, 0xFE]);
}

#[test]
fn u64_in_both_orders() {
    assert_eq!(be(&0x0102_0304_0506_0708u64), vec![1, 2, 3, 4, 5, 6, 7, 8]);
    assert_eq!(le(&0x0102_0304_0506_0708u64), vec![8, 7, 6, 5, 4, 3, 2, 1]);
}

#[test]
fn i64_in_both_orders() {
    assert_eq!(be(&-2i64), vec![0xFF, 0xFF, 0xFF, 0xFF, 0xFF, 0xFF, 0xFF, 0xFE]);
    assert_eq!(le(&-2i64), vec![0xFE, 0xFF, 0xFF, 0xFF, 0xFF, 0xFF, 0xFF, 0xFF]);
}

#[test]
fn u128_in_both_orders() {
    let v = 0x0102_0304_0506_0708_090A_0B0C_0D0E_0F10u128;
    assert_eq!(be(&v), (1..=16).collect::<Vec<u8>>());
    assert_eq!(le(&v), (1..=16).rev().collect::<Vec<u8>>());
}

#[test]
fn i128_in_both_orders() {
    let mut expected = vec![0xFFu8; 16];
    expected[15] = 0xFE;
    assert_eq!(be(&-2i128), expected);
    expected.reverse();
    assert_eq!(le(&-2i128), expected);
}

#[test]
fn bool_is_zero_or_one() {
    assert_eq!(be(&true), vec![1]);
    assert_eq!(be(&false), vec![0]);
}

#[test]
fn char_is_its_low_byte() {
    assert_eq!(be(&'A'), vec![0x41]);
    assert_eq!(be(&'\u{141}'), vec![0x41]);
}

#[test]
fn unit_is_nothing() {
    assert_eq!(be(&()), Vec::<u8>::new());
}

#[test]
fn option_absent_is_a_zero_byte_and_present_is_the_value() {
    assert_eq!(be(&None::<u16>), vec![0]);
    assert_eq!(be(&Some(0x0A0Bu16)), vec![0x0A, 0x0B]);
}

#[test]
fn vec_is_its_elements_without_a_length() {
    assert_eq!(be(&vec![0x0102u16, 0x0304]), vec![1, 2, 3, 4]);
    assert_eq!(le(&vec![0x0102u16, 0x0304]), vec![2, 1, 4, 3]);
    assert_eq!(be(&Vec::<u32>::new()), Vec::<u8>::new());
}

#[test]
fn array_is_its_elements() {
    assert_eq!(be(&[7u8, 8, 9]), vec![7, 8, 9]);
    assert_eq!(be(&[0x0102u16; 2]), vec![1, 2, 1, 2]);
}

#[test]
fn str_and_bytes_are_raw() {
    let mut s = Serializer::new(ByteOrder::BigEndian);
    s.serialize_str("hi");
    s.serialize_bytes(&[0, 255]);
    s.serialize_str("");
    assert_eq!(s.into_bytes(), vec![b'h', b'i', 0, 255]);
}

#[test]
fn str_is_utf8() {
    let mut s = Serializer::new(ByteOrder::LittleEndian);
    s.serialize_str("é");
    assert_eq!(s.into_bytes(), vec![0xC3, 0xA9]);
}

#[test]
fn serializer_appends_in_call_order() {
    let mut s = Serializer::new(ByteOrder::BigEndian);
    s.serialize_bool(true);
    s.serialize_u8(2);
    s.serialize_i8(-3);
    s.serialize_u16(0x0405);
    s.serialize_i16(0x0607);
    s.serialize_u32(0x0809_0A0B);
    s.serialize_char('c');
    s.serialize_none();
    s.serialize_some(&0x0D0Eu16);
    s.serialize_unit();
    s.serialize_element(&0x0Fu8);
    s.serialize_field(&0x1011u16);
    s.serialize_newtype_variant(&0x12u8);
    assert_eq!(s.size(), Some(19));
    assert_eq!(
        s.into_bytes(),
        vec![1, 2, 0xFD, 4, 5, 6, 7, 8, 9, 10, 11, b'c', 0, 13, 14, 15, 16, 17, 18]
    );
}

#[test]
fn unit_variant_writes_no_tag() {
    let mut s = Serializer::new(ByteOrder::BigEndian);
    s.serialize_unit_variant(3);
    assert_eq!(s.size(), Some(0));
    assert_eq!(s.into_bytes(), Vec::<u8>::new());
    let mut s = Serializer::new(ByteOrder::LittleEndian);
    s.serialize_u8(9);
    s.serialize_unit_variant(1);
    s.serialize_unit_struct();
    s.serialize_u8(8);
    assert_eq!(s.into_bytes(), vec![9, 8]);
}

#[test]
fn sizing_pass_counts_and_stores_nothing() {
    let mut s = Serializer::new_sizing(ByteOrder::BigEndian);
    s.serialize_u64(1);
    s.serialize_i128(-1);
    s.serialize_bytes(&[1, 2, 3]);
    s.serialize_str("abcd");
    s.serialize_i32(0);
    s.serialize_i64(0);
    s.serialize_u128(0);
    assert_eq!(s.size(), Some(8 + 16 + 3 + 4 + 4 + 8 + 16));
    assert_eq!(s.into_bytes(), Vec::<u8>::new());
}

#[test]
fn new_serializer_is_empty() {
    let s = Serializer::new(ByteOrder::BigEndian);
    assert_eq!(s.size(), Some(0));
    assert_eq!(s.into_bytes(), Vec::<u8>::new());
}

#[test]
fn bytes_size_is_the_length_of_to_bytes() {
    let value = vec![Some(0x0102_0304u32), None, Some(5)];
    assert_eq!(bytes_size(&value), Ok::<usize, Error>(9));
    assert_eq!(be(&value).len(), 9);
    assert_eq!(le(&value).len(), 9);
    assert_eq!(bytes_size(&()), Ok(0));
}
