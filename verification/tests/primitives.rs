use tls_codec::error::Error;
use tls_codec::tls::{be_u16, be_u32, be_u8, take, u24, Buffer, Deserialize};

#[test]
fn buffer_reports_declared_length() {
    let data = [1u8, 2, 3, 4];
    assert_eq!(Buffer::new(&data, 4).length(), 4);
    assert_eq!(Buffer::new(&data, 2).length(), 2);
    assert_eq!(Buffer::new(&data, 0).length(), 0);
}

#[test]
fn be_u8_reads_one_byte() {
    let data = [7u8, 8];
    let (rest, v) = be_u8(Buffer::new(&data, 2)).unwrap();
    assert_eq!(v, 7);
    assert_eq!(rest.length(), 1);
    let (rest, v) = be_u8(rest).unwrap();
    assert_eq!(v, 8);
    assert_eq!(rest.length(), 0);
    assert_eq!(be_u8(rest).err(), Some(Error::UnexpectedEof));
}

#[test]
fn be_u16_reads_big_endian() {
    let data = [0x12u8, 0x34, 0x56];
    let (rest, v) = be_u16(Buffer::new(&data, 3)).unwrap();
    assert_eq!(v, 0x1234);
    assert_eq!(rest.length(), 1);
    assert_eq!(be_u16(rest).err(), Some(Error::UnexpectedEof));
}

#[test]
fn be_u32_reads_big_endian() {
    let data = [0x01u8, 0x02, 0x03, 0x04, 0x05];
    let (rest, v) = be_u32(Buffer::new(&data, 5)).unwrap();
    assert_eq!(v, 0x0102_0304);
    assert_eq!(rest.length(), 1);
}

#[test]
fn be_u32_needs_four_bytes() {
    let data = [0x01u8, 0x02, 0x03];
    assert_eq!(be_u32(Buffer::new(&data, 3)).err(), Some(Error::UnexpectedEof));
    assert_eq!(be_u32(Buffer::new(&data, 2)).err(), Some(Error::UnexpectedEof));
}

#[test]
fn take_splits_off_bytes() {
    let data = [1u8, 2, 3, 4, 5];
    let (rest, taken) = take(Buffer::new(&data, 5), 2).unwrap();
    assert_eq!(taken, &[1, 2]);
    assert_eq!(rest.length(), 3);
    let (rest, taken) = take(rest, 3).unwrap();
    assert_eq!(taken, &[3, 4, 5]);
    assert_eq!(rest.length(), 0);
    let (rest, taken) = take(rest, 0).unwrap();
    assert_eq!(taken, &[] as &[u8]);
    assert_eq!(rest.length(), 0);
}

#[test]
fn reads_stop_at_declared_length_not_at_slice_end() {
    let data = [1u8, 2, 3, 4, 5, 6];
    let buffer = Buffer::new(&data, 1);
    assert_eq!(be_u16(buffer).err(), Some(Error::UnexpectedEof));
    assert_eq!(take(buffer, 2).err(), Some(Error::UnexpectedEof));
    let (rest, v) = be_u8(buffer).unwrap();
    assert_eq!(v, 1);
    assert_eq!(be_u8(rest).err(), Some(Error::UnexpectedEof));
}

#[test]
fn primitive_decoders_agree_with_readers() {
    let data = [0xAAu8, 0xBB, 0xCC, 0xDD];
    let (_, a) = u8::deserialize(Buffer::new(&data, 4)).unwrap();
    let (_, b) = u16::deserialize(Buffer::new(&data, 4)).unwrap();
    let (_, c) = u32::deserialize(Buffer::new(&data, 4)).unwrap();
    assert_eq!((a, b, c), (0xAA, 0xAABB, 0xAABB_CCDD));
}

#[test]
fn u24_from_wider_integers_keeps_low_24_bits() {
    assert_eq!(u24::from(0x01_FF_FF_FFu32).to_usize(), 0xFF_FF_FF);
    assert_eq!(u24::from(0x12_34_56u32).to_usize(), 0x12_34_56);
    assert_eq!(u24::from(0xFFFFu16).to_usize(), 0xFFFF);
    assert_eq!(u24::from(0x0100_0005usize).to_usize(), 5);
}

#[test]
fn u24_to_u16_keeps_low_16_bits() {
    assert_eq!(u24::from(0x12_34_56u32).to_u16(), 0x3456);
    assert_eq!(u24::from(7u16).to_u16(), 7);
}

#[test]
fn u24_from_bytes_is_big_endian() {
    assert_eq!(u24::from_bytes(&[0x01, 0x02, 0x03]).to_usize(), 0x01_02_03);
    assert_eq!(u24::from_bytes(&[0xFF, 0xFF, 0xFF, 0x00]).to_usize(), 0xFF_FF_FF);
    assert_eq!(u24::from_bytes(&[0, 0, 0]), u24::from(0u16));
}

#[test]
fn u24_deserialize_reads_three_bytes() {
    let data = [0x00u8, 0x01, 0x02, 0x03];
    let (rest, v) = u24::deserialize(Buffer::new(&data, 4)).unwrap();
    assert_eq!(v.to_usize(), 0x0102);
    assert_eq!(rest.length(), 1);
    assert_eq!(u24::deserialize(Buffer::new(&data, 2)).err(), Some(Error::UnexpectedEof));
}
