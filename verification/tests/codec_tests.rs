use elf_parser::endianness::{read16, read32, read64, Endianness};

#[test]
fn read16_little_endian() {
    assert_eq!(read16(&[0x34, 0x12], Endianness::LittleEndian), 0x1234);
    assert_eq!(read16(&[0x00, 0x00], Endianness::LittleEndian), 0);
    assert_eq!(read16(&[0xFF, 0xFF], Endianness::LittleEndian), 0xFFFF);
}

#[test]
fn read16_big_endian() {
    assert_eq!(read16(&[0x34, 0x12], Endianness::BigEndian), 0x3412);
    assert_eq!(read16(&[0xAB, 0xCD], Endianness::BigEndian), 0xABCD);
}

#[test]
fn read32_both_orders() {
    assert_eq!(
        read32(&[0x01, 0x02, 0x03, 0x04], Endianness::LittleEndian),
        0x04030201
    );
    assert_eq!(
        read32(&[0x01, 0x02, 0x03, 0x04], Endianness::BigEndian),
        0x01020304
    );
}

#[test]
fn read64_both_orders() {
    let b = [0x01, 0x02, 0x03, 0x04, 0x05, 0x06, 0x07, 0x08];
    assert_eq!(read64(&b, Endianness::LittleEndian), 0x0807060504030201);
    assert_eq!(read64(&b, Endianness::BigEndian), 0x0102030405060708);
}

#[test]
fn codec_round_trips_bytes() {
    let two = [0x9A, 0x3C];
    assert_eq!(read16(&two, Endianness::LittleEndian).to_le_bytes(), two);
    assert_eq!(read16(&two, Endianness::BigEndian).to_be_bytes(), two);

    let four = [0xDE, 0xAD, 0xBE, 0xEF];
    assert_eq!(read32(&four, Endianness::LittleEndian).to_le_bytes(), four);
    assert_eq!(read32(&four, Endianness::BigEndian).to_be_bytes(), four);

    let eight = [0x11, 0x22, 0x33, 0x44, 0x55, 0x66, 0x77, 0x88];
    assert_eq!(read64(&eight, Endianness::LittleEndian).to_le_bytes(), eight);
    assert_eq!(read64(&eight, Endianness::BigEndian).to_be_bytes(), eight);
}

#[test]
fn codec_distinct_orders_differ() {
    let b = [0x01, 0x00, 0x00, 0x02];
    assert_ne!(
        read32(&b, Endianness::LittleEndian),
        read32(&b, Endianness::BigEndian)
    );
}
