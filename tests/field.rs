use byteorder::{BigEndian, ByteOrder};
use s7::error::Error;
use s7::field::{Bool, Field, Offset, Word};

#[test]
fn field_test_bool() {
    let b = vec![1u8; 1];
    let mut field = Bool::new(888, Offset::new(8, 1), b).unwrap();
    field.set_value(true);

    let mut res: Vec<u8> = field.to_bytes();

    assert_eq!(res.len(), 1);
    assert_eq!(res[0], 3);
    assert_eq!(field.value(), true);

    field.set_value(false);
    res = field.to_bytes();

    assert_eq!(res.len(), 1);
    assert_eq!(res[0], 1);
    assert_eq!(field.value(), false);

    let bb = vec![0b00001000u8; 1];
    field = Bool::new(888, Offset::new(8, 4), bb).unwrap();
    field.set_value(true);

    res = field.to_bytes();

    assert_eq!(res.len(), 1);
    assert_eq!(res[0], 24);
    assert_eq!(field.value(), true);

    // a bit position past 7 is refused
    match Bool::new(888, Offset::new(8, 8), vec![0b00001000u8; 1]) {
        Ok(_) => {
            println!("should return an error at invalid bit offset 8");
            assert!(false)
        }
        Err(_) => {}
    }
}

#[test]
fn mod_test_bool() {
    let b = vec![1u8; 1];
    let mut field = Bool::new(888, Offset::new(8, 1), b).unwrap();
    field.set_value(true);

    let mut res: Vec<u8> = field.to_bytes();

    assert_eq!(res.len(), 1);
    assert_eq!(res[0], 3);
    assert!(field.value());

    field.set_value(false);
    res = field.to_bytes();

    assert_eq!(res.len(), 1);
    assert_eq!(res[0], 1);
    assert!(!field.value());

    let bb = vec![0b00001000u8; 1];
    field = Bool::new(888, Offset::new(8, 4), bb).unwrap();
    field.set_value(true);

    res = field.to_bytes();

    assert_eq!(res.len(), 1);
    assert_eq!(res[0], 24);
    assert!(field.value());

    assert!(Bool::new(888, Offset::new(8, 8), vec![0b00001000u8; 1]).is_err());
}

#[test]
fn field_test_word() {
    let val: u16 = 43981;
    let mut b = vec![0u8; Word::size() as usize];
    BigEndian::write_u16(b.as_mut_slice(), val);
    let mut field = Word::new(888, Offset::new(8, 0), b).unwrap();
    field.set_value(val);
    let result = field.to_bytes();

    assert_eq!(vec![171, 205], result);

    // a word has no bit offset
    match Word::new(888, Offset::new(8, 1), vec![12, 23]) {
        Ok(_) => {
            println!("should return an error at invalid bit offset 1. Words should not have a bit offset");
            assert!(false)
        }
        Err(_) => {}
    }
}

#[test]
fn mod_test_word() {
    let val: u16 = 43981;
    let mut b = vec![0u8; Word::size() as usize];
    BigEndian::write_u16(b.as_mut_slice(), val);
    let mut field = Word::new(888, Offset::new(8, 0), b).unwrap();
    field.set_value(val);
    let result = field.to_bytes();

    assert_eq!(vec![171, 205], result);

    assert!(Word::new(888, Offset::new(8, 1), vec![12, 23]).is_err());
}

#[test]
fn bool_keeps_its_byte_until_set() {
    for byte in [0u8, 1, 0x5A, 0xFF] {
        for bit in 0u8..8 {
            let f = Bool::new(3, Offset::new(10, bit), vec![byte]).unwrap();
            assert_eq!(f.to_bytes(), vec![byte]);
            assert_eq!(f.value(), byte & (1 << bit) != 0);
        }
    }
}

#[test]
fn bool_set_value_changes_only_its_bit() {
    let mut f = Bool::new(1, Offset::new(8, 3), vec![0b1010_0101]).unwrap();
    f.set_value(true);
    assert_eq!(f.to_bytes(), vec![0b1010_1101]);
    f.set_value(false);
    assert_eq!(f.to_bytes(), vec![0b1010_0101]);
    assert_eq!(f.data_block(), 1);
    assert_eq!(Field::offset(&f), 8);
}

#[test]
fn bool_rejects_wrong_length() {
    match Bool::new(1, Offset::new(0, 0), vec![1, 2]) {
        Err(Error::TryFrom(bytes, _)) => assert_eq!(bytes, vec![1, 2]),
        _ => panic!("two bytes must be refused"),
    }
    assert!(Bool::new(1, Offset::new(0, 0), vec![]).is_err());
}

#[test]
fn word_round_trip() {
    for v in [0u16, 1, 0x00FF, 0x0100, 0xABCD, 0xFFFF] {
        let mut w = Word::new(888, Offset::new(4, 0), vec![0, 0]).unwrap();
        w.set_value(v);
        let bytes = w.to_bytes();
        assert_eq!(bytes, vec![(v >> 8) as u8, v as u8]);
        let back = Word::new(888, Offset::new(4, 0), bytes).unwrap();
        assert_eq!(back.value(), v);
    }
}

#[test]
fn word_decodes_big_endian() {
    let w = Word::new(5, Offset::new(2, 0), vec![0x12, 0x34]).unwrap();
    assert_eq!(w.value(), 0x1234);
    assert_eq!(w.data_block(), 5);
    assert_eq!(Field::offset(&w), 2);
    match Word::new(5, Offset::new(2, 0), vec![0x12]) {
        Err(Error::TryFrom(bytes, _)) => assert_eq!(bytes, vec![0x12]),
        _ => panic!("one byte must be refused"),
    }
}

#[test]
fn sizes_of_fields() {
    assert_eq!(Bool::size(), 1);
    assert_eq!(Word::size(), 2);
}
