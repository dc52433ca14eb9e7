use qrcode::error::QrError;
use qrcode::standard_qr_code::bit_vector::MyBitVector;

#[test]
fn test_my_vect() {
    let mut test_vec: MyBitVector = MyBitVector::new_with_capacity(2);
    test_vec.push(0b0000_0100, 4).unwrap();
    test_vec.push(0b0101_0101, 8).unwrap();
    println!(
        "created: {:?}: {:?}",
        test_vec.get_data(),
        vec![0b0100_0101, 0b0101_0000]
    );
    assert_eq!(test_vec.get_data(), vec![0b0100_0101, 0b0101_0000]);
}

#[test]
fn qr_struct_test_my_vect() {
    let mut test_vec: MyBitVector = MyBitVector::new_with_capacity(2);
    test_vec.push(0b0000_0100, 4).unwrap();
    test_vec.push(0b0101_0101, 8).unwrap();
    println!(
        "created: {:?}: {:?}",
        test_vec.data,
        vec![0b0100_0101, 0b0101_0000]
    );
    assert_eq!(test_vec.data, vec![0b0100_0101, 0b0101_0000]);
}

#[test]
fn test_my_vect_padding() {
    let mut test_vector = MyBitVector::new_with_capacity(10);
    test_vector.push(0b1010, 4).unwrap();
    test_vector.push(0b01010101, 8).unwrap();
    test_vector.pad_empty_rest();
    for byte in test_vector.get_data() {
        println!("{byte:#x} ");
    }
    assert_eq!(
        test_vector.get_data(),
        vec![0xa5, 0x50, 0xec, 0x11, 0xec, 0x11, 0xec, 0x11, 0xec, 0x11]
    );
}

#[test]
fn new_buffer_is_zero() {
    let buffer = MyBitVector::new_with_capacity(5);
    assert_eq!(buffer.get_data(), vec![0, 0, 0, 0, 0]);
    assert_eq!(buffer.curr_position, 0);
    assert_eq!(buffer.capacity, 5);
    assert_eq!(MyBitVector::new_with_capacity(0).get_data(), Vec::<u8>::new());
}

#[test]
fn push_packs_across_byte_boundaries() {
    let mut buffer = MyBitVector::new_with_capacity(3);
    assert_eq!(buffer.push(0b1, 1), Ok(()));
    assert_eq!(buffer.push(0b01, 2), Ok(()));
    assert_eq!(buffer.push(0b1111_1111, 8), Ok(()));
    assert_eq!(buffer.push(0b101, 3), Ok(()));
    assert_eq!(buffer.curr_position, 14);
    assert_eq!(buffer.get_data(), vec![0b1011_1111, 0b1111_0100, 0]);
    // only the lowest bits of the value are written
    assert_eq!(buffer.push(0b1111_1101, 2), Ok(()));
    assert_eq!(buffer.get_data(), vec![0b1011_1111, 0b1111_0101, 0]);
    // a width of zero writes nothing
    assert_eq!(buffer.push(0xff, 0), Ok(()));
    assert_eq!(buffer.curr_position, 16);
    assert_eq!(buffer.get_data(), vec![0b1011_1111, 0b1111_0101, 0]);
}

#[test]
fn push_beyond_the_end_is_refused() {
    let mut buffer = MyBitVector::new_with_capacity(1);
    assert_eq!(buffer.push(0b1010, 4), Ok(()));
    assert_eq!(buffer.push(0xff, 8), Err(QrError::CapacityExceeded));
    assert_eq!(buffer.get_data(), vec![0b1010_0000]);
    assert_eq!(buffer.curr_position, 4);
    assert_eq!(buffer.push(0b0110, 4), Ok(()));
    assert_eq!(buffer.get_data(), vec![0b1010_0110]);
    assert_eq!(buffer.push(1, 1), Err(QrError::CapacityExceeded));
    let mut empty = MyBitVector::new_with_capacity(0);
    assert_eq!(empty.push(1, 1), Err(QrError::CapacityExceeded));
    assert_eq!(empty.push(1, 0), Ok(()));
}

#[test]
fn padding_starts_behind_the_last_used_byte() {
    let mut buffer = MyBitVector::new_with_capacity(4);
    buffer.pad_empty_rest();
    assert_eq!(buffer.get_data(), vec![0xec, 0x11, 0xec, 0x11]);
    let mut buffer = MyBitVector::new_with_capacity(4);
    buffer.push(0xab, 8).unwrap();
    buffer.pad_empty_rest();
    assert_eq!(buffer.get_data(), vec![0xab, 0xec, 0x11, 0xec]);
    let mut buffer = MyBitVector::new_with_capacity(4);
    buffer.push(0xab, 8).unwrap();
    buffer.push(1, 1).unwrap();
    buffer.pad_empty_rest();
    assert_eq!(buffer.get_data(), vec![0xab, 0x80, 0xec, 0x11]);
    assert_eq!(buffer.curr_position, 9);
}
