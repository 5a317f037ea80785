use barf::ByteBarferExt;
use barf::StackBuffer;
use barf::StackBufferError;

fn bytes_of<F: FnOnce(&mut Vec<u8>)>(f: F) -> Vec<u8> {
    let mut buf: Vec<u8> = Vec::new();
    f(&mut buf);
    buf
}

#[test]
fn little_endian_unsigned_round_trips() {
    for v in [0u8, 1, 0x7f, u8::MAX] {
        let b = bytes_of(|buf| buf.le_u8(v).unwrap());
        assert_eq!(u8::from_le_bytes(b.as_slice().try_into().unwrap()), v);
    }
    for v in [0u16, 1, 0x1234, u16::MAX] {
        let b = bytes_of(|buf| buf.le_u16(v).unwrap());
        assert_eq!(u16::from_le_bytes(b.as_slice().try_into().unwrap()), v);
    }
    for v in [0u32, 1, 0xdead_beef, u32::MAX] {
        let b = bytes_of(|buf| buf.le_u32(v).unwrap());
        assert_eq!(u32::from_le_bytes(b.as_slice().try_into().unwrap()), v);
    }
    for v in [0u64, 1, 0x0123_4567_89ab_cdef, u64::MAX] {
        let b = bytes_of(|buf| buf.le_u64(v).unwrap());
        assert_eq!(u64::from_le_bytes(b.as_slice().try_into().unwrap()), v);
    }
    for v in [0u128, 1, 0x0123_4567_89ab_cdef_1122_3344_5566_7788, u128::MAX] {
        let b = bytes_of(|buf| buf.le_u128(v).unwrap());
        assert_eq!(u128::from_le_bytes(b.as_slice().try_into().unwrap()), v);
    }
}

#[test]
fn little_endian_signed_round_trips() {
    for v in [0i8, 1, -1, 100, i8::MIN, i8::MAX] {
        let b = bytes_of(|buf| buf.le_i8(v).unwrap());
        assert_eq!(i8::from_le_bytes(b.as_slice().try_into().unwrap()), v);
    }
    for v in [0i16, 1, -1, -12345, i16::MIN, i16::MAX] {
        let b = bytes_of(|buf| buf.le_i16(v).unwrap());
        assert_eq!(i16::from_le_bytes(b.as_slice().try_into().unwrap()), v);
    }
    for v in [0i32, 1, -1, -123_456_789, i32::MIN, i32::MAX] {
        let b = bytes_of(|buf| buf.le_i32(v).unwrap());
        assert_eq!(i32::from_le_bytes(b.as_slice().try_into().unwrap()), v);
    }
    for v in [0i64, 1, -1, -0x0123_4567_89ab_cdef, i64::MIN, i64::MAX] {
        let b = bytes_of(|buf| buf.le_i64(v).unwrap());
        assert_eq!(i64::from_le_bytes(b.as_slice().try_into().unwrap()), v);
    }
    for v in [0i128, 1, -1, -0x0123_4567_89ab_cdef_1122_3344, i128::MIN, i128::MAX] {
        let b = bytes_of(|buf| buf.le_i128(v).unwrap());
        assert_eq!(i128::from_le_bytes(b.as_slice().try_into().unwrap()), v);
    }
}

#[test]
fn big_endian_round_trips() {
    for v in [0u16, 1, 0x1234, u16::MAX] {
        let b = bytes_of(|buf| buf.be_u16(v).unwrap());
        assert_eq!(u16::from_be_bytes(b.as_slice().try_into().unwrap()), v);
    }
    for v in [0u32, 1, 0xdead_beef, u32::MAX] {
        let b = bytes_of(|buf| buf.be_u32(v).unwrap());
        assert_eq!(u32::from_be_bytes(b.as_slice().try_into().unwrap()), v);
    }
    for v in [0u64, 1, 0x0123_4567_89ab_cdef, u64::MAX] {
        let b = bytes_of(|buf| buf.be_u64(v).unwrap());
        assert_eq!(u64::from_be_bytes(b.as_slice().try_into().unwrap()), v);
    }
    for v in [0u128, 1, u128::MAX - 7] {
        let b = bytes_of(|buf| buf.be_u128(v).unwrap());
        assert_eq!(u128::from_be_bytes(b.as_slice().try_into().unwrap()), v);
    }
    for v in [0u8, 200, u8::MAX] {
        let b = bytes_of(|buf| buf.be_u8(v).unwrap());
        assert_eq!(u8::from_be_bytes(b.as_slice().try_into().unwrap()), v);
    }
    for v in [0i16, -2, i16::MIN, i16::MAX] {
        let b = bytes_of(|buf| buf.be_i16(v).unwrap());
        assert_eq!(i16::from_be_bytes(b.as_slice().try_into().unwrap()), v);
    }
    for v in [0i32, -2, i32::MIN, i32::MAX] {
        let b = bytes_of(|buf| buf.be_i32(v).unwrap());
        assert_eq!(i32::from_be_bytes(b.as_slice().try_into().unwrap()), v);
    }
    for v in [0i64, -2, i64::MIN, i64::MAX] {
        let b = bytes_of(|buf| buf.be_i64(v).unwrap());
        assert_eq!(i64::from_be_bytes(b.as_slice().try_into().unwrap()), v);
    }
    for v in [0i128, -2, i128::MIN, i128::MAX] {
        let b = bytes_of(|buf| buf.be_i128(v).unwrap());
        assert_eq!(i128::from_be_bytes(b.as_slice().try_into().unwrap()), v);
    }
    for v in [0i8, -2, i8::MIN, i8::MAX] {
        let b = bytes_of(|buf| buf.be_i8(v).unwrap());
        assert_eq!(i8::from_be_bytes(b.as_slice().try_into().unwrap()), v);
    }
}

#[test]
fn big_endian_byte_order_is_most_significant_first() {
    assert_eq!(bytes_of(|buf| buf.be_u16(0x1234).unwrap()), vec![0x12, 0x34]);
    assert_eq!(bytes_of(|buf| buf.le_u16(0x1234).unwrap()), vec![0x34, 0x12]);
    assert_eq!(
        bytes_of(|buf| buf.be_u32(0x0102_0304).unwrap()),
        vec![1, 2, 3, 4]
    );
}

#[test]
fn native_endian_round_trips() {
    for v in [0u16, 0x1234, u16::MAX] {
        let b = bytes_of(|buf| buf.ne_u16(v).unwrap());
        assert_eq!(b, v.to_ne_bytes().to_vec());
        assert_eq!(u16::from_ne_bytes(b.as_slice().try_into().unwrap()), v);
    }
    for v in [0u32, 0xdead_beef] {
        let b = bytes_of(|buf| buf.ne_u32(v).unwrap());
        assert_eq!(b, v.to_ne_bytes().to_vec());
    }
    for v in [0u64, 0x0123_4567_89ab_cdef, u64::MAX] {
        let b = bytes_of(|buf| buf.ne_u64(v).unwrap());
        assert_eq!(b, v.to_ne_bytes().to_vec());
    }
    for v in [7u8, u8::MAX] {
        let b = bytes_of(|buf| buf.ne_u8(v).unwrap());
        assert_eq!(b, v.to_ne_bytes().to_vec());
    }
    for v in [0u128, u128::MAX - 17] {
        let b = bytes_of(|buf| buf.ne_u128(v).unwrap());
        assert_eq!(b, v.to_ne_bytes().to_vec());
    }
    for v in [0i8, -3, i8::MIN] {
        let b = bytes_of(|buf| buf.ne_i8(v).unwrap());
        assert_eq!(b, v.to_ne_bytes().to_vec());
    }
    for v in [0i16, -3, i16::MIN, i16::MAX] {
        let b = bytes_of(|buf| buf.ne_i16(v).unwrap());
        assert_eq!(b, v.to_ne_bytes().to_vec());
    }
    for v in [0i32, -3, i32::MIN] {
        let b = bytes_of(|buf| buf.ne_i32(v).unwrap());
        assert_eq!(b, v.to_ne_bytes().to_vec());
    }
    for v in [0i64, -3, i64::MIN, i64::MAX] {
        let b = bytes_of(|buf| buf.ne_i64(v).unwrap());
        assert_eq!(b, v.to_ne_bytes().to_vec());
    }
    for v in [0i128, -3, i128::MIN] {
        let b = bytes_of(|buf| buf.ne_i128(v).unwrap());
        assert_eq!(b, v.to_ne_bytes().to_vec());
    }
}

#[test]
fn uleb128_of_a_known_value() {
    let b = bytes_of(|buf| buf.uleb128(314159).unwrap());
    assert_eq!(b, vec![175, 150, 19]);
}

#[test]
fn uleb128_round_trips() {
    for v in [0u64, 1, 127, 128, 300, 1 << 28, (1 << 35) - 3, u64::MAX] {
        let b = bytes_of(|buf| buf.uleb128(v).unwrap());
        let (decoded, len) = nano_leb128::ULEB128::read_from(&b).unwrap();
        assert_eq!(u64::from(decoded), v);
        assert_eq!(len, b.len());
    }
    assert_eq!(bytes_of(|buf| buf.uleb128(0).unwrap()).len(), 1);
    assert_eq!(bytes_of(|buf| buf.uleb128(128).unwrap()).len(), 2);
    assert_eq!(bytes_of(|buf| buf.uleb128(1 << 28).unwrap()).len(), 5);
    assert_eq!(bytes_of(|buf| buf.uleb128(u64::MAX).unwrap()).len(), 10);
}

#[test]
fn sleb128_round_trips() {
    for v in [0i64, 1, -1, 63, -64, 64, -65, -123456, i64::MIN, i64::MAX] {
        let b = bytes_of(|buf| buf.sleb128(v).unwrap());
        let (decoded, len) = nano_leb128::SLEB128::read_from(&b).unwrap();
        assert_eq!(i64::from(decoded), v);
        assert_eq!(len, b.len());
    }
    assert_eq!(
        bytes_of(|buf| buf.sleb128(-123456).unwrap()),
        vec![0xc0, 0xbb, 0x78]
    );
    assert_eq!(bytes_of(|buf| buf.sleb128(0).unwrap()).len(), 1);
    assert_eq!(bytes_of(|buf| buf.sleb128(64).unwrap()).len(), 2);
    assert_eq!(bytes_of(|buf| buf.sleb128(i64::MIN).unwrap()).len(), 10);
}

#[test]
fn uvint64_of_known_values() {
    assert_eq!(bytes_of(|buf| buf.uvint64(42).unwrap()), vec![0x55]);
    assert_eq!(bytes_of(|buf| buf.svint64(-42).unwrap()), vec![0xa7]);
    assert_eq!(
        bytes_of(|buf| buf.svint64(314159).unwrap()),
        vec![244, 178, 76]
    );
}

#[test]
fn uvint64_round_trips() {
    for v in [0u64, 1, 127, 128, 1 << 14, 1 << 35, u64::MAX] {
        let b = bytes_of(|buf| buf.uvint64(v).unwrap());
        let mut slice: &[u8] = &b;
        assert_eq!(vint64::decode(&mut slice).unwrap(), v);
        assert!(slice.is_empty());
    }
    assert_eq!(bytes_of(|buf| buf.uvint64(0).unwrap()).len(), 1);
    assert_eq!(bytes_of(|buf| buf.uvint64(u64::MAX).unwrap()).len(), 9);
}

#[test]
fn svint64_round_trips() {
    for v in [0i64, 1, -1, 100, -100, 1 << 40, i64::MIN, i64::MAX] {
        let b = bytes_of(|buf| buf.svint64(v).unwrap());
        let mut slice: &[u8] = &b;
        assert_eq!(vint64::signed::decode(&mut slice).unwrap(), v);
        assert!(slice.is_empty());
    }
}

#[test]
fn variable_length_appends_respect_capacity() {
    let mut buf = StackBuffer::<u8, 2>::new();
    assert_eq!(
        buf.uleb128(1 << 28),
        Err(StackBufferError::NotEnoughCapacity)
    );
    assert_eq!(buf.len(), 0);
    assert!(buf.uleb128(300).is_ok());
    assert_eq!(buf.len(), 2);
}
