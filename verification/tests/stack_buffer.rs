use barf::Barfer;
use barf::ByteBarferExt;
use barf::StackBuffer;
use barf::StackBufferError;

#[test]
fn pushes_within_capacity_all_succeed() {
    let mut buf = StackBuffer::<u8, 3>::new();
    assert!(buf.is_empty());
    assert!(buf.push(1).is_ok());
    assert!(buf.push(2).is_ok());
    assert!(buf.push(3).is_ok());
    assert_eq!(buf.len(), 3);
    assert_eq!(buf.get(), &[1, 2, 3]);
}

#[test]
fn push_to_full_store_fails_unchanged() {
    let mut buf = StackBuffer::<u8, 1>::new();
    assert!(buf.push(42).is_ok());
    assert_eq!(buf.push(7), Err(StackBufferError::NotEnoughCapacity));
    assert_eq!(buf.len(), 1);
    assert_eq!(buf.get(), &[42]);
}

#[test]
fn extend_succeeds_iff_it_fits() {
    let mut buf = StackBuffer::<u8, 4>::new();
    assert!(buf.extend(vec![1, 2, 3]).is_ok());
    assert_eq!(buf.len(), 3);
    assert_eq!(
        buf.extend(vec![4, 5]),
        Err(StackBufferError::NotEnoughCapacity)
    );
    assert_eq!(buf.len(), 3);
    assert_eq!(buf.get(), &[1, 2, 3]);
    assert!(buf.extend(vec![4]).is_ok());
    assert_eq!(buf.get(), &[1, 2, 3, 4]);
}

#[test]
fn extend_empty_on_full_store_succeeds() {
    let mut buf = StackBuffer::<u8, 2>::new();
    assert!(buf.extend(vec![1, 2]).is_ok());
    assert!(buf.extend(vec![]).is_ok());
    assert_eq!(buf.get(), &[1, 2]);
}

#[test]
fn extend_from_slice_checks_before_writing() {
    let mut buf = StackBuffer::<u8, 4>::new();
    assert!(buf.extend_from_slice(&[1, 2, 3]).is_ok());
    assert_eq!(
        buf.extend_from_slice(&[9, 9]),
        Err(StackBufferError::NotEnoughCapacity)
    );
    assert_eq!(buf.len(), 3);
    assert_eq!(buf.get(), &[1, 2, 3]);
    assert!(buf.extend_from_slice(&[4]).is_ok());
    assert_eq!(buf.get(), &[1, 2, 3, 4]);
}

#[test]
fn default_store_is_empty_and_clone_preserves_contents() {
    let buf = StackBuffer::<u8, 8>::default();
    assert!(buf.is_empty());
    let mut buf = buf;
    buf.push(5).unwrap();
    let copy = buf.clone();
    assert_eq!(copy.get(), &[5]);
    assert_eq!(copy.len(), 1);
}

#[test]
fn stack_buffer_implements_the_capability() {
    let mut buf = StackBuffer::<u8, 4>::new();
    assert!(buf.single(1).is_ok());
    assert!(buf.many(vec![2, 3]).is_ok());
    assert!(buf.slice(&[4]).is_ok());
    assert_eq!(buf.get(), &[1, 2, 3, 4]);
    assert_eq!(buf.single(5), Err(StackBufferError::NotEnoughCapacity));
    assert_eq!(buf.many(vec![5]), Err(StackBufferError::NotEnoughCapacity));
    assert_eq!(buf.slice(&[5]), Err(StackBufferError::NotEnoughCapacity));
    assert_eq!(buf.get(), &[1, 2, 3, 4]);
}

#[test]
fn vec_store_never_fails() {
    let mut buf: Vec<u8> = Vec::new();
    buf.single(42).unwrap();
    assert_eq!(buf[0], 42);
    buf.many(vec![1, 2, 3]).unwrap();
    buf.slice(&[4, 5]).unwrap();
    assert_eq!(buf.as_slice(), &[42, 1, 2, 3, 4, 5]);
}

#[test]
fn byte_store_scenario_two_appends_then_overflow() {
    let mut buf = StackBuffer::<u8, 10>::new();
    buf.le_u64(42).expect("should have enough capacity for 8 bytes");
    assert_eq!(buf.len(), 8);
    assert_eq!(buf.get(), &[42, 0, 0, 0, 0, 0, 0, 0]);
    assert_eq!(u64::from_le_bytes(buf.get().try_into().unwrap()), 42);

    buf.le_u64(42).expect_err("not enough capacity (8 + 8 > 10)");
    assert_eq!(buf.len(), 8);
    assert_eq!(buf.get(), &[42, 0, 0, 0, 0, 0, 0, 0]);

    buf.le_u16(42).expect("should have enough capacity for 2 bytes");
    assert_eq!(buf.len(), 10);
    assert_eq!(u16::from_le_bytes(buf.get()[8..].try_into().unwrap()), 42);
}
