use sailar::binary::buffer;

#[test]
fn buffer_rent_test() {
    let pool = buffer::Pool::default();

    {
        let mut buffer = pool.rent();
        buffer.push(1);
        buffer.push(2);
    }

    assert_eq!(pool.rent().len(), 0);
    assert!(pool.rent().capacity() > 0);
}

#[test]
fn rented_buffer_with_length_is_zeroed() {
    let pool = buffer::Pool::default();
    let rented = pool.rent_with_length(4);
    assert_eq!(rented.to_vec(), vec![0u8, 0, 0, 0]);
}

#[test]
fn rented_or_owned_without_pool_is_owned() {
    let mut buffer = buffer::RentedOrOwned::with_capacity(8, None);
    assert!(matches!(buffer, buffer::RentedOrOwned::Owned(_)));
    buffer.as_mut_vec().push(7);
    assert_eq!(buffer.as_slice(), &[7u8]);
    assert_eq!(buffer.into_vec(), vec![7u8]);
}

#[test]
fn rented_or_owned_with_pool_is_rented() {
    let pool = buffer::Pool::default();
    let mut buffer = buffer::RentedOrOwned::with_capacity(8, Some(&pool));
    assert!(matches!(buffer, buffer::RentedOrOwned::Rented(_)));
    buffer.as_mut_vec().push(9);
    assert_eq!(buffer.as_vec(), &vec![9u8]);
}

#[test]
fn bytes_are_shown_in_hexadecimal() {
    assert_eq!(buffer::bytes_debug(&[0x53, 0x0A, 0xFF]), b"53 A FF".to_vec());
    assert_eq!(buffer::bytes_debug(&[]), Vec::<u8>::new());
}
