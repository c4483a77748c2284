use werson::frame::{
    address_is_group, check_length, copy_bytes, parse_addresses, read_address, Addresses, Frame,
    FrameError, DEFAULT_MTU,
};

fn ethernet(destination: [u8; 6], source: [u8; 6], body: &[u8]) -> Vec<u8> {
    let mut bytes = Vec::new();
    bytes.extend_from_slice(&destination);
    bytes.extend_from_slice(&source);
    bytes.extend_from_slice(&[0x08, 0x00]);
    bytes.extend_from_slice(body);
    bytes
}

#[test]
fn default_mtu_is_1500() {
    assert_eq!(DEFAULT_MTU, 1500);
}

#[test]
fn frame_keeps_bytes_and_time() {
    let frame = Frame::new(vec![1, 2, 3], DEFAULT_MTU, 42).unwrap();
    assert_eq!(frame.len(), 3);
    assert_eq!(frame.payload(), &vec![1, 2, 3]);
    assert_eq!(frame.received_at(), 42);
    assert_eq!(frame.into_bytes(), vec![1, 2, 3]);
}

#[test]
fn frame_of_exactly_mtu_is_accepted() {
    let frame = Frame::new(vec![7u8; 1500], 1500, 0).unwrap();
    assert_eq!(frame.len(), 1500);
}

#[test]
fn empty_frame_is_malformed() {
    assert_eq!(Frame::new(Vec::new(), 1500, 0).unwrap_err(), FrameError::MalformedFrame);
    assert_eq!(check_length(0, 1500), Err(FrameError::MalformedFrame));
}

#[test]
fn frame_over_mtu_is_too_large() {
    assert_eq!(Frame::new(vec![0u8; 1501], 1500, 0).unwrap_err(), FrameError::FrameTooLarge);
    assert_eq!(check_length(1501, 1500), Err(FrameError::FrameTooLarge));
    assert_eq!(check_length(1500, 1500), Ok(()));
    assert_eq!(check_length(1, 1500), Ok(()));
}

#[test]
fn frame_is_never_truncated_or_padded() {
    let bytes: Vec<u8> = (0..200u32).map(|i| (i % 251) as u8).collect();
    let frame = Frame::new(bytes.clone(), 1500, 9).unwrap();
    assert_eq!(frame.into_bytes(), bytes);
}

#[test]
fn addresses_are_read_most_significant_byte_first() {
    let bytes = ethernet(
        [0xff, 0xff, 0xff, 0xff, 0xff, 0xff],
        [0x02, 0x00, 0x00, 0x00, 0x00, 0x01],
        &[1, 2, 3],
    );
    assert_eq!(
        parse_addresses(&bytes),
        Ok(Addresses { destination: 0xffff_ffff_ffff, source: 0x0200_0000_0001 })
    );
    assert_eq!(read_address(&bytes, 0), 0xffff_ffff_ffff);
    assert_eq!(read_address(&bytes, 6), 0x0200_0000_0001);
}

#[test]
fn address_bytes_keep_their_place() {
    let bytes = ethernet(
        [0x12, 0x34, 0x56, 0x78, 0x9a, 0xbc],
        [0x01, 0x02, 0x03, 0x04, 0x05, 0x06],
        &[],
    );
    let addresses = parse_addresses(&bytes).unwrap();
    assert_eq!(addresses.destination, 0x1234_5678_9abc);
    assert_eq!(addresses.source, 0x0102_0304_0506);
}

#[test]
fn frame_without_both_addresses_is_malformed() {
    assert_eq!(parse_addresses(&vec![0u8; 11]), Err(FrameError::MalformedFrame));
    assert_eq!(parse_addresses(&Vec::new()), Err(FrameError::MalformedFrame));
    assert!(parse_addresses(&vec![0u8; 12]).is_ok());
}

#[test]
fn group_bit_is_the_lowest_bit_of_the_first_byte() {
    assert!(address_is_group(0xffff_ffff_ffff));
    assert!(address_is_group(0x0100_5e00_0001));
    assert!(address_is_group(0x3333_0000_0001));
    assert!(!address_is_group(0x0200_0000_0001));
    assert!(!address_is_group(0x0000_0000_0000));
    assert!(!address_is_group(0x00ff_ffff_ffff));
}

#[test]
fn copy_is_byte_identical() {
    let bytes: Vec<u8> = vec![9, 8, 7, 6, 5];
    assert_eq!(copy_bytes(&bytes), bytes);
    assert_eq!(copy_bytes(&Vec::new()), Vec::<u8>::new());
}

#[test]
fn frame_is_checked_against_the_interface_it_is_written_to() {
    let frame = Frame::new(vec![0u8; 1400], 1500, 0).unwrap();
    assert_eq!(frame.check_fits(1500), Ok(()));
    assert_eq!(frame.check_fits(1400), Ok(()));
    assert_eq!(frame.check_fits(1399), Err(FrameError::FrameTooLarge));
}
