use slingshot::mem::Buffer;
use slingshot::overlapped::{copy_received, split_offset, transfer_len};

#[test]
fn offset_splits_into_halves() {
    assert_eq!(split_offset(None), (0, 0));
    assert_eq!(split_offset(Some(5)), (5, 0));
    assert_eq!(split_offset(Some(0x1_0000_0005)), (5, 1));
    assert_eq!(split_offset(Some(u64::MAX)), (u32::MAX, u32::MAX));
}

#[test]
fn transfer_length_is_clamped_to_32_bits() {
    assert_eq!(transfer_len(0), 0);
    assert_eq!(transfer_len(8), 8);
    assert_eq!(transfer_len(u32::MAX as usize), u32::MAX);
    assert_eq!(transfer_len(usize::MAX), u32::MAX);
}

#[test]
fn received_bytes_go_to_the_front() {
    let mut dst = [9u8; 6];
    assert_eq!(copy_received(&mut dst, &[1, 2, 3]), 3);
    assert_eq!(dst, [1, 2, 3, 9, 9, 9]);
    assert_eq!(copy_received(&mut dst, &[]), 0);
    assert_eq!(dst, [1, 2, 3, 9, 9, 9]);
}

#[test]
fn buffer_starts_zeroed() {
    let b = Buffer::new(4);
    assert_eq!(b.len(), 4);
    assert_eq!(b.get(), &[0, 0, 0, 0]);
}

#[test]
fn buffer_from_empty_slice_is_refused() {
    assert!(Buffer::try_from(&[]).is_err());
}

#[test]
fn buffer_keeps_copied_bytes() {
    let mut b = Buffer::try_from(&[1u8, 2, 3, 4]).unwrap();
    assert_eq!(b.get(), &[1, 2, 3, 4]);
    b.get_mut()[0] = 7;
    assert_eq!(b.into_vec(2), vec![7, 2]);
}

use slingshot::sockaddr::{decode_sockaddr, RemoteAddr};

#[test]
fn ipv4_peer_is_decoded() {
    let raw = [2u8, 0, 0x1f, 0x90, 127, 0, 0, 1, 0, 0, 0, 0, 0, 0, 0, 0];
    match decode_sockaddr(&raw) {
        Some(RemoteAddr::V4 { ip, port }) => {
            assert_eq!(ip, [127, 0, 0, 1]);
            assert_eq!(port, 8080);
        }
        _ => panic!("not an IPv4 address"),
    }
}

#[test]
fn ipv6_peer_is_decoded() {
    let mut raw = [0u8; 28];
    raw[0] = 23;
    raw[2] = 0xd4;
    raw[3] = 0x31;
    raw[23] = 1;
    match decode_sockaddr(&raw) {
        Some(RemoteAddr::V6 { ip, port }) => {
            let mut loopback = [0u8; 16];
            loopback[15] = 1;
            assert_eq!(ip, loopback);
            assert_eq!(port, 54321);
        }
        _ => panic!("not an IPv6 address"),
    }
}

#[test]
fn unknown_or_short_address_is_refused() {
    assert!(decode_sockaddr(&[]).is_none());
    assert!(decode_sockaddr(&[2, 0, 0, 80]).is_none());
    assert!(decode_sockaddr(&[23, 0, 0, 80, 0, 0, 0, 0]).is_none());
    assert!(decode_sockaddr(&[1, 0, 0, 80, 127, 0, 0, 1]).is_none());
}

use slingshot::sockaddr::accept_address_space;

#[test]
fn accept_needs_room_for_two_padded_addresses() {
    assert_eq!(accept_address_space(16), (32, 64));
    assert_eq!(accept_address_space(28), (44, 88));
}
