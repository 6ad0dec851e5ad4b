use rvkernel::net::loopback::{LoopbackInterface, MAX_PACKETS, MAX_PACKET_SIZE};
use rvkernel::net::NetError;

#[test]
fn new_device_is_empty() {
    let mut lo = LoopbackInterface::new();
    assert!(lo.is_empty());
    assert!(lo.recv().is_none());
    lo.consume();
    assert!(lo.is_empty());
}

#[test]
fn packets_leave_in_order() {
    let mut lo = LoopbackInterface::new();
    assert_eq!(lo.send(&[1, 1]), Ok(()));
    assert_eq!(lo.send(&[2, 2, 2]), Ok(()));
    assert_eq!(lo.send(&[3]), Ok(()));
    assert_eq!(lo.recv(), Some(&[1u8, 1][..]));
    assert_eq!(lo.recv(), Some(&[1u8, 1][..]));
    lo.consume();
    assert_eq!(lo.recv(), Some(&[2u8, 2, 2][..]));
    lo.consume();
    assert_eq!(lo.recv(), Some(&[3u8][..]));
    lo.consume();
    assert!(lo.recv().is_none());
}

#[test]
fn seventeenth_send_fails_with_timeout() {
    let mut lo = LoopbackInterface::new();
    for i in 0..MAX_PACKETS {
        assert_eq!(lo.send(&[i as u8]), Ok(()));
    }
    assert_eq!(lo.send(&[99]), Err(NetError::Timeout));
    assert_eq!(lo.recv(), Some(&[0u8][..]));
    lo.consume();
    assert_eq!(lo.send(&[100]), Ok(()));
    assert_eq!(lo.send(&[101]), Err(NetError::Timeout));
    for i in 1..MAX_PACKETS {
        assert_eq!(lo.recv(), Some(&[i as u8][..]));
        lo.consume();
    }
    assert_eq!(lo.recv(), Some(&[100u8][..]));
}

#[test]
fn oversized_packet_is_invalid() {
    let mut lo = LoopbackInterface::new();
    let big = vec![7u8; MAX_PACKET_SIZE + 1];
    assert_eq!(lo.send(&big), Err(NetError::InvalidPacket));
    assert!(lo.is_empty());
    let max = vec![7u8; MAX_PACKET_SIZE];
    assert_eq!(lo.send(&max), Ok(()));
    assert_eq!(lo.recv().map(|p| p.len()), Some(MAX_PACKET_SIZE));
}

#[test]
fn ring_wraps_around() {
    let mut lo = LoopbackInterface::new();
    for round in 0..40u8 {
        assert_eq!(lo.send(&[round, round]), Ok(()));
        assert_eq!(lo.recv(), Some(&[round, round][..]));
        lo.consume();
    }
    assert!(lo.is_empty());
}
