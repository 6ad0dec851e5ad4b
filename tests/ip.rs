use rvkernel::net::checksum::InternetChecksum;
use rvkernel::net::icmp::IcmpEvent;
use rvkernel::net::ip::{init, ip_send, process_packets, IpV4Addr, IpV4Header, IpV4Protocol};
use rvkernel::net::loopback::LoopbackInterface;
use rvkernel::net::NetError;

#[test]
fn address_conversions() {
    let a = IpV4Addr::from_be_u32(0x7f00_0001);
    assert_eq!(a, IpV4Addr::loopback());
    assert_eq!(a.bytes(), [127, 0, 0, 1]);
    assert_eq!(a.to_be_u32(), 0x7f00_0001);
    let b = IpV4Addr::new(192, 168, 10, 254);
    assert_eq!(IpV4Addr::from_be_u32(b.to_be_u32()), b);
    assert_eq!(b.to_be_u32(), 0xc0a8_0afe);
    assert_eq!(IpV4Addr::any().bytes(), [0, 0, 0, 0]);
}

#[test]
fn loopback_is_the_whole_slash_eight() {
    assert!(IpV4Addr::loopback().is_loopback());
    assert!(IpV4Addr::new(127, 5, 6, 7).is_loopback());
    assert!(!IpV4Addr::new(10, 0, 0, 1).is_loopback());
    assert!(!IpV4Addr::new(128, 0, 0, 1).is_loopback());
}

#[test]
fn protocol_numbers() {
    assert_eq!(IpV4Protocol::icmp().0, 1);
    assert_eq!(IpV4Protocol::tcp().0, 6);
    assert_eq!(IpV4Protocol::udp().0, 17);
}

#[test]
fn header_bytes_and_checksum() {
    let lb = IpV4Addr::loopback();
    let h = IpV4Header::new(lb, lb, IpV4Protocol::icmp(), 40);
    assert_eq!(
        h.to_bytes(),
        vec![
            0x45, 0, 0, 60, 0, 0, 0, 0, 64, 1, 0x7c, 0xbf, 127, 0, 0, 1, 127, 0, 0, 1
        ]
    );
    assert_eq!(InternetChecksum::calc(&h.to_bytes()).value_u16(), 0);
    assert_eq!(h.src(), lb);
    assert_eq!(h.dst(), lb);
    assert_eq!(h.protocol(), IpV4Protocol::icmp());
}

#[test]
fn header_parses_back() {
    let h = IpV4Header::new(
        IpV4Addr::new(127, 0, 0, 1),
        IpV4Addr::new(127, 1, 2, 3),
        IpV4Protocol::udp(),
        300,
    );
    let mut bytes = h.to_bytes();
    bytes.push(0xaa);
    let p = IpV4Header::from_bytes(&bytes).unwrap();
    assert_eq!(p.to_bytes(), h.to_bytes());
    assert_eq!(p.total_length, 320);
    assert_eq!(p.dst(), IpV4Addr::new(127, 1, 2, 3));
    assert!(IpV4Header::from_bytes(&bytes[..19]).is_none());
}

#[test]
fn send_outside_loopback_has_no_route() {
    let mut lo = init();
    assert_eq!(
        ip_send(&mut lo, IpV4Addr::new(10, 0, 0, 1), IpV4Protocol::icmp(), &[1, 2, 3]),
        Err(NetError::NoRoute)
    );
    assert!(lo.is_empty());
}

#[test]
fn send_to_loopback_is_received() {
    let mut lo = init();
    let dst = IpV4Addr::loopback();
    assert_eq!(ip_send(&mut lo, dst, IpV4Protocol::udp(), &[9, 8, 7]), Ok(()));
    let p = lo.recv().unwrap().to_vec();
    assert_eq!(p.len(), 23);
    let h = IpV4Header::from_bytes(&p).unwrap();
    assert_eq!(h.version_and_ihl, 0x45);
    assert_eq!(h.ttl, 64);
    assert_eq!(h.total_length, 23);
    assert_eq!(h.protocol(), IpV4Protocol::udp());
    assert_eq!(h.src(), IpV4Addr::loopback());
    assert_eq!(h.dst(), dst);
    assert_eq!(InternetChecksum::calc(&p[..20]).value_u16(), 0);
    assert_eq!(&p[20..], &[9, 8, 7]);
}

#[test]
fn source_is_forced_to_127_0_0_1() {
    let mut lo = init();
    assert_eq!(ip_send(&mut lo, IpV4Addr::new(127, 9, 9, 9), IpV4Protocol::tcp(), &[]), Ok(()));
    let p = lo.recv().unwrap().to_vec();
    assert_eq!(&p[12..20], &[127, 0, 0, 1, 127, 9, 9, 9]);
}

#[test]
fn oversized_ip_payload_is_invalid() {
    let mut lo = init();
    let data = vec![0u8; 1481];
    assert_eq!(ip_send(&mut lo, IpV4Addr::loopback(), IpV4Protocol::udp(), &data), Err(NetError::InvalidPacket));
    let data = vec![0u8; 1480];
    assert_eq!(ip_send(&mut lo, IpV4Addr::loopback(), IpV4Protocol::udp(), &data), Ok(()));
}

#[test]
fn short_packet_is_dropped() {
    let mut lo = LoopbackInterface::new();
    assert_eq!(lo.send(&[0x45; 10]), Ok(()));
    let events = process_packets(&mut lo);
    assert!(events.is_empty());
    assert!(lo.is_empty());
}

#[test]
fn other_protocols_are_consumed_silently() {
    let mut lo = init();
    let mut icmp_like = vec![8u8, 0, 0, 0, 0, 1, 0, 1];
    icmp_like.extend_from_slice(&[5; 4]);
    assert_eq!(ip_send(&mut lo, IpV4Addr::loopback(), IpV4Protocol::udp(), &icmp_like), Ok(()));
    assert_eq!(process_packets(&mut lo), Vec::<IcmpEvent>::new());
    assert!(lo.is_empty());
}

#[test]
fn processing_an_empty_device_does_nothing() {
    let mut lo = init();
    assert!(process_packets(&mut lo).is_empty());
    assert!(process_packets(&mut lo).is_empty());
    assert!(lo.is_empty());
}
