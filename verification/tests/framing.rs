use tun_easytier::packet::{
    is_ipv6, packet_information, PacketError, ProtocolNumbers, PACKET_INFORMATION_LENGTH,
};
use tun_easytier::split::Tun;

const ETHERTYPES: ProtocolNumbers = ProtocolNumbers { ipv4: 0x0800, ipv6: 0x86dd };
const ADDRESS_FAMILIES: ProtocolNumbers = ProtocolNumbers { ipv4: 2, ipv6: 30 };

fn ipv4_packet() -> Vec<u8> {
    vec![0x45, 0x00, 0x00, 0x14, 1, 2, 3, 4]
}

fn ipv6_packet() -> Vec<u8> {
    vec![0x60, 0x00, 0x00, 0x00, 9, 8]
}

#[test]
fn is_ipv6_reads_the_version_nibble() {
    assert_eq!(is_ipv6(&ipv4_packet()), Ok(false));
    assert_eq!(is_ipv6(&ipv6_packet()), Ok(true));
    assert_eq!(is_ipv6(&[0x6f]), Ok(true));
    assert_eq!(is_ipv6(&[0x40]), Ok(false));
}

#[test]
fn is_ipv6_rejects_empty_packets() {
    assert_eq!(is_ipv6(&[]), Err(PacketError::ZeroLength));
}

#[test]
fn is_ipv6_rejects_other_versions() {
    assert_eq!(is_ipv6(&[0x50, 1, 2]), Err(PacketError::IpVersion(5)));
    assert_eq!(is_ipv6(&[0x00]), Err(PacketError::IpVersion(0)));
    assert_eq!(is_ipv6(&[0xff]), Err(PacketError::IpVersion(15)));
}

#[test]
fn packet_information_is_the_big_endian_ethertype() {
    assert_eq!(PACKET_INFORMATION_LENGTH, 4);
    assert_eq!(packet_information(false, ETHERTYPES), [0x00, 0x00, 0x08, 0x00]);
    assert_eq!(packet_information(true, ETHERTYPES), [0x00, 0x00, 0x86, 0xdd]);
}

#[test]
fn packet_information_with_address_families() {
    assert_eq!(packet_information(false, ADDRESS_FAMILIES), [0, 0, 0, 2]);
    assert_eq!(packet_information(true, ADDRESS_FAMILIES), [0, 0, 0, 30]);
}

#[test]
fn frame_uses_the_device_protocol_numbers() {
    let t = Tun::new(1500, true, ADDRESS_FAMILIES);
    assert_eq!(t.frame(&[0x60, 1]), Ok(vec![0, 0, 0, 30, 0x60, 1]));
    assert_eq!(t.frame(&[0x45, 1]), Ok(vec![0, 0, 0, 2, 0x45, 1]));
}

#[test]
fn new_tun_sets_mtu_and_packet_information() {
    let t = Tun::new(1500, true, ETHERTYPES);
    assert_eq!(t.mtu(), 1500);
    assert!(t.packet_information());
    let t = Tun::new(9000, false, ETHERTYPES);
    assert_eq!(t.mtu(), 9000);
    assert!(!t.packet_information());
}

#[test]
fn set_mtu_then_mtu_gives_it_back() {
    let mut t = Tun::new(1500, true, ETHERTYPES);
    t.set_mtu(1280);
    assert_eq!(t.mtu(), 1280);
    assert!(t.packet_information());
}

#[test]
fn frame_without_packet_information_is_the_payload() {
    let t = Tun::new(1500, false, ETHERTYPES);
    assert_eq!(t.frame(&ipv4_packet()), Ok(ipv4_packet()));
    // No header is due, so nothing is checked.
    assert_eq!(t.frame(&[]), Ok(vec![]));
    assert_eq!(t.frame(&[0x10, 0x20]), Ok(vec![0x10, 0x20]));
}

#[test]
fn frame_with_packet_information_prefixes_the_protocol() {
    let t = Tun::new(1500, true, ETHERTYPES);
    let mut expected = vec![0x00, 0x00, 0x08, 0x00];
    expected.extend_from_slice(&ipv4_packet());
    assert_eq!(t.frame(&ipv4_packet()), Ok(expected));
    let mut expected = vec![0x00, 0x00, 0x86, 0xdd];
    expected.extend_from_slice(&ipv6_packet());
    assert_eq!(t.frame(&ipv6_packet()), Ok(expected));
}

#[test]
fn frame_with_packet_information_rejects_bad_payloads() {
    let t = Tun::new(1500, true, ETHERTYPES);
    assert_eq!(t.frame(&[]), Err(PacketError::ZeroLength));
    assert_eq!(t.frame(&[0x20, 0]), Err(PacketError::IpVersion(2)));
}

#[test]
fn frame_vectored_without_packet_information_concatenates() {
    let t = Tun::new(1500, false, ETHERTYPES);
    let bufs = vec![vec![1, 2], vec![], vec![3]];
    assert_eq!(t.frame_vectored(&bufs), Ok(Some(vec![1, 2, 3])));
    assert_eq!(t.frame_vectored(&[vec![], vec![]]), Ok(Some(vec![])));
}

#[test]
fn frame_vectored_uses_first_non_empty_buffer() {
    let t = Tun::new(1500, true, ETHERTYPES);
    let bufs = vec![vec![], vec![0x60, 1], vec![2, 3]];
    assert_eq!(
        t.frame_vectored(&bufs),
        Ok(Some(vec![0x00, 0x00, 0x86, 0xdd, 0x60, 1, 2, 3]))
    );
    let bufs = vec![vec![], vec![0x70], vec![0x45]];
    assert_eq!(t.frame_vectored(&bufs), Err(PacketError::IpVersion(7)));
}

#[test]
fn frame_vectored_with_only_empty_buffers_sends_nothing() {
    let t = Tun::new(1500, true, ETHERTYPES);
    assert_eq!(t.frame_vectored(&[]), Ok(None));
    assert_eq!(t.frame_vectored(&[vec![], vec![]]), Ok(None));
}

#[test]
fn recv_frame_strips_the_header() {
    let t = Tun::new(1500, true, ETHERTYPES);
    let frame = [0x00, 0x00, 0x08, 0x00, 0x45, 7, 8];
    let mut buf = [0u8; 5];
    assert_eq!(t.recv_frame(&frame, &mut buf), 3);
    assert_eq!(buf, [0x45, 7, 8, 0, 0]);
}

#[test]
fn recv_frame_no_longer_than_header_gives_nothing() {
    let t = Tun::new(1500, true, ETHERTYPES);
    let mut buf = [9u8; 3];
    assert_eq!(t.recv_frame(&[0, 0, 8, 0], &mut buf), 0);
    assert_eq!(t.recv_frame(&[0, 0], &mut buf), 0);
    assert_eq!(buf, [9, 9, 9]);
}

#[test]
fn recv_frame_truncates_to_the_buffer() {
    let t = Tun::new(1500, true, ETHERTYPES);
    let mut buf = [0u8; 2];
    assert_eq!(t.recv_frame(&[0, 0, 8, 0, 1, 2, 3, 4], &mut buf), 2);
    assert_eq!(buf, [1, 2]);
    let t = Tun::new(1500, false, ETHERTYPES);
    let mut buf = [0u8; 3];
    assert_eq!(t.recv_frame(&[5, 6, 7, 8], &mut buf), 3);
    assert_eq!(buf, [5, 6, 7]);
}

#[test]
fn recv_frame_vectored_spreads_the_payload() {
    let t = Tun::new(1500, true, ETHERTYPES);
    let mut bufs = vec![vec![0u8; 2], vec![], vec![0u8; 3]];
    assert_eq!(t.recv_frame_vectored(&[0, 0, 0x86, 0xdd, 0x60, 1, 2, 3], &mut bufs), 4);
    assert_eq!(bufs, vec![vec![0x60, 1], vec![], vec![2, 3, 0]]);
    let mut bufs = vec![vec![7u8; 2]];
    assert_eq!(t.recv_frame_vectored(&[0, 0, 8], &mut bufs), 0);
    assert_eq!(bufs, vec![vec![7, 7]]);
}

#[test]
fn framed_payload_reads_back_unchanged() {
    for pi in [false, true] {
        let t = Tun::new(1500, pi, ETHERTYPES);
        let payload = ipv6_packet();
        let frame = t.frame(&payload).unwrap();
        let mut buf = vec![0xaau8; payload.len() + 3];
        assert_eq!(t.recv_frame(&frame, &mut buf), payload.len());
        assert_eq!(&buf[..payload.len()], &payload[..]);
        assert_eq!(&buf[payload.len()..], &[0xaa, 0xaa, 0xaa]);
    }
}

#[test]
fn framed_buffers_read_back_unchanged() {
    for pi in [false, true] {
        let t = Tun::new(1500, pi, ETHERTYPES);
        let bufs = vec![vec![], vec![0x45, 1, 2], vec![3], vec![4, 5]];
        let frame = t.frame_vectored(&bufs).unwrap().unwrap();
        let mut into = vec![vec![0u8; 0], vec![0u8; 3], vec![0u8; 1], vec![0u8; 2]];
        assert_eq!(t.recv_frame_vectored(&frame, &mut into), 6);
        assert_eq!(into, bufs);
    }
}

#[test]
fn headers_tell_ip_versions_apart() {
    for protocols in [ETHERTYPES, ADDRESS_FAMILIES] {
        assert_ne!(packet_information(true, protocols), packet_information(false, protocols));
        assert_eq!(packet_information(true, protocols), packet_information(true, protocols));
    }
}

#[test]
fn packet_information_is_kept_across_set_mtu() {
    let mut t = Tun::new(1500, true, ETHERTYPES);
    t.set_mtu(1400);
    t.set_mtu(9000);
    assert!(t.packet_information());
    assert_eq!(t.mtu(), 9000);
    let payload = vec![0x45, 9];
    let frame = t.frame(&payload).unwrap();
    assert_eq!(frame.len(), payload.len() + PACKET_INFORMATION_LENGTH);
}

#[test]
fn packet_error_messages() {
    assert_eq!(PacketError::ZeroLength.message(), "Zero-length data");
    assert_eq!(PacketError::IpVersion(5).message(), "IP version 5");
    assert_eq!(PacketError::IpVersion(15).message(), "IP version 15");
}

#[test]
fn tun_ends_share_the_device_settings() {
    let mut t = Tun::new(1500, true, ETHERTYPES);
    t.set_mtu(1280);
    let frame = t.writer().frame(&[0x45, 1]).unwrap();
    let mut buf = [0u8; 4];
    assert_eq!(t.reader().recv_frame(&frame, &mut buf), 2);
    assert_eq!(&buf[..2], &[0x45, 1]);
}
