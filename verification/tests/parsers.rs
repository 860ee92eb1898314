use rust_pcap::arp::ARP;
use rust_pcap::codec::{read_u16_be, read_u32_be, read_u32_le, read_u64_be, read_u8, split};
use rust_pcap::dhcp::DHCP;
use rust_pcap::goose::GOOSE;
use rust_pcap::ipv6::IPv6;
use rust_pcap::opc_ua::{MessageType, OpcUa};
use rust_pcap::sv::SampledValue;
use rust_pcap::udp::UDP;

#[test]
fn codec_reads_fixed_width_values() {
    let data = [0x01u8, 0x02, 0x03, 0x04, 0x05, 0x06, 0x07, 0x08, 0x09];
    assert_eq!(read_u8(&data, 0), Some(0x01));
    assert_eq!(read_u8(&data, 9), None);
    assert_eq!(read_u16_be(&data, 0), Some(0x0102));
    assert_eq!(read_u16_be(&data, 8), None);
    assert_eq!(read_u32_be(&data, 1), Some(0x02030405));
    assert_eq!(read_u32_le(&data, 1), Some(0x05040302));
    assert_eq!(read_u64_be(&data, 0), Some(0x0102030405060708));
    assert_eq!(read_u64_be(&data, 2), None);
}

#[test]
fn codec_split_parts_slice() {
    let data = [1u8, 2, 3, 4];
    let (head, tail) = split(&data, 1);
    assert_eq!(head, &[1u8][..]);
    assert_eq!(tail, &[2u8, 3, 4][..]);
}

fn arp_reply_bytes() -> Vec<u8> {
    let mut b = Vec::new();
    b.extend_from_slice(&[0x00, 0x01]); // hardware type: Ethernet
    b.extend_from_slice(&[0x08, 0x00]); // protocol type: IPv4
    b.push(6); // hardware length
    b.push(4); // protocol length
    b.extend_from_slice(&[0x00, 0x02]); // operation: reply
    b.extend_from_slice(&[0xAA, 0xBB, 0xCC, 0xDD, 0xEE, 0xFF]); // sender hardware
    b.extend_from_slice(&[192, 168, 0, 1]); // sender protocol
    b.extend_from_slice(&[0x11, 0x22, 0x33, 0x44, 0x55, 0x66]); // target hardware
    b.extend_from_slice(&[192, 168, 0, 2]); // target protocol
    b
}

#[test]
fn arp_reply_round_trips_addresses() {
    let bytes = arp_reply_bytes();
    assert_eq!(bytes.len(), 28);
    let arp = ARP::new(&bytes).expect("well-formed ARP reply");
    assert_eq!(arp.htype, 1);
    assert_eq!(arp.ptype, 0x0800);
    assert_eq!(arp.hlen, 6);
    assert_eq!(arp.plen, 4);
    assert_eq!(arp.oper, 2);
    assert_eq!(arp.sha, 0xAABBCCDDEEFF);
    assert_eq!(arp.spa, u32::from_be_bytes([192, 168, 0, 1]));
    assert_eq!(arp.tha, 0x112233445566);
    assert_eq!(arp.tpa, u32::from_be_bytes([192, 168, 0, 2]));
}

#[test]
fn arp_short_buffer_yields_no_record() {
    let bytes = arp_reply_bytes();
    for n in 0..28 {
        assert!(ARP::new(&bytes[..n]).is_none());
    }
}

fn dhcp_request_bytes(with_magic: bool) -> Vec<u8> {
    let mut b = vec![0u8; 236];
    b[0] = 0x01; // request
    b[1] = 0x01; // hardware type
    b[2] = 6; // hardware length
    b[4..8].copy_from_slice(&[0xDE, 0xAD, 0xBE, 0xEF]); // xid
    b[8..10].copy_from_slice(&[0x00, 0x10]); // secs
    if with_magic {
        b.extend_from_slice(&[99, 130, 83, 99]);
        b.extend_from_slice(&[53, 1, 1]); // one option
    }
    b
}

#[test]
fn dhcp_decodes_request_with_options() {
    let bytes = dhcp_request_bytes(true);
    let d = DHCP::try_make(&bytes).expect("DHCP request");
    assert_eq!(d.op, 1);
    assert_eq!(d.htype, 1);
    assert_eq!(d.hlen, 6);
    assert_eq!(d.xid, 0xDEADBEEF);
    assert_eq!(d.secs, 0x10);
    assert_eq!(d.options.as_deref(), Some(&[53u8, 1, 1][..]));
}

#[test]
fn dhcp_without_magic_has_no_options() {
    let bytes = dhcp_request_bytes(false);
    let d = DHCP::try_make(&bytes).expect("DHCP request");
    assert!(d.options.is_none());
}

#[test]
fn dhcp_rejects_unknown_operation_and_short_buffers() {
    let mut bytes = dhcp_request_bytes(false);
    bytes[0] = 0x03;
    assert!(DHCP::try_make(&bytes).is_none());
    let bytes = dhcp_request_bytes(false);
    for n in (0..236).step_by(20) {
        assert!(DHCP::try_make(&bytes[..n]).is_none());
    }
}

fn goose_bytes() -> Vec<u8> {
    let mut b = Vec::new();
    b.extend_from_slice(&[0x00, 0x01]); // app id
    b.extend_from_slice(&[0x00, 0x0C]); // length 12: header + 4 APDU bytes
    b.extend_from_slice(&[0x00, 0x00]); // reserved 1
    b.extend_from_slice(&[0x00, 0x00]); // reserved 2
    b.extend_from_slice(&[0x61, 0x62, 0x63, 0x64]); // APDU
    b.extend_from_slice(&[0x99, 0x98]); // trailing bytes
    b
}

#[test]
fn goose_decodes_apdu_and_trailer() {
    let g = GOOSE::new(&goose_bytes()).expect("GOOSE frame");
    assert_eq!(g.app_id, 1);
    assert_eq!(g.len, 12);
    assert_eq!(g.apdu, vec![0x61, 0x62, 0x63, 0x64]);
    assert_eq!(g.ext, vec![0x99, 0x98]);
}

#[test]
fn goose_rejects_short_and_overlong_lengths() {
    let bytes = goose_bytes();
    for n in 0..8 {
        assert!(GOOSE::new(&bytes[..n]).is_none());
    }
    let mut bad = goose_bytes();
    bad[3] = 0xFF; // length field past the end of the slice
    assert!(GOOSE::new(&bad).is_none());
    let mut bad = goose_bytes();
    bad[2] = 0;
    bad[3] = 4; // length field inside the header
    assert!(GOOSE::new(&bad).is_none());
}

#[test]
fn sampled_value_decodes_apdu() {
    let bytes = goose_bytes();
    let s = SampledValue::new(&bytes).expect("sampled values frame");
    assert_eq!(s.app_id, 1);
    assert_eq!(s.apdu, vec![0x61, 0x62, 0x63, 0x64]);
    for n in 0..8 {
        assert!(SampledValue::new(&bytes[..n]).is_none());
    }
}

#[test]
fn opc_ua_message_types_decode() {
    assert!(matches!(MessageType::try_from(b"HEL".as_slice()), Ok(MessageType::HEL)));
    assert!(matches!(MessageType::try_from(b"ASK".as_slice()), Ok(MessageType::ASK)));
    assert!(matches!(MessageType::try_from(b"ERP".as_slice()), Ok(MessageType::ERP)));
    assert!(matches!(MessageType::try_from(b"RHE".as_slice()), Ok(MessageType::RHE)));
    assert!(matches!(MessageType::try_from(b"MSG".as_slice()), Ok(MessageType::MSG)));
    assert!(MessageType::try_from(b"XYZ".as_slice()).is_err());
    assert!(MessageType::try_from(b"HE".as_slice()).is_err());
}

#[test]
fn opc_ua_hello_decodes() {
    let mut b = Vec::new();
    b.extend_from_slice(b"HEL");
    b.push(b'F');
    b.extend_from_slice(&[0x10, 0x00, 0x00, 0x00]); // size 16, little endian
    b.extend_from_slice(&[1, 2, 3]);
    let o = OpcUa::try_make(&b).expect("hello message");
    assert!(matches!(o.msg_type, MessageType::HEL));
    assert_eq!(o.chunk_type, b'F');
    assert_eq!(o.message_size, 16);
    assert_eq!(o.data, vec![1, 2, 3]);
    assert!(OpcUa::try_make(&b[..7]).is_none());
    assert!(OpcUa::try_make(b"zzzzzzzzzz").is_none());
}

#[test]
fn ipv6_header_decodes() {
    let mut b = vec![0u8; 40];
    b[0] = 0x60; // version 6
    b[4] = 0x00;
    b[5] = 0x20; // payload length 32
    b[6] = 17; // next header: UDP
    b[7] = 64; // hop limit
    for i in 0..16 {
        b[8 + i] = i as u8;
        b[24 + i] = 0xF0 + i as u8;
    }
    let v = IPv6::new(&b).expect("IPv6 header");
    assert_eq!(v.len, 32);
    assert_eq!(v.header, 17);
    assert_eq!(v.hops, 64);
    assert_eq!(v.src, (0..16).map(|i| i as u8).collect::<Vec<u8>>());
    assert_eq!(v.dst, (0..16).map(|i| 0xF0 + i as u8).collect::<Vec<u8>>());
    for n in 0..40 {
        assert!(IPv6::new(&b[..n]).is_none());
    }
}

#[test]
fn udp_decodes_and_offers_payload_to_dhcp() {
    let mut b = Vec::new();
    b.extend_from_slice(&[0x00, 68]); // source port
    b.extend_from_slice(&[0x00, 67]); // destination port
    b.extend_from_slice(&[0x01, 0x08]); // length
    b.extend_from_slice(&[0x00, 0x00]); // checksum
    let mut dhcp = vec![0u8; 236];
    dhcp[0] = 0x02; // reply
    b.extend_from_slice(&dhcp);
    let u = UDP::new(&b).expect("UDP datagram");
    assert_eq!(u.src, 68);
    assert_eq!(u.dst, 67);
    assert_eq!(u.payload.len(), 236);
    assert!(u.layers.dhcp.is_some());
    for n in 0..8 {
        assert!(UDP::new(&b[..n]).is_none());
    }
    let plain = [0u8, 53, 0, 53, 0, 12, 0, 0, 1, 2, 3, 4];
    let u = UDP::new(&plain).expect("UDP datagram");
    assert!(u.layers.dhcp.is_none());
    assert_eq!(u.payload, vec![1, 2, 3, 4]);
}
