use rust_pcap::frame::{Frame, LinkType};
use rust_pcap::icmp::ICMPData;
use rust_pcap::layers::{HasLayers, Layer, LayerRecord, Layers};
use rust_pcap::tcp::DissectionContext;

fn ipv4_bytes(proto: u8, payload: &[u8]) -> Vec<u8> {
    let mut ip = Vec::new();
    ip.push(0x45);
    ip.push(0x00);
    ip.extend_from_slice(&((20 + payload.len()) as u16).to_be_bytes());
    ip.extend_from_slice(&[0x00, 0x01]);
    ip.extend_from_slice(&[0x00, 0x00]);
    ip.push(64);
    ip.push(proto);
    ip.extend_from_slice(&[0x00, 0x00]);
    ip.extend_from_slice(&[10, 0, 0, 1]);
    ip.extend_from_slice(&[10, 0, 0, 2]);
    ip.extend_from_slice(payload);
    ip
}

fn tcp_payload() -> Vec<u8> {
    let mut tcp = Vec::new();
    tcp.extend_from_slice(&4321u16.to_be_bytes());
    tcp.extend_from_slice(&443u16.to_be_bytes());
    tcp.extend_from_slice(&7u32.to_be_bytes());
    tcp.extend_from_slice(&0u32.to_be_bytes());
    tcp.push(0x50);
    tcp.push(0x10);
    tcp.extend_from_slice(&[0x10, 0x00, 0x00, 0x00, 0x00, 0x00]);
    tcp
}

fn eth_frame(payload: &[u8], ethertype: [u8; 2], ctx: &mut DissectionContext) -> Frame {
    let mut eth = Vec::new();
    eth.extend_from_slice(&[0xAA; 6]);
    eth.extend_from_slice(&[0xBB; 6]);
    eth.extend_from_slice(&ethertype);
    eth.extend_from_slice(payload);
    Frame::new(&eth, 0, eth.len() as u32, eth.len() as u32, LinkType::Ethernet, ctx)
}

#[test]
fn tcp_lookup_through_ethernet_descent_matches_direct_ipv4_lookup() {
    let mut ctx = DissectionContext::new();
    let frame = eth_frame(&ipv4_bytes(6, &tcp_payload()), [0x08, 0x00], &mut ctx);
    // the frame-level registry holds only the Ethernet record
    let eth = frame.layers.ethernet.as_ref().expect("ethernet record");
    assert!(frame.layers.ipv4.is_none());
    let direct = eth
        .layers
        .ipv4
        .as_ref()
        .expect("nested IPv4 record")
        .layers
        .tcp
        .as_ref()
        .expect("nested TCP record");
    let via_descent = frame.get_tcp().expect("TCP through the descent chain");
    assert_eq!(via_descent, direct);
    assert_eq!(via_descent.src, 4321);
    assert_eq!(via_descent.dst, 443);
}

#[test]
fn raw_ipv4_link_type_fills_the_frame_level_slot() {
    let mut ctx = DissectionContext::new();
    let bytes = ipv4_bytes(6, &tcp_payload());
    let frame = Frame::new(&bytes, 0, bytes.len() as u32, bytes.len() as u32, LinkType::Ipv4, &mut ctx);
    assert!(frame.layers.ethernet.is_none());
    assert!(frame.layers.ipv4.is_some());
    assert!(frame.get_tcp().is_some());
    assert!(frame.get_udp().is_none());
}

#[test]
fn icmp_and_arp_reachable_through_descent() {
    let mut ctx = DissectionContext::new();
    let mut icmp = vec![8u8, 0, 0xAB, 0xCD];
    icmp.extend_from_slice(&[0, 1, 0, 2]);
    let frame = eth_frame(&ipv4_bytes(1, &icmp), [0x08, 0x00], &mut ctx);
    let got = frame.get_icmp().expect("ICMP through descent");
    assert!(matches!(got.data, ICMPData::Echo { .. }));
    assert!(frame.get_tcp().is_none());

    let mut arp = Vec::new();
    arp.extend_from_slice(&[0, 1, 8, 0, 6, 4, 0, 1]);
    arp.extend_from_slice(&[0; 20]);
    let frame = eth_frame(&arp, [0x08, 0x06], &mut ctx);
    assert!(frame.get_arp().is_some());
    assert!(frame.get_ipv4().is_none());
}

#[test]
fn vlan_tagged_frame_parses_as_stripped() {
    let mut ctx = DissectionContext::new();
    let inner = ipv4_bytes(6, &tcp_payload());
    let mut eth = Vec::new();
    eth.extend_from_slice(&[0xAA; 6]);
    eth.extend_from_slice(&[0xBB; 6]);
    eth.extend_from_slice(&[0x81, 0x00]); // 802.1Q tag
    eth.extend_from_slice(&[0x00, 0x64]); // VLAN 100
    eth.extend_from_slice(&[0x08, 0x00]);
    eth.extend_from_slice(&inner);
    let frame = Frame::new(&eth, 0, eth.len() as u32, eth.len() as u32, LinkType::Ethernet, &mut ctx);
    let e = frame.layers.ethernet.as_ref().expect("stripped frame parsed");
    assert_eq!(e.eth_type, 0x0800);
    assert!(frame.get_tcp().is_some());
}

#[test]
fn unknown_ethertype_yields_no_child_layer() {
    let mut ctx = DissectionContext::new();
    let frame = eth_frame(&[0u8; 40], [0x88, 0x09], &mut ctx);
    let e = frame.layers.ethernet.as_ref().expect("frame still decoded");
    assert_eq!(e.eth_type, 0x8809);
    assert!(e.layers.ipv4.is_none());
    assert!(e.layers.arp.is_none());
    assert!(e.layers.goose.is_none());
}

#[test]
fn short_ethernet_frame_yields_no_record() {
    let mut ctx = DissectionContext::new();
    let frame = Frame::new(&[0u8; 13], 0, 13, 13, LinkType::Ethernet, &mut ctx);
    assert!(frame.layers.ethernet.is_none());
    assert_eq!(frame.data.len(), 13);
}

#[test]
fn insert_overwrites_same_slot_and_keeps_others() {
    let mut ctx = DissectionContext::new();
    let f1 = eth_frame(&ipv4_bytes(6, &tcp_payload()), [0x08, 0x00], &mut ctx);
    let f2 = eth_frame(&[0u8; 40], [0x88, 0x09], &mut ctx);
    let mut layers = Layers::new();
    layers.insert(LayerRecord::Ethernet(f1.layers.ethernet.unwrap()));
    assert_eq!(layers.ethernet.as_ref().unwrap().eth_type, 0x0800);
    layers.insert(LayerRecord::Ethernet(f2.layers.ethernet.unwrap()));
    assert_eq!(layers.ethernet.as_ref().unwrap().eth_type, 0x8809);
    assert!(layers.ipv4.is_none());
    assert!(layers.ipv6.is_none());
}

#[test]
fn layer_names_and_frame_registry_access() {
    let mut ctx = DissectionContext::new();
    let frame = eth_frame(&ipv4_bytes(6, &tcp_payload()), [0x08, 0x00], &mut ctx);
    let eth = frame.layers().ethernet.as_ref().expect("ethernet record");
    assert_eq!(eth.name(), "Ethernet");
    let ip = eth.layers.ipv4.as_ref().unwrap();
    assert_eq!(ip.name(), "IPv4");
}

#[test]
fn raw_ipv6_link_type_fills_the_ipv6_slot() {
    let mut ctx = DissectionContext::new();
    let mut b = vec![0u8; 40];
    b[0] = 0x60;
    b[6] = 17;
    b[7] = 64;
    let frame = Frame::new(&b, 0, 40, 40, LinkType::Ipv6, &mut ctx);
    let v = frame.layers.ipv6.as_ref().expect("IPv6 record");
    assert_eq!(v.header, 17);
    assert_eq!(v.hops, 64);
    assert!(frame.layers.ethernet.is_none());
}

#[test]
fn unknown_link_type_decodes_nothing() {
    let mut ctx = DissectionContext::new();
    let frame = Frame::new(&[1, 2, 3], 7, 3, 3, LinkType::Other, &mut ctx);
    assert!(frame.layers.ethernet.is_none());
    assert!(frame.layers.ipv4.is_none());
    assert!(frame.layers.ipv6.is_none());
    assert_eq!(frame.ts, 7);
    assert_eq!(frame.data, vec![1, 2, 3]);
}
