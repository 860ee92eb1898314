use rust_pcap::http::{HTTPKind, HTTP};
use rust_pcap::opc_ua::MessageType;
use rust_pcap::tcp::{DissectionContext, TCP};

const PSH: u16 = 0x8;
const ACK: u16 = 0x10;
const FIN: u16 = 0x1;

fn tcp_bytes(src_port: u16, dst_port: u16, flags: u16, payload: &[u8]) -> Vec<u8> {
    let mut b = Vec::new();
    b.extend_from_slice(&src_port.to_be_bytes());
    b.extend_from_slice(&dst_port.to_be_bytes());
    b.extend_from_slice(&1u32.to_be_bytes()); // sequence number
    b.extend_from_slice(&2u32.to_be_bytes()); // acknowledgment number
    b.push(0x50 | ((flags >> 8) as u8 & 1)); // header length 5, NS bit
    b.push(flags as u8);
    b.extend_from_slice(&[0x20, 0x00]); // window size
    b.extend_from_slice(&[0x00, 0x00]); // checksum
    b.extend_from_slice(&[0x00, 0x00]); // urgent pointer
    b.extend_from_slice(payload);
    b
}

const SRC_IP: u32 = 0x0A000001;
const DST_IP: u32 = 0x0A000002;

#[test]
fn tcp_header_fields_decode() {
    let seg = tcp_bytes(8080, 80, PSH | ACK, b"xy");
    let mut ctx = DissectionContext::new();
    let t = TCP::new(&seg, SRC_IP, DST_IP, &mut ctx).expect("TCP segment");
    assert_eq!(t.src, 8080);
    assert_eq!(t.dst, 80);
    assert_eq!(t.sn, 1);
    assert_eq!(t.ack_sn, 2);
    assert_eq!(t.header_len, 5);
    assert!(t.flags.psh && t.flags.ack);
    assert!(!t.flags.syn && !t.flags.fin && !t.flags.ns);
    assert_eq!(t.window_size, 0x2000);
    assert_eq!(t.data, b"xy".to_vec());
    assert!(t.is_tail_of_sequence());
}

#[test]
fn tcp_short_buffer_yields_no_record() {
    let seg = tcp_bytes(1, 2, 0, b"");
    let mut ctx = DissectionContext::new();
    for n in 0..20 {
        assert!(TCP::new(&seg[..n], SRC_IP, DST_IP, &mut ctx).is_none());
    }
    // a declared header length below the fixed header is refused
    let mut bad = tcp_bytes(1, 2, 0, b"");
    bad[12] = 0x40; // header length 4 * 4 = 16 bytes
    assert!(TCP::new(&bad, SRC_IP, DST_IP, &mut ctx).is_none());
}

#[test]
fn tail_segment_takes_whole_buffer_and_closes_flow() {
    let mut ctx = DissectionContext::new();
    let seg1 = tcp_bytes(1000, 2000, ACK, b"abc");
    let t1 = TCP::new(&seg1, SRC_IP, DST_IP, &mut ctx).expect("first segment");
    assert!(t1.whole_data.is_empty());
    assert_eq!(ctx.tcp.flows.len(), 1);
    let seg2 = tcp_bytes(1000, 2000, PSH, b"def");
    let t2 = TCP::new(&seg2, SRC_IP, DST_IP, &mut ctx).expect("tail segment");
    assert_eq!(t2.whole_data, b"abcdef".to_vec());
    assert_eq!(ctx.tcp.flows.len(), 0);
}

#[test]
fn directions_keep_separate_flows() {
    let mut ctx = DissectionContext::new();
    let seg = tcp_bytes(1000, 2000, ACK, b"one");
    TCP::new(&seg, SRC_IP, DST_IP, &mut ctx).unwrap();
    let back = tcp_bytes(2000, 1000, ACK, b"two");
    TCP::new(&back, DST_IP, SRC_IP, &mut ctx).unwrap();
    assert_eq!(ctx.tcp.flows.len(), 2);
}

#[test]
fn http_request_split_mid_line_detected_only_when_complete() {
    let mut ctx = DissectionContext::new();
    let seg1 = tcp_bytes(1234, 80, ACK, b"GET / HT");
    let t1 = TCP::new(&seg1, SRC_IP, DST_IP, &mut ctx).expect("first half");
    assert!(t1.layers.http.is_none());
    let seg2 = tcp_bytes(1234, 80, PSH, b"TP/1.1\r\n\r\n");
    let t2 = TCP::new(&seg2, SRC_IP, DST_IP, &mut ctx).expect("second half");
    let http = t2.layers.http.expect("request detected once the line is whole");
    match &http.kind {
        HTTPKind::Req { method, uri } => {
            assert_eq!(method, &b"GET".to_vec());
            assert_eq!(uri, &b"/".to_vec());
        }
        other => panic!("wrong kind: {:?}", other),
    }
    assert_eq!(http.version, (1, 1));
    assert!(http.is_finalized);
}

#[test]
fn http_response_with_body_accumulates_payload() {
    let mut ctx = DissectionContext::new();
    let seg1 = tcp_bytes(80, 1234, ACK, b"HTTP/1.0 200 OK\r\nA: b\r\n\r\nhello");
    let t1 = TCP::new(&seg1, SRC_IP, DST_IP, &mut ctx).expect("status line");
    let h1 = t1.layers.http.expect("response detected");
    match &h1.kind {
        HTTPKind::Res { status, reason } => {
            assert_eq!(*status, 200);
            assert_eq!(reason, &b"OK".to_vec());
        }
        other => panic!("wrong kind: {:?}", other),
    }
    assert_eq!(h1.version, (1, 0));
    assert!(!h1.is_finalized);
    assert_eq!(h1.payload, b"hello".to_vec());
    // the next segment extends the shared body buffer
    let seg2 = tcp_bytes(80, 1234, FIN, b" world");
    let t2 = TCP::new(&seg2, SRC_IP, DST_IP, &mut ctx).expect("body segment");
    let h2 = t2.layers.http.expect("still an HTTP flow");
    assert_eq!(h2.payload, b"hello world".to_vec());
    assert!(h2.is_finalized);
}

#[test]
fn request_line_decoders_match_and_reject() {
    let (kind, ver) = HTTP::_is_request(b"GET /index.html HTTP/1.1").expect("request line");
    match kind {
        HTTPKind::Req { method, uri } => {
            assert_eq!(method, b"GET".to_vec());
            assert_eq!(uri, b"/index.html".to_vec());
        }
        other => panic!("wrong kind: {:?}", other),
    }
    assert_eq!(ver, (1, 1));
    let (kind, _) = HTTP::_is_request(b"POST /api?q=1 HTTP/1.0").expect("request line");
    assert!(matches!(kind, HTTPKind::Req { .. }));
    assert!(HTTP::_is_request(b"FETCH / HTTP/1.1").is_none());
    assert!(HTTP::_is_request(b"GET / FTP/1.1").is_none());
    assert!(HTTP::_is_request(b"GET  HTTP/1.1").is_none());
    assert!(HTTP::_is_response(b"HTTP/1.1 404 Not Found").is_some());
    let (kind, ver) = HTTP::_is_response(b"HTTP/1.1 404 Not Found").unwrap();
    match kind {
        HTTPKind::Res { status, reason } => {
            assert_eq!(status, 404);
            assert_eq!(reason, b"Not Found".to_vec());
        }
        other => panic!("wrong kind: {:?}", other),
    }
    assert_eq!(ver, (1, 1));
    assert!(HTTP::_is_response(b"HTTP/1.1 40 Not Found").is_none());
    assert!(HTTP::_is_response(b"nonsense").is_none());
}

#[test]
fn opc_ua_detected_on_non_http_flow() {
    let mut ctx = DissectionContext::new();
    let mut payload = Vec::new();
    payload.extend_from_slice(b"HEL");
    payload.push(b'F');
    payload.extend_from_slice(&32u32.to_le_bytes());
    payload.extend_from_slice(&[7, 8]);
    let seg = tcp_bytes(49000, 4840, ACK, &payload);
    let t = TCP::new(&seg, SRC_IP, DST_IP, &mut ctx).expect("segment");
    assert!(t.layers.http.is_none());
    let o = t.layers.opc_ua.expect("hello message detected");
    assert!(matches!(o.msg_type, MessageType::HEL));
    assert_eq!(o.message_size, 32);
    assert!(t.layers.tpkt.is_none());
}

#[test]
fn tpkt_detected_when_nothing_else_matches() {
    let mut ctx = DissectionContext::new();
    let seg = tcp_bytes(49000, 102, ACK, &[3, 0, 0, 11, 6, 0xE0]);
    let t = TCP::new(&seg, SRC_IP, DST_IP, &mut ctx).expect("segment");
    assert!(t.layers.http.is_none());
    assert!(t.layers.opc_ua.is_none());
    let tp = t.layers.tpkt.expect("TPKT header detected");
    assert_eq!(tp.version, 3);
    assert_eq!(tp.reserved, 0);
    assert_eq!(tp.len, 11);
}

#[test]
fn empty_payload_segment_detects_nothing() {
    let mut ctx = DissectionContext::new();
    let seg = tcp_bytes(5, 6, ACK, b"");
    let t = TCP::new(&seg, SRC_IP, DST_IP, &mut ctx).expect("segment");
    assert!(t.layers.http.is_none());
    assert!(t.layers.opc_ua.is_none());
    assert!(t.layers.tpkt.is_none());
}

#[test]
fn opc_ua_hello_split_across_segments_detected_from_accumulated_buffer() {
    let mut ctx = DissectionContext::new();
    // the type bytes alone are not enough: the 8-byte header is incomplete
    let seg1 = tcp_bytes(49000, 4840, ACK, b"HEL");
    let t1 = TCP::new(&seg1, SRC_IP, DST_IP, &mut ctx).expect("first segment");
    assert!(t1.layers.opc_ua.is_none());
    assert!(t1.layers.http.is_none());
    // the next segment completes the header in the flow's accumulated
    // buffer, and detection reads that buffer, not the lone segment
    let mut rest = Vec::new();
    rest.push(b'F');
    rest.extend_from_slice(&24u32.to_le_bytes());
    rest.extend_from_slice(&[5, 6]);
    let seg2 = tcp_bytes(49000, 4840, ACK, &rest);
    let t2 = TCP::new(&seg2, SRC_IP, DST_IP, &mut ctx).expect("second segment");
    let o = t2.layers.opc_ua.expect("hello detected once the header is whole");
    assert!(matches!(o.msg_type, MessageType::HEL));
    assert_eq!(o.chunk_type, b'F');
    assert_eq!(o.message_size, 24);
    assert_eq!(o.data, vec![5, 6]);
    assert!(t2.layers.tpkt.is_none());
}
