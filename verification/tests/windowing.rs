use rust_pcap::counter::Count;
use rust_pcap::frame::{Frame, LinkType};
use rust_pcap::tcp::DissectionContext;

const SECOND: u64 = 1_000_000; // microseconds

fn plain_frame(ts_micros: u64, size: usize) -> Frame {
    let data = vec![0u8; size];
    let mut ctx = DissectionContext::new();
    Frame::new(&data, ts_micros, size as u32, size as u32, LinkType::Other, &mut ctx)
}

#[test]
fn no_flush_while_frames_stay_inside_the_period() {
    // frames at t = 0 s and t = 1 s with a 2 s period: one window only,
    // flushed at end of stream
    let frames = vec![plain_frame(0, 10), plain_frame(SECOND, 20)];
    let counts = Count::compute(&frames, Some(2 * SECOND));
    assert_eq!(counts.len(), 1);
    assert_eq!(counts[0].total, 2);
    assert_eq!(counts[0].bytes, 30);
    assert_eq!(counts[0].sizes, vec![10, 20]);
    assert_eq!(counts[0].intervals, vec![SECOND]);
}

#[test]
fn gap_synthesizes_three_empty_windows() {
    // frames at t = 0 s and t = 10 s with a 2 s period: the real window,
    // three synthesized empty windows, then the window holding t = 10 s
    let frames = vec![plain_frame(0, 10), plain_frame(10 * SECOND, 20)];
    let counts = Count::compute(&frames, Some(2 * SECOND));
    assert_eq!(counts.len(), 5);
    assert_eq!(counts[0].total, 1);
    assert_eq!(counts[0].bytes, 10);
    for k in 1..4 {
        assert_eq!(counts[k].total, 0);
        assert_eq!(counts[k].bytes, 0);
        assert_eq!(counts[k].sizes.len(), 0);
    }
    assert_eq!(counts[4].total, 1);
    assert_eq!(counts[4].bytes, 20);
}

#[test]
fn single_short_window_still_flushes_at_end_of_stream() {
    let frames = vec![plain_frame(5, 64)];
    let counts = Count::compute(&frames, Some(2 * SECOND));
    assert_eq!(counts.len(), 1);
    assert_eq!(counts[0].total, 1);
    assert_eq!(counts[0].bytes, 64);
    assert_eq!(counts[0].intervals.len(), 0);
}

#[test]
fn no_period_folds_everything_into_one_window() {
    let frames = vec![
        plain_frame(0, 1),
        plain_frame(30 * SECOND, 2),
        plain_frame(90 * SECOND, 3),
    ];
    let counts = Count::compute(&frames, None);
    assert_eq!(counts.len(), 1);
    assert_eq!(counts[0].total, 3);
    assert_eq!(counts[0].bytes, 6);
    assert_eq!(counts[0].intervals, vec![30 * SECOND, 60 * SECOND]);
}

#[test]
fn empty_stream_produces_no_windows() {
    let frames: Vec<Frame> = Vec::new();
    let counts = Count::compute(&frames, Some(SECOND));
    assert_eq!(counts.len(), 0);
}

#[test]
fn interval_list_resets_at_window_boundaries() {
    // the first frame of a new window contributes no interval
    let frames = vec![
        plain_frame(0, 1),
        plain_frame(SECOND, 1),
        plain_frame(3 * SECOND, 1),
        plain_frame(3 * SECOND + SECOND / 2, 1),
    ];
    let counts = Count::compute(&frames, Some(2 * SECOND));
    assert_eq!(counts.len(), 2);
    assert_eq!(counts[0].intervals, vec![SECOND]);
    // the flush reset the previous-frame timestamp: only the distance
    // between the two frames inside the new window is recorded
    assert_eq!(counts[1].intervals, vec![SECOND / 2]);
}

fn eth_ipv4_tcp_frame(ts: u64, src_port: u16, dst_port: u16, flags: u16, payload: &[u8], ctx: &mut DissectionContext) -> Frame {
    let mut tcp = Vec::new();
    tcp.extend_from_slice(&src_port.to_be_bytes());
    tcp.extend_from_slice(&dst_port.to_be_bytes());
    tcp.extend_from_slice(&1u32.to_be_bytes());
    tcp.extend_from_slice(&0u32.to_be_bytes());
    tcp.push(0x50);
    tcp.push(flags as u8);
    tcp.extend_from_slice(&[0x10, 0x00, 0x00, 0x00, 0x00, 0x00]);
    tcp.extend_from_slice(payload);
    let mut ip = Vec::new();
    ip.push(0x45);
    ip.push(0x00);
    ip.extend_from_slice(&((20 + tcp.len()) as u16).to_be_bytes());
    ip.extend_from_slice(&[0x00, 0x01]); // identification
    ip.extend_from_slice(&[0x40, 0x00]); // don't fragment
    ip.push(64); // ttl
    ip.push(6); // protocol: TCP
    ip.extend_from_slice(&[0x00, 0x00]); // checksum
    ip.extend_from_slice(&[10, 0, 0, 1]);
    ip.extend_from_slice(&[10, 0, 0, 2]);
    ip.extend_from_slice(&tcp);
    let mut eth = Vec::new();
    eth.extend_from_slice(&[0xAA; 6]);
    eth.extend_from_slice(&[0xBB; 6]);
    eth.extend_from_slice(&[0x08, 0x00]);
    eth.extend_from_slice(&ip);
    let caplen = eth.len() as u32;
    Frame::new(&eth, ts, caplen, caplen, LinkType::Ethernet, ctx)
}

#[test]
fn apply_counts_protocols_flags_addresses_and_ports() {
    let mut ctx = DissectionContext::new();
    let frames = vec![
        eth_ipv4_tcp_frame(0, 1000, 80, 0x02, b"", &mut ctx), // SYN
        eth_ipv4_tcp_frame(SECOND, 1000, 80, 0x18, b"abcd", &mut ctx), // PSH | ACK
    ];
    let counts = Count::compute(&frames, None);
    assert_eq!(counts.len(), 1);
    let c = &counts[0];
    assert_eq!(c.total, 2);
    assert_eq!(c.ip, 2);
    assert_eq!(c.tcp, 2);
    assert_eq!(c.udp, 0);
    assert_eq!(c.arp, 0);
    assert_eq!(c.ip_flags.df, 2);
    assert_eq!(c.ip_flags.mf, 0);
    assert_eq!(c.tcp_flags.syn, 1);
    assert_eq!(c.tcp_flags.psh, 1);
    assert_eq!(c.tcp_flags.ack, 1);
    // two frames, two distinct addresses and two distinct ports
    assert_eq!(c.addresses.len(), 2);
    assert_eq!(c.ports.len(), 2);
    assert!(c.addresses.contains(&u32::from_be_bytes([10, 0, 0, 1])));
    assert!(c.ports.contains(&80));
    assert_eq!(c.data_bytes, 4);
}

#[test]
fn flush_returns_the_window_and_resets_the_accumulator() {
    let mut c: Count = Default::default();
    let f = plain_frame(0, 5);
    c.apply(&f);
    let mut sizes = vec![5u64, 7u64];
    let mut intervals = vec![3u64];
    let out = c.flush(&mut sizes, &mut intervals);
    assert_eq!(out.total, 1);
    assert_eq!(out.bytes, 12);
    assert_eq!(out.sizes, vec![5, 7]);
    assert_eq!(out.intervals, vec![3]);
    assert!(sizes.is_empty());
    assert!(intervals.is_empty());
    assert_eq!(c.total, 0);
    assert_eq!(c.bytes, 0);
    assert!(c.sizes.is_empty());
}
