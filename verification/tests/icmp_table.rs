use rust_pcap::icmp::{
    DSTUnreachable, Echo, Forward, ICMPData, InvalidParams, Photuris, ReqTime, TTLExpire, ICMP,
};

fn icmp_bytes(kind: u8, code: u8, body: &[u8]) -> Vec<u8> {
    let mut b = vec![kind, code, 0xAB, 0xCD];
    b.extend_from_slice(body);
    b
}

#[test]
fn echo_request_and_response_decode() {
    let body = [0x00, 0x07, 0x00, 0x2A, 0xDE, 0xAD];
    let req = ICMP::new(&icmp_bytes(8, 0, &body)).expect("echo request");
    assert_eq!(req.kind, 8);
    assert_eq!(req.checksum, 0xABCD);
    match req.data {
        ICMPData::Echo { id, kind: Echo::Request, num, data } => {
            assert_eq!(id, 7);
            assert_eq!(num, 42);
            assert_eq!(data, vec![0xDE, 0xAD]);
        }
        other => panic!("wrong variant: {:?}", other),
    }
    let res = ICMP::new(&icmp_bytes(0, 0, &body)).expect("echo response");
    assert!(matches!(res.data, ICMPData::Echo { kind: Echo::Response, .. }));
}

#[test]
fn destination_unreachable_codes_decode() {
    let body = [0u8; 12];
    let cases: &[(u8, DSTUnreachable)] = &[
        (0, DSTUnreachable::NetUnreachable),
        (3, DSTUnreachable::PortUnreachable),
        (5, DSTUnreachable::WrongRoad),
        (8, DSTUnreachable::SRCNodeIsolated),
        (13, DSTUnreachable::CommunicationAdminForbidden),
        (15, DSTUnreachable::PreferenceOrderPruning),
    ];
    for (code, want) in cases {
        let got = ICMP::new(&icmp_bytes(3, *code, &body)).expect("unreachable");
        match got.data {
            ICMPData::DstUnreachable { kind, .. } => assert_eq!(kind, *want),
            other => panic!("wrong variant: {:?}", other),
        }
    }
    // a code outside the table is the catch-all, not a failure
    let got = ICMP::new(&icmp_bytes(3, 16, &body)).expect("unknown code");
    assert!(matches!(got.data, ICMPData::Unknown));
}

#[test]
fn redirect_codes_decode() {
    let mut body = Vec::new();
    body.extend_from_slice(&[10, 0, 0, 1]); // gateway address
    body.extend_from_slice(&[0u8; 8]);
    let got = ICMP::new(&icmp_bytes(5, 2, &body)).expect("redirect");
    match got.data {
        ICMPData::Forward { kind, addr, .. } => {
            assert_eq!(kind, Forward::ToS);
            assert_eq!(addr, u32::from_be_bytes([10, 0, 0, 1]));
        }
        other => panic!("wrong variant: {:?}", other),
    }
    let got = ICMP::new(&icmp_bytes(5, 9, &body)).expect("unknown code");
    assert!(matches!(got.data, ICMPData::Unknown));
}

#[test]
fn ttl_exceeded_keeps_unknown_codes() {
    let body = [0u8; 12];
    let got = ICMP::new(&icmp_bytes(11, 0, &body)).expect("ttl");
    assert!(matches!(
        got.data,
        ICMPData::TTLExpire { kind: TTLExpire::Transportation, .. }
    ));
    let got = ICMP::new(&icmp_bytes(11, 1, &body)).expect("ttl");
    assert!(matches!(got.data, ICMPData::TTLExpire { kind: TTLExpire::BuildFrag, .. }));
    let got = ICMP::new(&icmp_bytes(11, 7, &body)).expect("ttl");
    assert!(matches!(got.data, ICMPData::TTLExpire { kind: TTLExpire::Unknown(7), .. }));
}

#[test]
fn parameter_problem_codes_decode() {
    let body = [9u8, 0, 0, 0, 0, 0, 0, 0, 0, 0, 0, 0];
    let got = ICMP::new(&icmp_bytes(12, 0, &body)).expect("parameter problem");
    assert!(matches!(
        got.data,
        ICMPData::InvalidParams(InvalidParams::PtrError { ptr: 9, .. })
    ));
    let got = ICMP::new(&icmp_bytes(12, 1, &body)).expect("parameter problem");
    assert!(matches!(
        got.data,
        ICMPData::InvalidParams(InvalidParams::MissingOptions { .. })
    ));
    let got = ICMP::new(&icmp_bytes(12, 2, &body)).expect("parameter problem");
    assert!(matches!(got.data, ICMPData::InvalidParams(InvalidParams::Length { .. })));
    let got = ICMP::new(&icmp_bytes(12, 3, &body)).expect("unknown code");
    assert!(matches!(got.data, ICMPData::Unknown));
}

#[test]
fn timestamps_decode() {
    let mut body = Vec::new();
    body.extend_from_slice(&[0x00, 0x05]); // identifier
    body.extend_from_slice(&[0x00, 0x06]); // sequence number
    body.extend_from_slice(&1000u32.to_be_bytes());
    body.extend_from_slice(&2000u32.to_be_bytes());
    body.extend_from_slice(&3000u32.to_be_bytes());
    let got = ICMP::new(&icmp_bytes(13, 0, &body)).expect("timestamp request");
    let want = ReqTime { id: 5, num: 6, begin_time: 1000, recv_time: 2000, send_time: 3000 };
    assert!(matches!(got.data, ICMPData::ReqTime(ref rt) if *rt == want));
    let got = ICMP::new(&icmp_bytes(14, 0, &body)).expect("timestamp response");
    assert!(matches!(got.data, ICMPData::ResTime(ref rt) if *rt == want));
}

#[test]
fn photuris_codes_decode() {
    let got = ICMP::new(&icmp_bytes(40, 3, &[])).expect("photuris");
    assert!(matches!(got.data, ICMPData::Photuris(Photuris::DecodeError)));
    let got = ICMP::new(&icmp_bytes(40, 5, &[])).expect("photuris");
    assert!(matches!(got.data, ICMPData::Photuris(Photuris::NeedAuth)));
    let got = ICMP::new(&icmp_bytes(40, 6, &[])).expect("unknown code");
    assert!(matches!(got.data, ICMPData::Unknown));
}

#[test]
fn remaining_type_buckets_decode() {
    assert!(matches!(
        ICMP::new(&icmp_bytes(9, 0, &[])).unwrap().data,
        ICMPData::RouterAdvertisement
    ));
    assert!(matches!(
        ICMP::new(&icmp_bytes(10, 0, &[])).unwrap().data,
        ICMPData::RouterRequest
    ));
    for kind in [1u8, 2, 7, 19, 20, 29, 42, 252, 255] {
        assert!(matches!(
            ICMP::new(&icmp_bytes(kind, 0, &[])).unwrap().data,
            ICMPData::Reserved
        ));
    }
    for kind in [4u8, 6, 15, 18, 30, 39] {
        assert!(matches!(ICMP::new(&icmp_bytes(kind, 0, &[])).unwrap().data, ICMPData::OutDate));
    }
    for kind in [41u8, 253, 254] {
        assert!(matches!(
            ICMP::new(&icmp_bytes(kind, 0, &[])).unwrap().data,
            ICMPData::Experimental
        ));
    }
}

#[test]
fn short_buffers_yield_no_record() {
    // below the common 4-byte header
    for n in 0..4 {
        assert!(ICMP::new(&vec![8u8; n]).is_none());
    }
    // echo needs 8 bytes
    assert!(ICMP::new(&icmp_bytes(8, 0, &[0, 1])).is_none());
    // unreachable needs 16 bytes
    assert!(ICMP::new(&icmp_bytes(3, 0, &[0u8; 8])).is_none());
    // timestamps need 20 bytes
    assert!(ICMP::new(&icmp_bytes(13, 0, &[0u8; 12])).is_none());
}
