//! UDP: fixed 8-byte header decode; the payload is offered to the DHCP
//! recognizer.

use vstd::prelude::*;

use crate::codec::{be16, read_u16_be, take_from};
use crate::dhcp::{dhcp_fields_ok, DHCP};

verus! {

/// Child layers a UDP datagram may carry.
#[derive(Debug, PartialEq)]
pub struct UDPLayers {
    pub dhcp: Option<DHCP>,
}

/// One decoded UDP datagram.
#[derive(Debug, PartialEq)]
pub struct UDP {
    pub src: u16,
    pub dst: u16,
    pub len: u16,
    pub checksum: u16,
    pub payload: Vec<u8>,
    pub layers: UDPLayers,
}

/// `r` is the DHCP recognition result for payload `p`.
pub open spec fn udp_dhcp_ok(p: Seq<u8>, r: Option<DHCP>) -> bool {
    if p.len() >= 236 && (p[0] == 1 || p[0] == 2) {
        r matches Some(d) && dhcp_fields_ok(p, d)
    } else {
        r is None
    }
}

/// `r` is the decode result for `s`: a record exactly when the 8-byte
/// header is present, carrying the DHCP recognition of the payload.
pub open spec fn udp_post(s: Seq<u8>, r: Option<UDP>) -> bool {
    if s.len() >= 8 {
        r matches Some(u) && u.src == be16(s, 0) && u.dst == be16(s, 2) && u.len == be16(s, 4)
            && u.checksum == be16(s, 6) && u.payload@ == s.subrange(8, s.len() as int)
            && udp_dhcp_ok(u.payload@, u.layers.dhcp)
    } else {
        r is None
    }
}

impl UDP {
    /// Decodes a UDP datagram; a slice shorter than the 8-byte header
    /// yields no record. The payload is offered to the DHCP recognizer
    /// and the record carries the result. See [`udp_post`].
    pub fn new(data: &[u8]) -> (r: Option<UDP>)
        ensures
            udp_post(data@, r),
    {
        let src = read_u16_be(data, 0)?;
        let dst = read_u16_be(data, 2)?;
        let len = read_u16_be(data, 4)?;
        let checksum = read_u16_be(data, 6)?;
        let payload = take_from(data, 8)?;
        let dhcp = DHCP::try_make(payload.as_slice());
        Some(UDP { src, dst, len, checksum, payload, layers: UDPLayers { dhcp } })
    }
}

} // verus!
