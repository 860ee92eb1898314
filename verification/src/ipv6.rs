//! IPv6: header-field decode only; no payload dispatch.

use vstd::prelude::*;

use crate::codec::{be16, be32, read_u16_be, read_u32_be, read_u8, take_range};

verus! {

#[derive(Debug, PartialEq)]
pub struct IPv6 {
    pub qos: u8,
    pub label: u32,
    pub len: u16,
    pub header: u8,
    pub hops: u8,
    pub src: Vec<u8>,
    pub dst: Vec<u8>,
}

/// `r` is the decode result for `s`: a record with the header fields
/// exactly when the 40-byte header is present.
pub open spec fn ipv6_post(s: Seq<u8>, r: Option<IPv6>) -> bool {
    if s.len() >= 40 {
        r matches Some(v) && v.qos == ((be16(s, 0) << 4) as u8) && v.label == (be32(s, 0) << 12)
            && v.len == be16(s, 4) && v.header == s[6] && v.hops == s[7] && v.src@ == s.subrange(
            8,
            24,
        ) && v.dst@ == s.subrange(24, 40)
    } else {
        r is None
    }
}

impl IPv6 {
    /// Decodes an IPv6 header; a slice shorter than 40 bytes yields no
    /// record. See [`ipv6_post`].
    pub fn new(data: &[u8]) -> (r: Option<IPv6>)
        ensures
            ipv6_post(data@, r),
    {
        let q16 = read_u16_be(data, 0)?;
        let qos: u8 = #[verifier::truncate] ((q16 << 4u16) as u8);
        let label32 = read_u32_be(data, 0)?;
        let label = label32 << 12u32;
        let len = read_u16_be(data, 4)?;
        let header = read_u8(data, 6)?;
        let hops = read_u8(data, 7)?;
        let src = take_range(data, 8, 24)?;
        let dst = take_range(data, 24, 40)?;
        Some(IPv6 { qos, label, len, header, hops, src, dst })
    }
}

} // verus!
