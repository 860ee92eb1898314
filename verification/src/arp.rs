//! ARP: fixed-offset big-endian decode of a 28-byte packet. No child
//! layers are dispatched.

use vstd::prelude::*;

use crate::codec::{be16, be32, be48, read_u16_be, read_u32_be, read_u48_be, read_u8};

verus! {

/// One decoded ARP packet. Hardware addresses are 48-bit values held in
/// the low bits of a `u64`; protocol addresses are 32-bit values.
#[derive(Debug, PartialEq)]
pub struct ARP {
    pub htype: u16,
    pub ptype: u16,
    pub hlen: u8,
    pub plen: u8,
    pub oper: u16,
    pub sha: u64,
    pub spa: u32,
    pub tha: u64,
    pub tpa: u32,
}

/// `r` is the decode result for `s`: a record with the fixed-offset
/// reads exactly when the 28-byte packet is complete.
pub open spec fn arp_post(s: Seq<u8>, r: Option<ARP>) -> bool {
    if s.len() >= 28 {
        r matches Some(a) && arp_fields_ok(s, a)
    } else {
        r is None
    }
}

/// The fields of `a` are exactly the fixed-offset reads of `s`.
pub open spec fn arp_fields_ok(s: Seq<u8>, a: ARP) -> bool {
    &&& a.htype == be16(s, 0)
    &&& a.ptype == be16(s, 2)
    &&& a.hlen == s[4]
    &&& a.plen == s[5]
    &&& a.oper == be16(s, 6)
    &&& a.sha == be48(s, 8)
    &&& a.spa == be32(s, 14)
    &&& a.tha == be48(s, 18)
    &&& a.tpa == be32(s, 24)
}

impl ARP {
    /// Minimum packet length in bytes.
    pub open spec fn min_len() -> int {
        28
    }

    /// Decodes an ARP packet; a slice shorter than 28 bytes yields no
    /// record.
    pub fn new(data: &[u8]) -> (r: Option<ARP>)
        ensures
            arp_post(data@, r),
    {
        let htype = read_u16_be(data, 0)?;
        let ptype = read_u16_be(data, 2)?;
        let hlen = read_u8(data, 4)?;
        let plen = read_u8(data, 5)?;
        let oper = read_u16_be(data, 6)?;
        let sha = read_u48_be(data, 8)?;
        let spa = read_u32_be(data, 14)?;
        let tha = read_u48_be(data, 18)?;
        let tpa = read_u32_be(data, 24)?;
        Some(ARP { htype, ptype, hlen, plen, oper, sha, spa, tha, tpa })
    }
}

} // verus!
