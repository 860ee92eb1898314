//! IPv4: header decode with the 3-bit flags / 13-bit fragment offset
//! word, then dispatch on the protocol number to ICMP, TCP or UDP.

use vstd::prelude::*;

use crate::codec::{be16, be32, read_u16_be, read_u32_be, read_u8, take_from, take_range};
use crate::icmp::{icmp_post, ICMP};
use crate::tcp::{tcp_new_post, DissectionContext, TCP};
use crate::udp::{udp_post, UDP};

verus! {

/// The three IPv4 header flag bits.
#[derive(Debug, PartialEq)]
pub struct IPFlags {
    pub null: bool,
    pub df: bool,
    pub mf: bool,
}

/// Child layers an IPv4 packet may carry.
#[derive(Debug, PartialEq)]
pub struct IPLayers {
    pub icmp: Option<ICMP>,
    pub tcp: Option<TCP>,
    pub udp: Option<UDP>,
}

/// One decoded IPv4 packet. Addresses are big-endian-packed 32-bit
/// values.
#[derive(Debug, PartialEq)]
pub struct IPv4 {
    pub ihl: u8,
    pub dscp: u8,
    pub ecn: u8,
    pub size: u16,
    pub id: u16,
    pub flags: IPFlags,
    pub fragments_offset: u16,
    pub ttl: u8,
    pub protocol: u8,
    pub checksum: u16,
    pub src: u32,
    pub dst: u32,
    pub opt: Option<Vec<u8>>,
    pub layers: IPLayers,
}

/// Header length in bytes: 20, or 24 when the IHL asks for the options
/// word.
pub open spec fn ipv4_hdr_end(s: Seq<u8>) -> int {
    if (s[0] & 0x0F) > 5 {
        24
    } else {
        20
    }
}

/// The slice is long enough for the header its IHL declares.
pub open spec fn ipv4_len_ok(s: Seq<u8>) -> bool {
    s.len() >= ipv4_hdr_end(s)
}

/// The header fields of `v` are exactly the fixed-offset reads of `s`.
pub open spec fn ipv4_fields_ok(s: Seq<u8>, v: IPv4) -> bool {
    &&& v.ihl == (s[0] & 0x0F)
    &&& v.dscp == (s[1] >> 2)
    &&& v.ecn == (s[1] & 0x03)
    &&& v.size == be16(s, 2)
    &&& v.id == be16(s, 4)
    &&& v.flags.null == ((be16(s, 6) & 0x8000) != 0)
    &&& v.flags.df == ((be16(s, 6) & 0x4000) != 0)
    &&& v.flags.mf == ((be16(s, 6) & 0x2000) != 0)
    &&& v.fragments_offset == (be16(s, 6) & 0x1FFF)
    &&& v.ttl == s[8]
    &&& v.protocol == s[9]
    &&& v.checksum == be16(s, 10)
    &&& v.src == be32(s, 12)
    &&& v.dst == be32(s, 16)
    &&& if (s[0] & 0x0F) > 5 {
        v.opt matches Some(o) && o@ == s.subrange(20, 24)
    } else {
        v.opt is None
    }
}

/// `r` is the decode result for `s` against the dissection context: the
/// header fields, and the payload dispatched on the protocol number (1
/// ICMP, 6 TCP — which alone touches the context — 17 UDP).
pub open spec fn ipv4_post(
    s: Seq<u8>,
    pre: crate::tcp::TCPContext,
    post: crate::tcp::TCPContext,
    r: Option<IPv4>,
) -> bool {
    if !ipv4_len_ok(s) {
        &&& r is None
        &&& post == pre
    } else {
        &&& r matches Some(v)
        &&& (r matches Some(v) ==> {
            let p = s.subrange(ipv4_hdr_end(s), s.len() as int);
            &&& ipv4_fields_ok(s, v)
            &&& (v.protocol == 1 ==> icmp_post(p, v.layers.icmp) && v.layers.tcp is None
                && v.layers.udp is None && post == pre)
            &&& (v.protocol == 6 ==> tcp_new_post(p, be32(s, 12), be32(s, 16), pre, post,
            v.layers.tcp) && v.layers.icmp is None && v.layers.udp is None)
            &&& (v.protocol == 17 ==> udp_post(p, v.layers.udp) && v.layers.icmp is None
                && v.layers.tcp is None && post == pre)
            &&& (v.protocol != 1 && v.protocol != 6 && v.protocol != 17 ==> v.layers.icmp is None
                && v.layers.tcp is None && v.layers.udp is None && post == pre)
        })
    }
}

impl IPv4 {
    /// Decodes an IPv4 packet against the live dissection context; see
    /// [`ipv4_post`].
    pub fn new(data: &[u8], ctx: &mut DissectionContext) -> (r: Option<IPv4>)
        requires
            old(ctx).tcp.wf(),
        ensures
            final(ctx).tcp.wf(),
            ipv4_post(data@, old(ctx).tcp, final(ctx).tcp, r),
    {
        if data.len() < 20 {
            return None;
        }
        let b0 = read_u8(data, 0).unwrap();
        let ihl = b0 & 0x0F;
        let b1 = read_u8(data, 1).unwrap();
        let ecn = b1 & 0x03;
        let dscp = b1 >> 2u8;
        let size = read_u16_be(data, 2).unwrap();
        let id = read_u16_be(data, 4).unwrap();
        let fo = read_u16_be(data, 6).unwrap();
        let flags = IPFlags { null: (fo & 0x8000) != 0, df: (fo & 0x4000) != 0, mf: (fo & 0x2000)
            != 0 };
        let fragments_offset = fo & 0x1FFF;
        let ttl = read_u8(data, 8).unwrap();
        let protocol = read_u8(data, 9).unwrap();
        let checksum = read_u16_be(data, 10).unwrap();
        let src = read_u32_be(data, 12).unwrap();
        let dst = read_u32_be(data, 16).unwrap();
        let opt: Option<Vec<u8>> = if ihl > 5 {
            if data.len() < 24 {
                return None;
            }
            Some(take_range(data, 20, 24).unwrap())
        } else {
            None
        };
        let hdr_end: usize = if ihl > 5 {
            24
        } else {
            20
        };
        let payload = take_from(data, hdr_end).unwrap();
        let mut layers = IPLayers { icmp: None, tcp: None, udp: None };
        if protocol == 1 {
            layers.icmp = ICMP::new(payload.as_slice());
        } else if protocol == 6 {
            layers.tcp = TCP::new(payload.as_slice(), src, dst, ctx);
        } else if protocol == 17 {
            layers.udp = UDP::new(payload.as_slice());
        }
        Some(
            IPv4 {
                ihl,
                dscp,
                ecn,
                size,
                id,
                flags,
                fragments_offset,
                ttl,
                protocol,
                checksum,
                src,
                dst,
                opt,
                layers,
            },
        )
    }
}

} // verus!
