//! Ethernet: MAC addresses, EtherType dispatch to IPv4 / ARP / GOOSE, and
//! 802.1Q tag stripping by re-parsing the contiguous view of the frame
//! minus the four tag bytes. EtherTypes without a decoder yield a record
//! with no child layer.

use vstd::prelude::*;

use crate::arp::{arp_post, ARP};
use crate::codec::{be16, extend_bytes, read_u16_be, take_from, take_range};
use crate::goose::{goose_post, GOOSE};
use crate::ip::{ipv4_post, IPv4};
use crate::tcp::DissectionContext;

verus! {

/// EtherType of IPv4.
pub open spec fn eth_ip4() -> u16 {
    0x0800
}

/// EtherType of ARP.
pub open spec fn eth_arp() -> u16 {
    0x0806
}

/// EtherType of an 802.1Q tag.
pub open spec fn eth_vlan() -> u16 {
    0x8100
}

/// EtherType of GOOSE.
pub open spec fn eth_goose() -> u16 {
    0x88B8
}

/// Child layers an Ethernet frame may carry.
#[derive(Debug, PartialEq)]
pub struct EthLayers {
    pub ipv4: Option<IPv4>,
    pub arp: Option<ARP>,
    pub goose: Option<GOOSE>,
}

/// One decoded Ethernet frame.
#[derive(Debug, PartialEq)]
pub struct Ethernet {
    pub src: Vec<u8>,
    pub dst: Vec<u8>,
    pub eth_type: u16,
    pub crc: Vec<u8>,
    pub layers: EthLayers,
}

/// The frame with the four 802.1Q tag bytes taken out.
pub open spec fn eth_strip(s: Seq<u8>) -> Seq<u8> {
    s.subrange(0, 12) + s.subrange(16, s.len() as int)
}

/// `r` is the decode result for frame bytes `s` against the dissection
/// context: too-short frames yield no record, 802.1Q frames are decoded
/// as their stripped view, and the EtherType picks the child decoder.
pub open spec fn eth_post(
    s: Seq<u8>,
    pre: crate::tcp::TCPContext,
    post: crate::tcp::TCPContext,
    r: Option<Ethernet>,
) -> bool
    decreases s.len(),
{
    if s.len() < 14 {
        &&& r is None
        &&& post == pre
    } else {
        let et = be16(s, 12);
        if et == eth_vlan() {
            if s.len() < 16 {
                &&& r is None
                &&& post == pre
            } else {
                eth_post(eth_strip(s), pre, post, r)
            }
        } else {
            &&& r matches Some(e)
            &&& (r matches Some(e) ==> {
                let p = s.subrange(14, s.len() as int);
                &&& e.src@ == s.subrange(0, 6)
                &&& e.dst@ == s.subrange(6, 12)
                &&& e.eth_type == et
                &&& e.crc@ == s.subrange(s.len() - 4, s.len() as int)
                &&& (et == eth_ip4() ==> ipv4_post(p, pre, post, e.layers.ipv4) && e.layers.arp
                    is None && e.layers.goose is None)
                &&& (et == eth_arp() ==> arp_post(p, e.layers.arp) && e.layers.ipv4 is None
                    && e.layers.goose is None && post == pre)
                &&& (et == eth_goose() ==> goose_post(p, e.layers.goose) && e.layers.ipv4 is None
                    && e.layers.arp is None && post == pre)
                &&& (et != eth_ip4() && et != eth_arp() && et != eth_goose() ==> e.layers.ipv4
                    is None && e.layers.arp is None && e.layers.goose is None && post == pre)
            })
        }
    }
}

impl Ethernet {
    /// Decodes an Ethernet frame against the live dissection context; see
    /// [`eth_post`].
    pub fn new(data: &[u8], ctx: &mut DissectionContext) -> (r: Option<Ethernet>)
        requires
            old(ctx).tcp.wf(),
        ensures
            final(ctx).tcp.wf(),
            eth_post(data@, old(ctx).tcp, final(ctx).tcp, r),
        decreases data@.len(),
    {
        if data.len() < 14 {
            return None;
        }
        let et = read_u16_be(data, 12).unwrap();
        if et == 0x8100 {
            // strip the four interposed tag bytes and re-parse the
            // contiguous view
            if data.len() < 16 {
                return None;
            }
            let mut stripped = take_range(data, 0, 12).unwrap();
            let rest = take_from(data, 16).unwrap();
            extend_bytes(&mut stripped, rest.as_slice());
            proof {
                assert(stripped@ == eth_strip(data@));
            }
            return Ethernet::new(stripped.as_slice(), ctx);
        }
        let src = take_range(data, 0, 6).unwrap();
        let dst = take_range(data, 6, 12).unwrap();
        let crc = take_range(data, data.len() - 4, data.len()).unwrap();
        let payload = take_from(data, 14).unwrap();
        let mut layers = EthLayers { ipv4: None, arp: None, goose: None };
        if et == 0x0800 {
            layers.ipv4 = IPv4::new(payload.as_slice(), ctx);
        } else if et == 0x0806 {
            layers.arp = ARP::new(payload.as_slice());
        } else if et == 0x88B8 {
            layers.goose = GOOSE::new(payload.as_slice());
        }
        Some(Ethernet { src, dst, eth_type: et, crc, layers })
    }
}

} // verus!
