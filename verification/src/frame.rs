//! Frame decoder: one captured packet plus the live dissection context
//! in, one `Frame` with its layer registry out. Lookup of a nested
//! protocol record walks the fixed descendant chain (frame, then
//! Ethernet, then IPv4 and its transport children).

use vstd::prelude::*;

use crate::arp::ARP;
use crate::dhcp::DHCP;
use crate::ethernet::{eth_post, Ethernet};
use crate::http::HTTP;
use crate::icmp::ICMP;
use crate::ip::{ipv4_post, IPv4};
use crate::ipv6::{ipv6_post, IPv6};
use crate::layers::{HasLayers, LayerRecord, Layers};
use crate::tcp::{DissectionContext, TCP};
use crate::udp::UDP;

verus! {

/// The link layer of a captured packet, as the capture source reports
/// it.
#[derive(Debug, PartialEq, Eq, Structural, Clone, Copy)]
pub enum LinkType {
    Ethernet,
    Ipv4,
    Ipv6,
    Other,
}

/// One captured packet: timestamp in microseconds, captured and original
/// lengths, the raw bytes, and the decoded layer registry.
#[derive(Debug, PartialEq)]
pub struct Frame {
    pub ts: u64,
    pub caplen: u32,
    pub origlen: u32,
    pub data: Vec<u8>,
    pub layers: Layers,
}

/// `r` is the decode of one captured packet: metadata kept as given, the
/// raw bytes kept whole, and the link type choosing which parser fills
/// the registry (only TCP under Ethernet or IPv4 touches the context).
pub open spec fn frame_post(
    s: Seq<u8>,
    ts: u64,
    caplen: u32,
    origlen: u32,
    link_type: LinkType,
    pre: crate::tcp::TCPContext,
    post: crate::tcp::TCPContext,
    r: Frame,
) -> bool {
    &&& r.ts == ts
    &&& r.caplen == caplen
    &&& r.origlen == origlen
    &&& r.data@ == s
    &&& (link_type == LinkType::Ethernet ==> eth_post(s, pre, post, r.layers.ethernet)
        && r.layers.ipv4 is None && r.layers.ipv6 is None)
    &&& (link_type == LinkType::Ipv4 ==> ipv4_post(s, pre, post, r.layers.ipv4)
        && r.layers.ethernet is None && r.layers.ipv6 is None)
    &&& (link_type == LinkType::Ipv6 ==> ipv6_post(s, r.layers.ipv6) && r.layers.ethernet is None
        && r.layers.ipv4 is None && post == pre)
    &&& (link_type == LinkType::Other ==> r.layers.ethernet is None && r.layers.ipv4 is None
        && r.layers.ipv6 is None && post == pre)
}

impl Frame {
    /// Decodes one captured packet against the live dissection context;
    /// see [`frame_post`]. A failing parser leaves its slot empty, never
    /// fails the frame.
    pub fn new(
        data: &[u8],
        ts: u64,
        caplen: u32,
        origlen: u32,
        link_type: LinkType,
        ctx: &mut DissectionContext,
    ) -> (r: Frame)
        requires
            old(ctx).tcp.wf(),
        ensures
            final(ctx).tcp.wf(),
            frame_post(data@, ts, caplen, origlen, link_type, old(ctx).tcp, final(ctx).tcp, r),
    {
        let mut layers = Layers::new();
        match link_type {
            LinkType::Ethernet => {
                match Ethernet::new(data, ctx) {
                    Some(e) => {
                        layers.insert(LayerRecord::Ethernet(e));
                    },
                    None => {},
                }
            },
            LinkType::Ipv4 => {
                match IPv4::new(data, ctx) {
                    Some(v) => {
                        layers.insert(LayerRecord::IPv4(v));
                    },
                    None => {},
                }
            },
            LinkType::Ipv6 => {
                match IPv6::new(data) {
                    Some(v) => {
                        layers.insert(LayerRecord::IPv6(v));
                    },
                    None => {},
                }
            },
            LinkType::Other => {},
        }
        let copy = clone_bytes_from(data);
        Frame { ts, caplen, origlen, data: copy, layers }
    }

    /// The IPv4 record: the frame's own slot, or the one under its
    /// Ethernet record.
    pub open spec fn spec_get_ipv4(self) -> Option<IPv4> {
        if self.layers.ipv4 is Some {
            self.layers.ipv4
        } else {
            match self.layers.ethernet {
                Some(e) => e.layers.ipv4,
                None => None,
            }
        }
    }

    /// The IPv4 record reachable from this frame.
    pub fn get_ipv4(&self) -> (r: Option<&IPv4>)
        ensures
            match r {
                Some(v) => self.spec_get_ipv4() == Some(*v),
                None => self.spec_get_ipv4() is None,
            },
    {
        match &self.layers.ipv4 {
            Some(v) => Some(v),
            None => {
                match &self.layers.ethernet {
                    Some(e) => {
                        match &e.layers.ipv4 {
                            Some(v) => Some(v),
                            None => None,
                        }
                    },
                    None => None,
                }
            },
        }
    }

    /// The ARP record under the frame's Ethernet record.
    pub open spec fn spec_get_arp(self) -> Option<ARP> {
        match self.layers.ethernet {
            Some(e) => e.layers.arp,
            None => None,
        }
    }

    /// The ARP record reachable from this frame.
    pub fn get_arp(&self) -> (r: Option<&ARP>)
        ensures
            match r {
                Some(a) => self.spec_get_arp() == Some(*a),
                None => self.spec_get_arp() is None,
            },
    {
        match &self.layers.ethernet {
            Some(e) => {
                match &e.layers.arp {
                    Some(a) => Some(a),
                    None => None,
                }
            },
            None => None,
        }
    }

    /// The ICMP record under the reachable IPv4 record.
    pub open spec fn spec_get_icmp(self) -> Option<ICMP> {
        let via_eth = match self.layers.ethernet {
            Some(e) => match e.layers.ipv4 {
                Some(v) => v.layers.icmp,
                None => None,
            },
            None => None,
        };
        if via_eth is Some {
            via_eth
        } else {
            match self.layers.ipv4 {
                Some(v) => v.layers.icmp,
                None => None,
            }
        }
    }

    /// The ICMP record reachable from this frame.
    pub fn get_icmp(&self) -> (r: Option<&ICMP>)
        ensures
            match r {
                Some(c) => self.spec_get_icmp() == Some(*c),
                None => self.spec_get_icmp() is None,
            },
    {
        match &self.layers.ethernet {
            Some(e) => {
                match &e.layers.ipv4 {
                    Some(v) => {
                        match &v.layers.icmp {
                            Some(c) => {
                                return Some(c);
                            },
                            None => {},
                        }
                    },
                    None => {},
                }
            },
            None => {},
        }
        match &self.layers.ipv4 {
            Some(v) => {
                match &v.layers.icmp {
                    Some(c) => Some(c),
                    None => None,
                }
            },
            None => None,
        }
    }

    /// The TCP record under the reachable IPv4 record.
    pub open spec fn spec_get_tcp(self) -> Option<TCP> {
        let via_eth = match self.layers.ethernet {
            Some(e) => match e.layers.ipv4 {
                Some(v) => v.layers.tcp,
                None => None,
            },
            None => None,
        };
        if via_eth is Some {
            via_eth
        } else {
            match self.layers.ipv4 {
                Some(v) => v.layers.tcp,
                None => None,
            }
        }
    }

    /// The TCP record reachable from this frame.
    pub fn get_tcp(&self) -> (r: Option<&TCP>)
        ensures
            match r {
                Some(t) => self.spec_get_tcp() == Some(*t),
                None => self.spec_get_tcp() is None,
            },
    {
        match &self.layers.ethernet {
            Some(e) => {
                match &e.layers.ipv4 {
                    Some(v) => {
                        match &v.layers.tcp {
                            Some(t) => {
                                return Some(t);
                            },
                            None => {},
                        }
                    },
                    None => {},
                }
            },
            None => {},
        }
        match &self.layers.ipv4 {
            Some(v) => {
                match &v.layers.tcp {
                    Some(t) => Some(t),
                    None => None,
                }
            },
            None => None,
        }
    }

    /// The UDP record under the reachable IPv4 record.
    pub open spec fn spec_get_udp(self) -> Option<UDP> {
        let via_eth = match self.layers.ethernet {
            Some(e) => match e.layers.ipv4 {
                Some(v) => v.layers.udp,
                None => None,
            },
            None => None,
        };
        if via_eth is Some {
            via_eth
        } else {
            match self.layers.ipv4 {
                Some(v) => v.layers.udp,
                None => None,
            }
        }
    }

    /// The UDP record reachable from this frame.
    pub fn get_udp(&self) -> (r: Option<&UDP>)
        ensures
            match r {
                Some(u) => self.spec_get_udp() == Some(*u),
                None => self.spec_get_udp() is None,
            },
    {
        match &self.layers.ethernet {
            Some(e) => {
                match &e.layers.ipv4 {
                    Some(v) => {
                        match &v.layers.udp {
                            Some(u) => {
                                return Some(u);
                            },
                            None => {},
                        }
                    },
                    None => {},
                }
            },
            None => {},
        }
        match &self.layers.ipv4 {
            Some(v) => {
                match &v.layers.udp {
                    Some(u) => Some(u),
                    None => None,
                }
            },
            None => None,
        }
    }

    /// The HTTP record under the reachable TCP record.
    pub open spec fn spec_get_http(self) -> Option<HTTP> {
        match self.spec_get_tcp() {
            Some(t) => t.layers.http,
            None => None,
        }
    }

    /// The HTTP record reachable from this frame.
    pub fn get_http(&self) -> (r: Option<&HTTP>)
        ensures
            match r {
                Some(h) => self.spec_get_http() == Some(*h),
                None => self.spec_get_http() is None,
            },
    {
        match self.get_tcp() {
            Some(t) => {
                match &t.layers.http {
                    Some(h) => Some(h),
                    None => None,
                }
            },
            None => None,
        }
    }

    /// The DHCP record under the reachable UDP record.
    pub open spec fn spec_get_dhcp(self) -> Option<DHCP> {
        match self.spec_get_udp() {
            Some(u) => u.layers.dhcp,
            None => None,
        }
    }

    /// The DHCP record reachable from this frame.
    pub fn get_dhcp(&self) -> (r: Option<&DHCP>)
        ensures
            match r {
                Some(d) => self.spec_get_dhcp() == Some(*d),
                None => self.spec_get_dhcp() is None,
            },
    {
        match self.get_udp() {
            Some(u) => {
                match &u.layers.dhcp {
                    Some(d) => Some(d),
                    None => None,
                }
            },
            None => None,
        }
    }
}

impl HasLayers for Frame {
    open spec fn layers_spec(&self) -> Layers {
        self.layers
    }

    fn layers(&self) -> (r: &Layers) {
        &self.layers
    }
}

/// An owned copy of a byte slice.
fn clone_bytes_from(data: &[u8]) -> (r: Vec<u8>)
    ensures
        r@ == data@,
{
    let v = vstd::slice::slice_to_vec(data);
    v
}

/// Looking a record up through the Ethernet descent returns the record
/// that a direct lookup on the nested IPv4 record holds: a frame whose
/// Ethernet record carries an IPv4 record (and whose own IPv4 slot is
/// empty) yields that record's TCP child, whatever it is.
pub proof fn lemma_descent_matches_direct(f: Frame, e: Ethernet, v: IPv4)
    requires
        f.layers.ethernet == Some(e),
        e.layers.ipv4 == Some(v),
        f.layers.ipv4 is None,
    ensures
        f.spec_get_ipv4() == Some(v),
        f.spec_get_tcp() == v.layers.tcp,
        f.spec_get_udp() == v.layers.udp,
        f.spec_get_icmp() == v.layers.icmp,
{
}

} // verus!
