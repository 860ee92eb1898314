//! TCP: header decode plus per-flow stream reassembly. Each segment's
//! payload is appended to its flow's accumulated buffer; HTTP, OPC-UA and
//! TPKT detection run over the result, and a segment carrying PSH or FIN
//! closes the flow and takes the whole accumulated buffer with it.
//!
//! Flow keys are one-directional: each direction of a connection keeps
//! its own reassembly state.

use vstd::prelude::*;

use crate::codec::{be16, be32, extend_bytes, read_u16_be, read_u32_be, read_u8, take_range};
use crate::http::{http_try_post, HTTP, HTTPContext};
use crate::opc_ua::{opc_post, OpcUa};
use crate::tpkt::{tpkt_post, TPKT};

verus! {

/// The nine TCP flag bits.
#[derive(Debug, PartialEq)]
pub struct TCPFlags {
    pub ns: bool,
    pub cwr: bool,
    pub ece: bool,
    pub urg: bool,
    pub ack: bool,
    pub psh: bool,
    pub rst: bool,
    pub syn: bool,
    pub fin: bool,
}

/// `f` holds exactly the flag bits of `bits` (the 16-bit word at header
/// offset 12).
pub open spec fn tcp_flags_ok(bits: u16, f: TCPFlags) -> bool {
    &&& f.ns == ((bits & 0x100) != 0)
    &&& f.cwr == ((bits & 0x80) != 0)
    &&& f.ece == ((bits & 0x40) != 0)
    &&& f.urg == ((bits & 0x20) != 0)
    &&& f.ack == ((bits & 0x10) != 0)
    &&& f.psh == ((bits & 0x8) != 0)
    &&& f.rst == ((bits & 0x4) != 0)
    &&& f.syn == ((bits & 0x2) != 0)
    &&& f.fin == ((bits & 0x1) != 0)
}

/// One-directional flow key: source address and port, destination
/// address and port. Addresses are big-endian-packed 32-bit values.
#[derive(Debug, PartialEq, Eq, Structural, Clone, Copy)]
pub struct FlowKey {
    pub src_ip: u32,
    pub src_port: u16,
    pub dst_ip: u32,
    pub dst_port: u16,
}

/// Accumulated reassembly state of one flow: the raw payload bytes seen
/// so far and the HTTP partial-parse state.
#[derive(Debug, PartialEq)]
pub struct TCPSequence {
    pub data: Vec<u8>,
    pub http: Option<HTTPContext>,
}

impl TCPSequence {
    pub open spec fn wf(self) -> bool {
        self.http matches Some(c) ==> c.wf()
    }

    /// Fresh flow state.
    pub fn new() -> (r: TCPSequence)
        ensures
            r.data@ == Seq::<u8>::empty(),
            r.http is None,
            r.wf(),
    {
        TCPSequence { data: Vec::new(), http: None }
    }
}

/// The map from live flow keys to their reassembly state.
#[derive(Debug, PartialEq)]
pub struct TCPContext {
    pub flows: Vec<(FlowKey, TCPSequence)>,
}

impl TCPContext {
    /// Keys are distinct and every flow's state is well formed.
    pub open spec fn wf(self) -> bool {
        &&& forall|i: int, j: int|
            0 <= i < j < self.flows@.len() ==> (#[trigger] self.flows@[i]).0 != (
            #[trigger] self.flows@[j]).0
        &&& forall|i: int| 0 <= i < self.flows@.len() ==> (#[trigger] self.flows@[i]).1.wf()
    }

    /// A flow with key `k` is live.
    pub open spec fn has_flow(self, k: FlowKey) -> bool {
        exists|i: int| 0 <= i < self.flows@.len() && (#[trigger] self.flows@[i]).0 == k
    }

    /// The position of the live flow with key `k`.
    pub open spec fn flow_index(self, k: FlowKey) -> int {
        choose|i: int| 0 <= i < self.flows@.len() && (#[trigger] self.flows@[i]).0 == k
    }

    /// The reassembly state of the live flow with key `k`.
    pub open spec fn flow_seq(self, k: FlowKey) -> TCPSequence {
        self.flows@[self.flow_index(k)].1
    }

    /// An entry at position `i` with key `k` is the one the map view
    /// denotes.
    pub proof fn lemma_at(self, i: int, k: FlowKey)
        requires
            self.wf(),
            0 <= i < self.flows@.len(),
            self.flows@[i].0 == k,
        ensures
            self.has_flow(k),
            self.flow_index(k) == i,
            self.flow_seq(k) == self.flows@[i].1,
    {
        assert(self.has_flow(k));
        let j = self.flow_index(k);
        if i != j {
            assert(self.flows@[i].0 != self.flows@[j].0);
        }
    }

    /// Appending an entry with an unused key leaves every other key's
    /// view unchanged and adds the new one.
    pub proof fn lemma_push_view(self, post: TCPContext, key: FlowKey, s: TCPSequence)
        requires
            self.wf(),
            !self.has_flow(key),
            s.wf(),
            post.flows@ == self.flows@.push((key, s)),
        ensures
            post.wf(),
            post.has_flow(key),
            post.flow_index(key) == self.flows@.len(),
            post.flow_seq(key) == s,
            forall|k2: FlowKey| k2 != key ==> #[trigger] post.has_flow(k2) == self.has_flow(k2),
            forall|k2: FlowKey|
                k2 != key && self.has_flow(k2) ==> #[trigger] post.flow_seq(k2) == self.flow_seq(
                    k2,
                ),
    {
        let n = self.flows@.len();
        assert(forall|i: int| 0 <= i < n ==> post.flows@[i] == self.flows@[i]);
        assert(forall|i: int| 0 <= i < n ==> (#[trigger] self.flows@[i]).0 != key);
        assert forall|i: int, j: int| 0 <= i < j < post.flows@.len() implies (
        #[trigger] post.flows@[i]).0 != (#[trigger] post.flows@[j]).0 by {
            if j < n {
                assert(self.flows@[i].0 != self.flows@[j].0);
            } else {
                assert(self.flows@[i].0 != key);
            }
        }
        assert forall|i: int| 0 <= i < post.flows@.len() implies (
        #[trigger] post.flows@[i]).1.wf() by {
            if i < n {
                assert(self.flows@[i].1.wf());
            }
        }
        post.lemma_at(n as int, key);
        assert forall|k2: FlowKey| k2 != key implies #[trigger] post.has_flow(k2)
            == self.has_flow(k2) by {
            if post.has_flow(k2) {
                let i = choose|i: int|
                    0 <= i < post.flows@.len() && (#[trigger] post.flows@[i]).0 == k2;
                assert(i < n);
                assert(self.flows@[i].0 == k2);
            }
            if self.has_flow(k2) {
                let i = choose|i: int|
                    0 <= i < self.flows@.len() && (#[trigger] self.flows@[i]).0 == k2;
                assert(post.flows@[i].0 == k2);
            }
        }
        assert forall|k2: FlowKey| k2 != key && self.has_flow(k2) implies #[trigger] post.flow_seq(
            k2,
        ) == self.flow_seq(k2) by {
            let i = choose|i: int|
                0 <= i < self.flows@.len() && (#[trigger] self.flows@[i]).0 == k2;
            self.lemma_at(i, k2);
            post.lemma_at(i, k2);
        }
    }

    /// Replacing the state stored under a key leaves every other key's
    /// view unchanged.
    pub proof fn lemma_update_view(self, post: TCPContext, idx: int, key: FlowKey)
        requires
            self.wf(),
            0 <= idx < self.flows@.len(),
            self.flows@[idx].0 == key,
            post.flows@.len() == self.flows@.len(),
            post.flows@[idx].0 == key,
            post.flows@[idx].1.wf(),
            forall|i: int| 0 <= i < self.flows@.len() && i != idx ==> post.flows@[i]
                == self.flows@[i],
        ensures
            post.wf(),
            post.has_flow(key),
            post.flow_seq(key) == post.flows@[idx].1,
            forall|k2: FlowKey| k2 != key ==> #[trigger] post.has_flow(k2) == self.has_flow(k2),
            forall|k2: FlowKey|
                k2 != key && self.has_flow(k2) ==> #[trigger] post.flow_seq(k2) == self.flow_seq(
                    k2,
                ),
    {
        assert forall|i: int, j: int| 0 <= i < j < post.flows@.len() implies (
        #[trigger] post.flows@[i]).0 != (#[trigger] post.flows@[j]).0 by {
            assert(post.flows@[i].0 == self.flows@[i].0);
            assert(post.flows@[j].0 == self.flows@[j].0);
            assert(self.flows@[i].0 != self.flows@[j].0);
        }
        assert forall|i: int| 0 <= i < post.flows@.len() implies (
        #[trigger] post.flows@[i]).1.wf() by {
            if i != idx {
                assert(self.flows@[i].1.wf());
            }
        }
        post.lemma_at(idx, key);
        assert forall|k2: FlowKey| k2 != key implies #[trigger] post.has_flow(k2)
            == self.has_flow(k2) by {
            if post.has_flow(k2) {
                let i = choose|i: int|
                    0 <= i < post.flows@.len() && (#[trigger] post.flows@[i]).0 == k2;
                assert(i != idx);
                assert(self.flows@[i].0 == k2);
            }
            if self.has_flow(k2) {
                let i = choose|i: int|
                    0 <= i < self.flows@.len() && (#[trigger] self.flows@[i]).0 == k2;
                assert(i != idx);
                assert(post.flows@[i].0 == k2);
            }
        }
        assert forall|k2: FlowKey| k2 != key && self.has_flow(k2) implies #[trigger] post.flow_seq(
            k2,
        ) == self.flow_seq(k2) by {
            let i = choose|i: int|
                0 <= i < self.flows@.len() && (#[trigger] self.flows@[i]).0 == k2;
            assert(i != idx);
            self.lemma_at(i, k2);
            post.lemma_at(i, k2);
        }
    }

    /// Removing a key's entry drops that key and leaves every other
    /// key's view unchanged.
    pub proof fn lemma_remove_view(self, post: TCPContext, idx: int, key: FlowKey)
        requires
            self.wf(),
            0 <= idx < self.flows@.len(),
            self.flows@[idx].0 == key,
            post.flows@ == self.flows@.remove(idx),
        ensures
            post.wf(),
            !post.has_flow(key),
            forall|k2: FlowKey| k2 != key ==> #[trigger] post.has_flow(k2) == self.has_flow(k2),
            forall|k2: FlowKey|
                k2 != key && self.has_flow(k2) ==> #[trigger] post.flow_seq(k2) == self.flow_seq(
                    k2,
                ),
    {
        let n = self.flows@.len();
        assert(post.flows@.len() == n - 1);
        assert(forall|i: int| 0 <= i < idx ==> post.flows@[i] == self.flows@[i]);
        assert(forall|i: int| idx <= i < n - 1 ==> post.flows@[i] == self.flows@[i + 1]);
        assert forall|i: int, j: int| 0 <= i < j < post.flows@.len() implies (
        #[trigger] post.flows@[i]).0 != (#[trigger] post.flows@[j]).0 by {
            let i2: int = if i < idx {
                i
            } else {
                i + 1
            };
            let j2: int = if j < idx {
                j
            } else {
                j + 1
            };
            assert(self.flows@[i2].0 != self.flows@[j2].0);
        }
        assert forall|i: int| 0 <= i < post.flows@.len() implies (
        #[trigger] post.flows@[i]).1.wf() by {
            let i2: int = if i < idx {
                i
            } else {
                i + 1
            };
            assert(self.flows@[i2].1.wf());
        }
        assert forall|i: int| 0 <= i < post.flows@.len() implies (#[trigger] post.flows@[i]).0
            != key by {
            let i2: int = if i < idx {
                i
            } else {
                i + 1
            };
            assert(post.flows@[i] == self.flows@[i2]);
            if i2 != idx {
                assert(self.flows@[i2].0 != self.flows@[idx].0);
            }
        }
        assert forall|k2: FlowKey| k2 != key implies #[trigger] post.has_flow(k2)
            == self.has_flow(k2) by {
            if post.has_flow(k2) {
                let i = choose|i: int|
                    0 <= i < post.flows@.len() && (#[trigger] post.flows@[i]).0 == k2;
                let i2: int = if i < idx {
                    i
                } else {
                    i + 1
                };
                assert(self.flows@[i2].0 == k2);
            }
            if self.has_flow(k2) {
                let i2 = choose|i: int|
                    0 <= i < self.flows@.len() && (#[trigger] self.flows@[i]).0 == k2;
                assert(i2 != idx);
                let i: int = if i2 < idx {
                    i2
                } else {
                    i2 - 1
                };
                assert(post.flows@[i].0 == k2);
            }
        }
        assert forall|k2: FlowKey| k2 != key && self.has_flow(k2) implies #[trigger] post.flow_seq(
            k2,
        ) == self.flow_seq(k2) by {
            let i2 = choose|i: int|
                0 <= i < self.flows@.len() && (#[trigger] self.flows@[i]).0 == k2;
            assert(i2 != idx);
            let i: int = if i2 < idx {
                i2
            } else {
                i2 - 1
            };
            assert(post.flows@[i] == self.flows@[i2]);
            post.lemma_at(i, k2);
            self.lemma_at(i2, k2);
        }
    }

    /// Empty map.
    pub fn new() -> (r: TCPContext)
        ensures
            r.flows@.len() == 0,
            r.wf(),
            forall|k: FlowKey| !r.has_flow(k),
    {
        TCPContext { flows: Vec::new() }
    }

    /// The position of the live flow with key `key`, or `None` when no
    /// flow has that key.
    pub fn find(&self, key: &FlowKey) -> (r: Option<usize>)
        ensures
            r matches Some(i) ==> i < self.flows@.len() && self.flows@[i as int].0 == *key,
            r is None ==> !self.has_flow(*key),
    {
        let n = self.flows.len();
        let mut i: usize = 0;
        while i < n
            invariant
                n == self.flows@.len(),
                i <= n,
                forall|j: int| 0 <= j < i ==> (#[trigger] self.flows@[j]).0 != *key,
            decreases n - i,
        {
            if self.flows[i].0 == *key {
                return Some(i);
            }
            i = i + 1;
        }
        None
    }
}

/// Cross-frame mutable dissection state; currently the TCP flow map.
#[derive(Debug, PartialEq)]
pub struct DissectionContext {
    pub tcp: TCPContext,
}

impl DissectionContext {
    /// Empty state.
    pub fn new() -> (r: DissectionContext)
        ensures
            r.tcp.flows@.len() == 0,
            r.tcp.wf(),
            forall|k: FlowKey| !r.tcp.has_flow(k),
    {
        DissectionContext { tcp: TCPContext::new() }
    }
}

/// Child layers a TCP segment may carry.
#[derive(Debug, PartialEq)]
pub struct TCPLayers {
    pub http: Option<HTTP>,
    pub opc_ua: Option<OpcUa>,
    pub tpkt: Option<TPKT>,
}

/// One decoded TCP segment.
#[derive(Debug, PartialEq)]
pub struct TCP {
    pub src: u16,
    pub dst: u16,
    pub sn: u32,
    pub ack_sn: u32,
    pub header_len: u8,
    pub flags: TCPFlags,
    pub window_size: u16,
    pub checksum: u16,
    pub urgent_point: u16,
    pub options: Vec<u8>,
    pub data: Vec<u8>,
    pub whole_data: Vec<u8>,
    pub layers: TCPLayers,
}

/// Header length in bytes, decoded from the top four bits of byte 12.
pub open spec fn tcp_hl(s: Seq<u8>) -> int {
    4 * ((s[12] >> 4) as int)
}

/// The slice is long enough for the fixed header and for the header
/// length its own bits declare.
pub open spec fn tcp_len_ok(s: Seq<u8>) -> bool {
    &&& s.len() >= 20
    &&& 20 <= tcp_hl(s)
    &&& tcp_hl(s) <= s.len()
}

/// The header fields of `t` are exactly the fixed-offset reads of `s`.
pub open spec fn tcp_header_ok(s: Seq<u8>, t: TCP) -> bool {
    &&& t.src == be16(s, 0)
    &&& t.dst == be16(s, 2)
    &&& t.sn == be32(s, 4)
    &&& t.ack_sn == be32(s, 8)
    &&& t.header_len == s[12] >> 4
    &&& tcp_flags_ok(be16(s, 12), t.flags)
    &&& t.window_size == be16(s, 14)
    &&& t.checksum == be16(s, 16)
    &&& t.urgent_point == be16(s, 18)
    &&& t.options@ == s.subrange(20, tcp_hl(s))
    &&& t.data@ == s.subrange(tcp_hl(s), s.len() as int)
}

/// The flow key of a segment in `s` between the given addresses.
pub open spec fn tcp_key_of(s: Seq<u8>, src_ip: u32, dst_ip: u32) -> FlowKey {
    FlowKey { src_ip, src_port: be16(s, 0), dst_ip, dst_port: be16(s, 2) }
}

/// The segment's payload: everything past the header.
pub open spec fn tcp_payload_of(s: Seq<u8>) -> Seq<u8> {
    s.subrange(tcp_hl(s), s.len() as int)
}

/// The bytes the key's flow had accumulated before this segment.
pub open spec fn tcp_pre_data(pre: TCPContext, key: FlowKey) -> Seq<u8> {
    if pre.has_flow(key) {
        pre.flow_seq(key).data@
    } else {
        Seq::<u8>::empty()
    }
}

/// The HTTP detection state the key's flow had before this segment.
pub open spec fn tcp_pre_http(pre: TCPContext, key: FlowKey) -> Option<HTTPContext> {
    if pre.has_flow(key) {
        pre.flow_seq(key).http
    } else {
        Option::<HTTPContext>::None
    }
}

/// The flow's accumulated bytes including this segment's payload.
pub open spec fn tcp_acc(s: Seq<u8>, pre: TCPContext, key: FlowKey) -> Seq<u8> {
    tcp_pre_data(pre, key) + tcp_payload_of(s)
}

/// A segment carrying PSH or FIN closes its flow.
pub open spec fn tcp_tail(t: TCP) -> bool {
    t.flags.psh || t.flags.fin
}

/// Detection over the flow's accumulated bytes: HTTP first, then
/// OPC-UA, then TPKT; at most one is attached.
pub open spec fn tcp_detect_post(
    s: Seq<u8>,
    key: FlowKey,
    pre: TCPContext,
    post: TCPContext,
    t: TCP,
) -> bool {
    &&& exists|hc: Option<HTTPContext>|
        {
            &&& #[trigger] http_try_post(
                tcp_pre_http(pre, key),
                tcp_payload_of(s),
                tcp_tail(t),
                hc,
                t.layers.http,
            )
            &&& (!tcp_tail(t) ==> post.has_flow(key) && post.flow_seq(key).http == hc)
        }
    &&& (t.layers.http is Some ==> t.layers.opc_ua is None && t.layers.tpkt is None)
    &&& (t.layers.http is None ==> opc_post(tcp_acc(s, pre, key), t.layers.opc_ua))
    &&& (t.layers.http is None && t.layers.opc_ua is Some ==> t.layers.tpkt is None)
    &&& (t.layers.http is None && t.layers.opc_ua is None ==> tpkt_post(
        tcp_acc(s, pre, key),
        t.layers.tpkt,
    ))
}

/// How the flow map changes: the key's flow accumulates the payload and,
/// on PSH or FIN, is removed with the whole buffer attached to the
/// record; every other flow is untouched.
pub open spec fn tcp_flows_post(
    s: Seq<u8>,
    key: FlowKey,
    pre: TCPContext,
    post: TCPContext,
    t: TCP,
) -> bool {
    &&& if tcp_tail(t) {
        &&& !post.has_flow(key)
        &&& t.whole_data@ == tcp_acc(s, pre, key)
    } else {
        &&& post.has_flow(key)
        &&& post.flow_seq(key).data@ == tcp_acc(s, pre, key)
        &&& t.whole_data@ == Seq::<u8>::empty()
    }
    &&& forall|k2: FlowKey| k2 != key ==> #[trigger] post.has_flow(k2) == pre.has_flow(k2)
    &&& forall|k2: FlowKey|
        k2 != key && pre.has_flow(k2) ==> #[trigger] post.flow_seq(k2) == pre.flow_seq(k2)
}

/// Everything `TCP::new` does, stated over the byte slice `s`, the flow
/// map before (`pre`) and after (`post`), and the result `r`: exact
/// header decode, payload accumulation under the segment's flow key,
/// HTTP / OPC-UA / TPKT detection in that order of preference, and
/// removal of the flow (with the whole buffer attached) on PSH or FIN.
pub open spec fn tcp_new_post(
    s: Seq<u8>,
    src_ip: u32,
    dst_ip: u32,
    pre: TCPContext,
    post: TCPContext,
    r: Option<TCP>,
) -> bool {
    if !tcp_len_ok(s) {
        &&& r is None
        &&& post == pre
    } else {
        &&& r matches Some(t)
        &&& (r matches Some(t) ==> {
            &&& tcp_header_ok(s, t)
            &&& tcp_detect_post(s, tcp_key_of(s, src_ip, dst_ip), pre, post, t)
            &&& tcp_flows_post(s, tcp_key_of(s, src_ip, dst_ip), pre, post, t)
        })
    }
}

impl TCP {
    /// A segment carrying PSH or FIN ends its reassembled sequence.
    pub fn is_tail_of_sequence(&self) -> (r: bool)
        ensures
            r == (self.flags.psh || self.flags.fin),
    {
        self.flags.psh || self.flags.fin
    }

    /// The one-directional flow key of a segment.
    pub fn _key(src_ip: u32, src: u16, dst_ip: u32, dst: u16) -> (k: FlowKey)
        ensures
            k == (FlowKey { src_ip, src_port: src, dst_ip, dst_port: dst }),
    {
        FlowKey { src_ip, src_port: src, dst_ip, dst_port: dst }
    }

    /// Decodes one TCP segment against the live dissection context. See
    /// [`tcp_new_post`] for the exact relation between the input bytes,
    /// the context before and after, and the result.
    #[verifier::rlimit(100)]
    #[verifier::spinoff_prover]
    pub fn new(data: &[u8], src_ip: u32, dst_ip: u32, ctx: &mut DissectionContext) -> (r: Option<
        TCP,
    >)
        requires
            old(ctx).tcp.wf(),
        ensures
            final(ctx).tcp.wf(),
            tcp_new_post(data@, src_ip, dst_ip, old(ctx).tcp, final(ctx).tcp, r),
    {
        if data.len() < 20 {
            return None;
        }
        let src = read_u16_be(data, 0).unwrap();
        let dst = read_u16_be(data, 2).unwrap();
        let sn = read_u32_be(data, 4).unwrap();
        let ack_sn = read_u32_be(data, 8).unwrap();
        let b12 = read_u8(data, 12).unwrap();
        let header_len = b12 >> 4u8;
        let bits = read_u16_be(data, 12).unwrap();
        let flags = TCPFlags {
            ns: (bits & 0x100) != 0,
            cwr: (bits & 0x80) != 0,
            ece: (bits & 0x40) != 0,
            urg: (bits & 0x20) != 0,
            ack: (bits & 0x10) != 0,
            psh: (bits & 0x8) != 0,
            rst: (bits & 0x4) != 0,
            syn: (bits & 0x2) != 0,
            fin: (bits & 0x1) != 0,
        };
        let window_size = read_u16_be(data, 14).unwrap();
        let checksum = read_u16_be(data, 16).unwrap();
        let urgent_point = read_u16_be(data, 18).unwrap();
        assert(b12 >> 4u8 <= 15) by (bit_vector);
        let hl4 = (header_len as usize) * 4;
        if hl4 < 20 || hl4 > data.len() {
            return None;
        }
        let options = take_range(data, 20, hl4).unwrap();
        let payload = take_range(data, hl4, data.len()).unwrap();
        let key = Self::_key(src_ip, src, dst_ip, dst);
        let ghost pre = ctx.tcp;
        let idx = match ctx.tcp.find(&key) {
            Some(i) => i,
            None => {
                let n = ctx.tcp.flows.len();
                ctx.tcp.flows.push((key, TCPSequence::new()));
                proof {
                    pre.lemma_push_view(ctx.tcp, key, ctx.tcp.flows@[n as int].1);
                }
                n
            },
        };
        proof {
            ctx.tcp.lemma_at(idx as int, key);
            if pre.has_flow(key) {
                assert(ctx.tcp == pre);
            }
        }
        let ghost mid = ctx.tcp;
        let ghost pre_data_g = mid.flows@[idx as int].1.data@;
        let ghost pre_http_g = mid.flows@[idx as int].1.http;
        proof {
            if pre.has_flow(key) {
                assert(pre_data_g == pre.flow_seq(key).data@);
                assert(pre_http_g == pre.flow_seq(key).http);
            } else {
                assert(pre_data_g =~= Seq::<u8>::empty());
                assert(pre_http_g is None);
            }
            // every key but `key` keeps its view from `pre` to `mid`
            assert(forall|k2: FlowKey|
                k2 != key ==> #[trigger] mid.has_flow(k2) == pre.has_flow(k2));
            assert(forall|k2: FlowKey|
                k2 != key && pre.has_flow(k2) ==> #[trigger] mid.flow_seq(k2) == pre.flow_seq(k2));
        }
        let pair = vstd::std_specs::vec::vec_index_mut(&mut ctx.tcp.flows, idx);
        extend_bytes(&mut pair.1.data, payload.as_slice());
        let mut tcp = TCP {
            src,
            dst,
            sn,
            ack_sn,
            header_len,
            flags,
            window_size,
            checksum,
            urgent_point,
            options,
            data: payload,
            whole_data: Vec::new(),
            layers: TCPLayers { http: None, opc_ua: None, tpkt: None },
        };
        let http = HTTP::try_make(&mut pair.1, &tcp);
        match http {
            Some(h) => {
                tcp.layers.http = Some(h);
            },
            None => {
                match OpcUa::try_make(pair.1.data.as_slice()) {
                    Some(o) => {
                        tcp.layers.opc_ua = Some(o);
                    },
                    None => {
                        match TPKT::try_make(&pair.1) {
                            Some(t) => {
                                tcp.layers.tpkt = Some(t);
                            },
                            None => {},
                        }
                    },
                }
            },
        }
        let ghost upd = ctx.tcp;
        let ghost s = data@;
        let ghost pay = s.subrange(tcp_hl(s), s.len() as int);
        let ghost acc = pre_data_g + pay;
        let ghost hc = upd.flows@[idx as int].1.http;
        proof {
            assert(s[12] == b12);
            assert(tcp_hl(s) == hl4 as int);
            assert(tcp_len_ok(s));
            assert(tcp.data@ == pay);
            assert(tcp_header_ok(s, tcp));
            assert(upd.flows@[idx as int].0 == key);
            assert(upd.flows@[idx as int].1.data@ == acc);
            assert(upd.flows@[idx as int].1.wf());
            mid.lemma_update_view(upd, idx as int, key);
            assert(upd.flow_seq(key).data@ == acc);
            assert(upd.flow_seq(key).http == hc);
            assert(http_try_post(
                pre_http_g,
                pay,
                tcp.flags.psh || tcp.flags.fin,
                hc,
                tcp.layers.http,
            ));
        }
        if tcp.is_tail_of_sequence() {
            let entry = ctx.tcp.flows.remove(idx);
            tcp.whole_data = entry.1.data;
            proof {
                upd.lemma_remove_view(ctx.tcp, idx as int, key);
                assert(tcp.whole_data@ == acc);
            }
        } else {
            proof {
                assert(tcp.whole_data@ =~= Seq::<u8>::empty());
            }
        }
        proof {
            assert(pre == old(ctx).tcp);
            let t = tcp;
            let key2 = tcp_key_of(s, src_ip, dst_ip);
            assert(key2 == key);
            assert(tcp_pre_data(pre, key2) == pre_data_g);
            assert(tcp_pre_http(pre, key2) == pre_http_g);
            assert(tcp_payload_of(s) == pay);
            assert(tcp_acc(s, pre, key2) == acc);
            let tl = tcp_tail(t);
            assert(http_try_post(tcp_pre_http(pre, key2), tcp_payload_of(s), tl, hc, t.layers.http));
            assert(!tl ==> ctx.tcp.has_flow(key2) && ctx.tcp.flow_seq(key2).http == hc);
            assert(t.layers.http is Some ==> t.layers.opc_ua is None && t.layers.tpkt is None);
            assert(t.layers.http is None ==> opc_post(tcp_acc(s, pre, key2), t.layers.opc_ua));
            assert(t.layers.http is None && t.layers.opc_ua is Some ==> t.layers.tpkt is None);
            assert(t.layers.http is None && t.layers.opc_ua is None ==> tpkt_post(
                tcp_acc(s, pre, key2),
                t.layers.tpkt,
            ));
            assert(tcp_detect_post(s, key2, pre, ctx.tcp, t));
            assert(tcp_flows_post(s, key2, pre, ctx.tcp, t));
            assert(tcp_new_post(s, src_ip, dst_ip, pre, ctx.tcp, Some(t)));
        }
        Some(tcp)
    }
}

} // verus!
