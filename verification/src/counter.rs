//! Windowed traffic counter: frames are folded one at a time into the
//! current window's `Count`; when a frame falls past the window's end the
//! window is flushed, empty windows are synthesized for any further full
//! periods in the gap, and a new window opens. Timestamps and periods are
//! microseconds; the mean statistics of a window are left to the caller,
//! who derives them from the flushed window's recorded size and interval
//! lists.

use vstd::prelude::*;

use crate::frame::Frame;
use crate::icmp::{Echo, ICMPData};

verus! {

/// Tallies of the IPv4 flag bits seen in a window.
#[derive(Debug, PartialEq)]
pub struct IPCount {
    pub null: usize,
    pub df: usize,
    pub mf: usize,
}

/// Tallies of the TCP flag bits seen in a window.
#[derive(Debug, PartialEq)]
pub struct TCPCount {
    pub ns: usize,
    pub cwr: usize,
    pub ece: usize,
    pub urg: usize,
    pub ack: usize,
    pub psh: usize,
    pub rst: usize,
    pub syn: usize,
    pub fin: usize,
}

/// One statistical window.
#[derive(Debug, PartialEq)]
pub struct Count {
    pub total: usize,
    pub echo_req: usize,
    pub echo_res: usize,
    pub ip: usize,
    pub ip_flags: IPCount,
    pub icmp: usize,
    pub tcp: usize,
    pub tcp_flags: TCPCount,
    pub udp: usize,
    pub arp: usize,
    pub http: usize,
    pub smtp: usize,
    pub dhcp: usize,
    pub addresses: Vec<u32>,
    pub ports: Vec<u16>,
    pub bytes: u64,
    pub data_bytes: u64,
    pub sizes: Vec<u64>,
    pub intervals: Vec<u64>,
}

/// Mathematical view of a window's tallies.
pub ghost struct IPCountV {
    pub null: int,
    pub df: int,
    pub mf: int,
}

pub ghost struct TCPCountV {
    pub ns: int,
    pub cwr: int,
    pub ece: int,
    pub urg: int,
    pub ack: int,
    pub psh: int,
    pub rst: int,
    pub syn: int,
    pub fin: int,
}

/// Mathematical view of a window.
pub ghost struct CountV {
    pub total: int,
    pub echo_req: int,
    pub echo_res: int,
    pub ip: int,
    pub ip_flags: IPCountV,
    pub icmp: int,
    pub tcp: int,
    pub tcp_flags: TCPCountV,
    pub udp: int,
    pub arp: int,
    pub http: int,
    pub smtp: int,
    pub dhcp: int,
    pub addresses: Seq<u32>,
    pub ports: Seq<u16>,
    pub bytes: int,
    pub data_bytes: int,
    pub sizes: Seq<u64>,
    pub intervals: Seq<u64>,
}

impl View for Count {
    type V = CountV;

    open spec fn view(&self) -> CountV {
        CountV {
            total: self.total as int,
            echo_req: self.echo_req as int,
            echo_res: self.echo_res as int,
            ip: self.ip as int,
            ip_flags: IPCountV {
                null: self.ip_flags.null as int,
                df: self.ip_flags.df as int,
                mf: self.ip_flags.mf as int,
            },
            icmp: self.icmp as int,
            tcp: self.tcp as int,
            tcp_flags: TCPCountV {
                ns: self.tcp_flags.ns as int,
                cwr: self.tcp_flags.cwr as int,
                ece: self.tcp_flags.ece as int,
                urg: self.tcp_flags.urg as int,
                ack: self.tcp_flags.ack as int,
                psh: self.tcp_flags.psh as int,
                rst: self.tcp_flags.rst as int,
                syn: self.tcp_flags.syn as int,
                fin: self.tcp_flags.fin as int,
            },
            udp: self.udp as int,
            arp: self.arp as int,
            http: self.http as int,
            smtp: self.smtp as int,
            dhcp: self.dhcp as int,
            addresses: self.addresses@,
            ports: self.ports@,
            bytes: self.bytes as int,
            data_bytes: self.data_bytes as int,
            sizes: self.sizes@,
            intervals: self.intervals@,
        }
    }
}

/// The all-zero, all-empty window view.
pub open spec fn count_zero() -> CountV {
    CountV {
        total: 0,
        echo_req: 0,
        echo_res: 0,
        ip: 0,
        ip_flags: IPCountV { null: 0, df: 0, mf: 0 },
        icmp: 0,
        tcp: 0,
        tcp_flags: TCPCountV {
            ns: 0,
            cwr: 0,
            ece: 0,
            urg: 0,
            ack: 0,
            psh: 0,
            rst: 0,
            syn: 0,
            fin: 0,
        },
        udp: 0,
        arp: 0,
        http: 0,
        smtp: 0,
        dhcp: 0,
        addresses: Seq::<u32>::empty(),
        ports: Seq::<u16>::empty(),
        bytes: 0,
        data_bytes: 0,
        sizes: Seq::<u64>::empty(),
        intervals: Seq::<u64>::empty(),
    }
}

/// `s` with `x` appended unless already present.
pub open spec fn insert_unique<T>(s: Seq<T>, x: T) -> Seq<T> {
    if s.contains(x) {
        s
    } else {
        s.push(x)
    }
}

/// Saturating 64-bit addition.
pub open spec fn sat_add(a: int, b: int) -> int {
    if a + b > u64::MAX {
        u64::MAX as int
    } else {
        a + b
    }
}

/// Saturating 64-bit sum of a sequence.
pub open spec fn sat_sum(s: Seq<u64>) -> int
    decreases s.len(),
{
    if s.len() == 0 {
        0
    } else {
        sat_add(sat_sum(s.drop_last()), s.last() as int)
    }
}

/// Every counter of `c` stays within the window's frame total, so that
/// one more frame cannot overflow any of them.
pub open spec fn count_wf(c: CountV) -> bool {
    &&& 0 <= c.total
    &&& 0 <= c.echo_req <= c.total
    &&& 0 <= c.echo_res <= c.total
    &&& 0 <= c.ip <= c.total
    &&& 0 <= c.ip_flags.null <= c.total
    &&& 0 <= c.ip_flags.df <= c.total
    &&& 0 <= c.ip_flags.mf <= c.total
    &&& 0 <= c.icmp <= c.total
    &&& 0 <= c.tcp <= c.total
    &&& 0 <= c.tcp_flags.ns <= c.total
    &&& 0 <= c.tcp_flags.cwr <= c.total
    &&& 0 <= c.tcp_flags.ece <= c.total
    &&& 0 <= c.tcp_flags.urg <= c.total
    &&& 0 <= c.tcp_flags.ack <= c.total
    &&& 0 <= c.tcp_flags.psh <= c.total
    &&& 0 <= c.tcp_flags.rst <= c.total
    &&& 0 <= c.tcp_flags.syn <= c.total
    &&& 0 <= c.tcp_flags.fin <= c.total
    &&& 0 <= c.udp <= c.total
    &&& 0 <= c.arp <= c.total
    &&& 0 <= c.http <= c.total
    &&& 0 <= c.smtp <= c.total
    &&& 0 <= c.dhcp <= c.total
    &&& 0 <= c.bytes <= u64::MAX
    &&& 0 <= c.data_bytes <= u64::MAX
}

/// The frame total advancing by one.
pub open spec fn apply_total(c: CountV) -> CountV {
    CountV { total: c.total + 1, ..c }
}

/// The IPv4 share of one frame: packet count, flag tallies, and the two
/// addresses collected as distinct values.
pub open spec fn apply_ip(c: CountV, f: Frame) -> CountV {
    match f.spec_get_ipv4() {
        Some(v) => CountV {
            ip: c.ip + 1,
            ip_flags: IPCountV {
                null: c.ip_flags.null + (if v.flags.null {
                    1int
                } else {
                    0int
                }),
                df: c.ip_flags.df + (if v.flags.df {
                    1int
                } else {
                    0int
                }),
                mf: c.ip_flags.mf + (if v.flags.mf {
                    1int
                } else {
                    0int
                }),
            },
            addresses: insert_unique(insert_unique(c.addresses, v.src), v.dst),
            ..c
        },
        None => c,
    }
}

/// The ICMP share of one frame: message count and the echo sub-counters.
pub open spec fn apply_icmp(c: CountV, f: Frame) -> CountV {
    match f.spec_get_icmp() {
        Some(ic) => {
            let cc = CountV { icmp: c.icmp + 1, ..c };
            match ic.data {
                ICMPData::Echo { kind: Echo::Request, .. } => CountV {
                    echo_req: cc.echo_req + 1,
                    ..cc
                },
                ICMPData::Echo { kind: Echo::Response, .. } => CountV {
                    echo_res: cc.echo_res + 1,
                    ..cc
                },
                _ => cc,
            }
        },
        None => c,
    }
}

/// The TCP share of one frame: segment count, flag tallies, the two
/// ports collected as distinct values, and the payload length.
pub open spec fn apply_tcp(c: CountV, f: Frame) -> CountV {
    match f.spec_get_tcp() {
        Some(t) => CountV {
            tcp: c.tcp + 1,
            tcp_flags: TCPCountV {
                ns: c.tcp_flags.ns + (if t.flags.ns {
                    1int
                } else {
                    0int
                }),
                cwr: c.tcp_flags.cwr + (if t.flags.cwr {
                    1int
                } else {
                    0int
                }),
                ece: c.tcp_flags.ece + (if t.flags.ece {
                    1int
                } else {
                    0int
                }),
                urg: c.tcp_flags.urg + (if t.flags.urg {
                    1int
                } else {
                    0int
                }),
                ack: c.tcp_flags.ack + (if t.flags.ack {
                    1int
                } else {
                    0int
                }),
                psh: c.tcp_flags.psh + (if t.flags.psh {
                    1int
                } else {
                    0int
                }),
                rst: c.tcp_flags.rst + (if t.flags.rst {
                    1int
                } else {
                    0int
                }),
                syn: c.tcp_flags.syn + (if t.flags.syn {
                    1int
                } else {
                    0int
                }),
                fin: c.tcp_flags.fin + (if t.flags.fin {
                    1int
                } else {
                    0int
                }),
            },
            ports: insert_unique(insert_unique(c.ports, t.src), t.dst),
            data_bytes: sat_add(c.data_bytes, t.data@.len() as int),
            ..c
        },
        None => c,
    }
}

/// The UDP share of one frame: datagram count and the payload length.
pub open spec fn apply_udp(c: CountV, f: Frame) -> CountV {
    match f.spec_get_udp() {
        Some(u) => CountV {
            udp: c.udp + 1,
            data_bytes: sat_add(c.data_bytes, u.payload@.len() as int),
            ..c
        },
        None => c,
    }
}

/// The ARP, finalized-HTTP and DHCP counts of one frame.
pub open spec fn apply_app(c: CountV, f: Frame) -> CountV {
    let c1 = match f.spec_get_arp() {
        Some(_) => CountV { arp: c.arp + 1, ..c },
        None => c,
    };
    let c2 = match f.spec_get_http() {
        Some(h) => if h.is_finalized {
            CountV { http: c1.http + 1, ..c1 }
        } else {
            c1
        },
        None => c1,
    };
    match f.spec_get_dhcp() {
        Some(_) => CountV { dhcp: c2.dhcp + 1, ..c2 },
        None => c2,
    }
}

/// How one frame changes the current window's view: the total always
/// advances; each protocol's counters advance when the frame reaches
/// that protocol's record through the layer registry; addresses and
/// ports collect distinct values; payload bytes accumulate saturating.
pub open spec fn apply_spec(c: CountV, f: Frame) -> CountV {
    apply_app(apply_udp(apply_tcp(apply_icmp(apply_ip(apply_total(c), f), f), f), f), f)
}

/// How a window closes: the byte total is the saturating sum of the
/// recorded sizes, and the size and interval lists are attached to the
/// flushed window.
pub open spec fn flush_spec(c: CountV, sizes: Seq<u64>, intervals: Seq<u64>) -> CountV {
    CountV { bytes: sat_sum(sizes), sizes, intervals, ..c }
}

/// Appends `x` unless present.
fn insert_unique_u32(v: &mut Vec<u32>, x: u32)
    ensures
        final(v)@ == insert_unique(old(v)@, x),
{
    let n = v.len();
    let mut i: usize = 0;
    while i < n
        invariant
            n == v@.len(),
            i <= n,
            forall|j: int| 0 <= j < i ==> v@[j] != x,
        decreases n - i,
    {
        if v[i] == x {
            return ;
        }
        i = i + 1;
    }
    v.push(x);
}

/// Appends `x` unless present.
fn insert_unique_u16(v: &mut Vec<u16>, x: u16)
    ensures
        final(v)@ == insert_unique(old(v)@, x),
{
    let n = v.len();
    let mut i: usize = 0;
    while i < n
        invariant
            n == v@.len(),
            i <= n,
            forall|j: int| 0 <= j < i ==> v@[j] != x,
        decreases n - i,
    {
        if v[i] == x {
            return ;
        }
        i = i + 1;
    }
    v.push(x);
}

/// Saturating 64-bit addition.
fn sat_add_u64(a: u64, b: u64) -> (r: u64)
    ensures
        r as int == sat_add(a as int, b as int),
{
    if a > u64::MAX - b {
        u64::MAX
    } else {
        a + b
    }
}

impl Default for Count {
    /// The empty window.
    fn default() -> (r: Count)
        ensures
            r@ == count_zero(),
            count_wf(r@),
    {
        Count {
            total: 0,
            echo_req: 0,
            echo_res: 0,
            ip: 0,
            ip_flags: IPCount { null: 0, df: 0, mf: 0 },
            icmp: 0,
            tcp: 0,
            tcp_flags: TCPCount {
                ns: 0,
                cwr: 0,
                ece: 0,
                urg: 0,
                ack: 0,
                psh: 0,
                rst: 0,
                syn: 0,
                fin: 0,
            },
            udp: 0,
            arp: 0,
            http: 0,
            smtp: 0,
            dhcp: 0,
            addresses: Vec::new(),
            ports: Vec::new(),
            bytes: 0,
            data_bytes: 0,
            sizes: Vec::new(),
            intervals: Vec::new(),
        }
    }
}

impl Count {
    /// The IPv4 share of one frame.
    fn apply_ip_part(&mut self, frame: &Frame)
        requires
            old(self).ip < usize::MAX,
            old(self).ip_flags.null < usize::MAX,
            old(self).ip_flags.df < usize::MAX,
            old(self).ip_flags.mf < usize::MAX,
        ensures
            final(self)@ == apply_ip(old(self)@, *frame),
    {
        if let Some(ip) = frame.get_ipv4() {
            self.ip = self.ip + 1;
            if ip.flags.null {
                self.ip_flags.null = self.ip_flags.null + 1;
            }
            if ip.flags.df {
                self.ip_flags.df = self.ip_flags.df + 1;
            }
            if ip.flags.mf {
                self.ip_flags.mf = self.ip_flags.mf + 1;
            }
            let src = ip.src;
            let dst = ip.dst;
            insert_unique_u32(&mut self.addresses, src);
            insert_unique_u32(&mut self.addresses, dst);
        }
    }

    /// The ICMP share of one frame.
    fn apply_icmp_part(&mut self, frame: &Frame)
        requires
            old(self).icmp < usize::MAX,
            old(self).echo_req < usize::MAX,
            old(self).echo_res < usize::MAX,
        ensures
            final(self)@ == apply_icmp(old(self)@, *frame),
    {
        if let Some(icmp) = frame.get_icmp() {
            self.icmp = self.icmp + 1;
            match &icmp.data {
                ICMPData::Echo { kind: Echo::Request, .. } => {
                    self.echo_req = self.echo_req + 1;
                },
                ICMPData::Echo { kind: Echo::Response, .. } => {
                    self.echo_res = self.echo_res + 1;
                },
                _ => {},
            }
        }
    }

    /// The TCP share of one frame.
    #[verifier::spinoff_prover]
    fn apply_tcp_part(&mut self, frame: &Frame)
        requires
            old(self).tcp < usize::MAX,
            old(self).tcp_flags.ns < usize::MAX,
            old(self).tcp_flags.cwr < usize::MAX,
            old(self).tcp_flags.ece < usize::MAX,
            old(self).tcp_flags.urg < usize::MAX,
            old(self).tcp_flags.ack < usize::MAX,
            old(self).tcp_flags.psh < usize::MAX,
            old(self).tcp_flags.rst < usize::MAX,
            old(self).tcp_flags.syn < usize::MAX,
            old(self).tcp_flags.fin < usize::MAX,
        ensures
            final(self)@ == apply_tcp(old(self)@, *frame),
    {
        if let Some(tcp) = frame.get_tcp() {
            self.tcp = self.tcp + 1;
            if tcp.flags.ns {
                self.tcp_flags.ns = self.tcp_flags.ns + 1;
            }
            if tcp.flags.cwr {
                self.tcp_flags.cwr = self.tcp_flags.cwr + 1;
            }
            if tcp.flags.ece {
                self.tcp_flags.ece = self.tcp_flags.ece + 1;
            }
            if tcp.flags.urg {
                self.tcp_flags.urg = self.tcp_flags.urg + 1;
            }
            if tcp.flags.ack {
                self.tcp_flags.ack = self.tcp_flags.ack + 1;
            }
            if tcp.flags.psh {
                self.tcp_flags.psh = self.tcp_flags.psh + 1;
            }
            if tcp.flags.rst {
                self.tcp_flags.rst = self.tcp_flags.rst + 1;
            }
            if tcp.flags.syn {
                self.tcp_flags.syn = self.tcp_flags.syn + 1;
            }
            if tcp.flags.fin {
                self.tcp_flags.fin = self.tcp_flags.fin + 1;
            }
            let src = tcp.src;
            let dst = tcp.dst;
            insert_unique_u16(&mut self.ports, src);
            insert_unique_u16(&mut self.ports, dst);
            self.data_bytes = sat_add_u64(self.data_bytes, tcp.data.len() as u64);
        }
    }

    /// The UDP share of one frame.
    fn apply_udp_part(&mut self, frame: &Frame)
        requires
            old(self).udp < usize::MAX,
        ensures
            final(self)@ == apply_udp(old(self)@, *frame),
    {
        if let Some(udp) = frame.get_udp() {
            self.udp = self.udp + 1;
            self.data_bytes = sat_add_u64(self.data_bytes, udp.payload.len() as u64);
        }
    }

    /// The ARP, finalized-HTTP and DHCP counts of one frame.
    fn apply_app_part(&mut self, frame: &Frame)
        requires
            old(self).arp < usize::MAX,
            old(self).http < usize::MAX,
            old(self).dhcp < usize::MAX,
        ensures
            final(self)@ == apply_app(old(self)@, *frame),
    {
        if let Some(_arp) = frame.get_arp() {
            self.arp = self.arp + 1;
        }
        if let Some(http) = frame.get_http() {
            if http.is_finalized {
                self.http = self.http + 1;
            }
        }
        if let Some(_dhcp) = frame.get_dhcp() {
            self.dhcp = self.dhcp + 1;
        }
    }

    /// Accumulates one frame into the window; see [`apply_spec`].
    #[verifier::rlimit(100)]
    #[verifier::spinoff_prover]
    pub fn apply(&mut self, frame: &Frame)
        requires
            count_wf(old(self)@),
            old(self).total < usize::MAX,
        ensures
            final(self)@ == apply_spec(old(self)@, *frame),
            count_wf(final(self)@),
            final(self)@.total == old(self)@.total + 1,
    {
        self.total = self.total + 1;
        self.apply_ip_part(frame);
        self.apply_icmp_part(frame);
        self.apply_tcp_part(frame);
        self.apply_udp_part(frame);
        self.apply_app_part(frame);
    }

    /// Closes the window: records the byte total and the size and
    /// interval lists, clears them, and hands the finished window out,
    /// leaving this one empty. See [`flush_spec`].
    pub fn flush(&mut self, sizes: &mut Vec<u64>, intervals: &mut Vec<u64>) -> (r: Count)
        ensures
            r@ == flush_spec(old(self)@, old(sizes)@, old(intervals)@),
            final(self)@ == count_zero(),
            count_wf(final(self)@),
            final(sizes)@ == Seq::<u64>::empty(),
            final(intervals)@ == Seq::<u64>::empty(),
    {
        let n = sizes.len();
        let mut total: u64 = 0;
        let mut i: usize = 0;
        while i < n
            invariant
                n == sizes@.len(),
                i <= n,
                total as int == sat_sum(sizes@.subrange(0, i as int)),
            decreases n - i,
        {
            proof {
                assert(sizes@.subrange(0, i + 1int).drop_last() =~= sizes@.subrange(0, i as int));
                assert(sizes@.subrange(0, i + 1int).last() == sizes@[i as int]);
            }
            total = sat_add_u64(total, sizes[i]);
            i = i + 1;
        }
        proof {
            assert(sizes@.subrange(0, n as int) =~= sizes@);
        }
        self.bytes = total;
        let mut out: Count = Default::default();
        core::mem::swap(&mut out, self);
        let mut s2: Vec<u64> = Vec::new();
        core::mem::swap(&mut s2, sizes);
        out.sizes = s2;
        let mut iv2: Vec<u64> = Vec::new();
        core::mem::swap(&mut iv2, intervals);
        out.intervals = iv2;
        proof {
            assert(out@ =~= flush_spec(old(self)@, old(sizes)@, old(intervals)@));
            assert(self@ =~= count_zero());
            assert(sizes@ =~= Seq::<u64>::empty());
            assert(intervals@ =~= Seq::<u64>::empty());
        }
        out
    }
}


/// The aggregator's state between frames: finished windows, the open
/// window's accumulators, and the window-start and previous-frame
/// timestamps.
pub ghost struct AggState {
    pub counts: Seq<CountV>,
    pub cur: CountV,
    pub sizes: Seq<u64>,
    pub intervals: Seq<u64>,
    pub start: Option<u64>,
    pub last: Option<u64>,
}

/// No window open, nothing accumulated.
pub open spec fn agg_init() -> AggState {
    AggState {
        counts: Seq::<CountV>::empty(),
        cur: count_zero(),
        sizes: Seq::<u64>::empty(),
        intervals: Seq::<u64>::empty(),
        start: None,
        last: None,
    }
}

/// Synthesizes an empty window for each further full period inside the
/// gap, returning the windows and what remains of the gap.
pub open spec fn gap_fill(counts: Seq<CountV>, diff: int, p: int) -> (Seq<CountV>, int)
    decreases diff,
        when p > 0
{
    if diff > p {
        gap_fill(counts.push(count_zero()), diff - p, p)
    } else {
        (counts, diff)
    }
}

/// The remaining gap after synthesis stays positive and never grows.
pub proof fn lemma_gap_fill_bounds(counts: Seq<CountV>, diff: int, p: int)
    requires
        p > 0,
        diff > 0,
    ensures
        0 < gap_fill(counts, diff, p).1 <= diff,
    decreases diff,
{
    if diff > p {
        lemma_gap_fill_bounds(counts.push(count_zero()), diff - p, p)
    }
}

/// The windowing decision for a frame at `ts`: open the first window, or
/// keep accumulating, or — when the frame falls past the window's end —
/// flush, synthesize empty windows for the gap, and open a new window at
/// `ts` minus what remains of the gap.
pub open spec fn agg_window(st: AggState, ts: u64, period: Option<u64>) -> AggState {
    match st.start {
        None => AggState { start: Some(ts), ..st },
        Some(start) => match period {
            Some(p) => {
                let diff = ts - start;
                if diff > p {
                    let flushed = st.counts.push(flush_spec(st.cur, st.sizes, st.intervals));
                    let filled = gap_fill(flushed, diff - p, p as int);
                    AggState {
                        counts: filled.0,
                        cur: count_zero(),
                        sizes: Seq::<u64>::empty(),
                        intervals: Seq::<u64>::empty(),
                        start: Some((ts - filled.1) as u64),
                        last: None,
                    }
                } else {
                    st
                }
            },
            None => st,
        },
    }
}

/// Accumulating one frame into the open window: its inter-arrival
/// interval (none for the window's first frame), its size, and its
/// protocol counts.
pub open spec fn agg_frame(st: AggState, f: Frame) -> AggState {
    AggState {
        counts: st.counts,
        cur: apply_spec(st.cur, f),
        sizes: st.sizes.push(f.data@.len() as u64),
        intervals: match st.last {
            Some(l) => st.intervals.push((f.ts - l) as u64),
            None => st.intervals,
        },
        start: st.start,
        last: Some(f.ts),
    }
}

/// One full step of the aggregator on one frame.
pub open spec fn agg_step(st: AggState, f: Frame, period: Option<u64>) -> AggState {
    agg_frame(agg_window(st, f.ts, period), f)
}

/// The aggregator's state after a whole frame stream.
pub open spec fn agg_run(frames: Seq<Frame>, period: Option<u64>) -> AggState
    decreases frames.len(),
{
    if frames.len() == 0 {
        agg_init()
    } else {
        agg_step(agg_run(frames.drop_last(), period), frames.last(), period)
    }
}

/// End of stream: a window holding any frames is flushed even though it
/// did not reach a full period.
pub open spec fn agg_fin(st: AggState) -> Seq<CountV> {
    if st.sizes.len() > 0 {
        st.counts.push(flush_spec(st.cur, st.sizes, st.intervals))
    } else {
        st.counts
    }
}

/// The finished windows of a frame stream under the given period (`None`
/// treats the whole stream as one window).
pub open spec fn compute_spec(frames: Seq<Frame>, period: Option<u64>) -> Seq<CountV> {
    agg_fin(agg_run(frames, period))
}

/// Timestamps never decrease along the stream.
pub open spec fn ts_sorted(frames: Seq<Frame>) -> bool {
    forall|i: int, j: int|
        0 <= i <= j < frames.len() ==> (#[trigger] frames[i]).ts <= (#[trigger] frames[j]).ts
}

/// The execution windows match the specified windows one for one.
pub open spec fn counts_match(counts: Seq<Count>, cv: Seq<CountV>) -> bool {
    &&& counts.len() == cv.len()
    &&& forall|k: int| 0 <= k < counts.len() ==> (#[trigger] counts[k])@ == cv[k]
}

impl Count {
    /// Folds an ordered frame stream into its finished windows; see
    /// [`compute_spec`]. A `period` of `None` treats the entire input as
    /// one window.
    #[verifier::rlimit(100)]
    #[verifier::spinoff_prover]
    pub fn compute(frames: &Vec<Frame>, period: Option<u64>) -> (r: Vec<Count>)
        requires
            ts_sorted(frames@),
            period matches Some(p) ==> p > 0,
        ensures
            counts_match(r@, compute_spec(frames@, period)),
    {
        let n = frames.len();
        let mut counts: Vec<Count> = Vec::new();
        let mut count: Count = Default::default();
        let mut sizes: Vec<u64> = Vec::new();
        let mut intervals: Vec<u64> = Vec::new();
        let mut start: Option<u64> = None;
        let mut last: Option<u64> = None;
        let mut i: usize = 0;
        while i < n
            invariant
                n == frames@.len(),
                i <= n,
                ts_sorted(frames@),
                period matches Some(p) ==> p > 0,
                counts_match(counts@, agg_run(frames@.subrange(0, i as int), period).counts),
                count@ == agg_run(frames@.subrange(0, i as int), period).cur,
                sizes@ == agg_run(frames@.subrange(0, i as int), period).sizes,
                intervals@ == agg_run(frames@.subrange(0, i as int), period).intervals,
                start == agg_run(frames@.subrange(0, i as int), period).start,
                last == agg_run(frames@.subrange(0, i as int), period).last,
                count_wf(count@),
                count@.total <= i,
                (start matches Some(s) ==> i > 0 && s <= frames@[i - 1].ts),
                (last matches Some(l) ==> i > 0 && l == frames@[i - 1].ts),
                (i > 0 ==> start is Some),
            decreases n - i,
        {
            let ghost pre_st = agg_run(frames@.subrange(0, i as int), period);
            let f = &frames[i];
            proof {
                assert(frames@.subrange(0, i + 1int).drop_last() =~= frames@.subrange(0, i as int));
                assert(frames@.subrange(0, i + 1int).last() == frames@[i as int]);
            }
            match start {
                None => {
                    start = Some(f.ts);
                },
                Some(s) => {
                    match period {
                        Some(p) => {
                            let diff0 = f.ts - s;
                            if diff0 > p {
                                counts.push(count.flush(&mut sizes, &mut intervals));
                                let mut diff = diff0 - p;
                                let ghost filled = gap_fill(
                                    pre_st.counts.push(
                                        flush_spec(pre_st.cur, pre_st.sizes, pre_st.intervals),
                                    ),
                                    diff0 - p,
                                    p as int,
                                );
                                proof {
                                    lemma_gap_fill_bounds(
                                        pre_st.counts.push(
                                            flush_spec(pre_st.cur, pre_st.sizes, pre_st.intervals),
                                        ),
                                        diff0 - p,
                                        p as int,
                                    );
                                    assert(counts@.map_values(|c: Count| c@) =~= pre_st.counts.push(
                                        flush_spec(pre_st.cur, pre_st.sizes, pre_st.intervals),
                                    ));
                                }
                                while diff > p
                                    invariant
                                        p > 0,
                                        diff > 0,
                                        gap_fill(
                                            counts@.map_values(|c: Count| c@),
                                            diff as int,
                                            p as int,
                                        ) == filled,
                                        counts_match(counts@, counts@.map_values(|c: Count| c@)),
                                    decreases diff,
                                {
                                    diff = diff - p;
                                    let ghost cv0 = counts@.map_values(|c: Count| c@);
                                    let zero: Count = Default::default();
                                    counts.push(zero);
                                    proof {
                                        assert(counts@.map_values(|c: Count| c@) =~= cv0.push(
                                            count_zero(),
                                        ));
                                    }
                                }
                                proof {
                                    assert(gap_fill(
                                        counts@.map_values(|c: Count| c@),
                                        diff as int,
                                        p as int,
                                    ) == (counts@.map_values(|c: Count| c@), diff as int));
                                }
                                start = Some(f.ts - diff);
                                last = None;
                            }
                        },
                        None => {},
                    }
                },
            }
            proof {
                let wst = agg_window(pre_st, frames@[i as int].ts, period);
                assert(counts_match(counts@, wst.counts));
                assert(count@ == wst.cur);
                assert(sizes@ == wst.sizes);
                assert(intervals@ == wst.intervals);
                assert(start == wst.start);
                assert(last == wst.last);
            }
            match last {
                Some(l) => {
                    intervals.push(f.ts - l);
                },
                None => {},
            }
            last = Some(f.ts);
            sizes.push(f.data.len() as u64);
            count.apply(f);
            i = i + 1;
        }
        proof {
            assert(frames@.subrange(0, n as int) =~= frames@);
        }
        if sizes.len() > 0 {
            let finished = count.flush(&mut sizes, &mut intervals);
            counts.push(finished);
        }
        counts
    }
}

/// No window is flushed before a frame falls past the open window's end:
/// a nonempty stream whose every timestamp lies within one period of the
/// first frame's produces exactly one window — flushed at end of stream
/// even though it never reached a full period — holding every frame.
pub proof fn lemma_single_window(frames: Seq<Frame>, p: u64)
    requires
        frames.len() > 0,
        p > 0,
        ts_sorted(frames),
        forall|i: int| 0 <= i < frames.len() ==> (#[trigger] frames[i]).ts - frames[0].ts <= p,
    ensures
        compute_spec(frames, Some(p)).len() == 1,
        compute_spec(frames, Some(p))[0].total == frames.len(),
{
    lemma_agg_within(frames, p);
}

/// While every frame stays within one period of the first, the
/// aggregator keeps a single open window holding all of them.
proof fn lemma_agg_within(frames: Seq<Frame>, p: u64)
    requires
        frames.len() > 0,
        p > 0,
        ts_sorted(frames),
        forall|i: int| 0 <= i < frames.len() ==> (#[trigger] frames[i]).ts - frames[0].ts <= p,
    ensures
        ({
            let st = agg_run(frames, Some(p));
            &&& st.counts.len() == 0
            &&& st.start == Some(frames[0].ts)
            &&& st.cur.total == frames.len()
            &&& st.sizes.len() == frames.len()
        }),
    decreases frames.len(),
{
    if frames.len() == 1 {
        assert(agg_run(frames, Some(p)) == agg_step(agg_init(), frames[0], Some(p)));
    } else {
        let prefix = frames.drop_last();
        assert(forall|i: int|
            0 <= i < prefix.len() ==> (#[trigger] prefix[i]).ts - prefix[0].ts <= p);
        lemma_agg_within(prefix, p);
        let st = agg_run(prefix, Some(p));
        let f = frames.last();
        assert(f.ts - frames[0].ts <= p);
        assert(agg_window(st, f.ts, Some(p)) == st);
    }
}



/// An unbounded configuration treats the entire input as one window: a
/// nonempty stream under no period produces exactly one window, flushed
/// at end of stream, holding every frame.
pub proof fn lemma_no_period_single_window(frames: Seq<Frame>)
    requires
        frames.len() > 0,
    ensures
        compute_spec(frames, None).len() == 1,
        compute_spec(frames, None)[0].total == frames.len(),
{
    lemma_agg_unbounded(frames);
}

/// Without a period the aggregator never closes its window.
proof fn lemma_agg_unbounded(frames: Seq<Frame>)
    requires
        frames.len() > 0,
    ensures
        ({
            let st = agg_run(frames, None);
            &&& st.counts.len() == 0
            &&& st.cur.total == frames.len()
            &&& st.sizes.len() == frames.len()
        }),
    decreases frames.len(),
{
    if frames.len() == 1 {
        assert(agg_run(frames, None) == agg_step(agg_init(), frames[0], None));
    } else {
        lemma_agg_unbounded(frames.drop_last());
    }
}

} // verus!
