//! HTTP detector. Works over a flow's accumulated byte buffer: isolates
//! the first line, matches it as a request or status line, locates the
//! header/body boundary, and accumulates the body into the flow's payload
//! buffer. Detection that fails on one segment is retried on the next,
//! once more bytes have arrived.

use vstd::prelude::*;

use crate::codec::{clone_bytes, extend_bytes};

verus! {

/// Carriage return / line feed at position `i`.
pub open spec fn is_crlf_at(s: Seq<u8>, i: int) -> bool {
    &&& 0 <= i
    &&& i + 2 <= s.len()
    &&& s[i] == 13
    &&& s[i + 1] == 10
}

/// `i` is the first CRLF of `s`.
pub open spec fn is_first_crlf(s: Seq<u8>, i: int) -> bool {
    &&& is_crlf_at(s, i)
    &&& forall|j: int| 0 <= j < i ==> !is_crlf_at(s, j)
}

/// The position of the first CRLF of `s`, where one exists.
pub open spec fn first_crlf(s: Seq<u8>) -> int {
    choose|i: int| is_first_crlf(s, i)
}

/// Double CRLF (the header/body boundary) at position `i`.
pub open spec fn is_crlf2_at(s: Seq<u8>, i: int) -> bool {
    &&& 0 <= i
    &&& i + 4 <= s.len()
    &&& s[i] == 13
    &&& s[i + 1] == 10
    &&& s[i + 2] == 13
    &&& s[i + 3] == 10
}

/// `i` is the first double CRLF of `s`.
pub open spec fn is_first_crlf2(s: Seq<u8>, i: int) -> bool {
    &&& is_crlf2_at(s, i)
    &&& forall|j: int| 0 <= j < i ==> !is_crlf2_at(s, j)
}

/// The position of the first double CRLF of `s`, where one exists.
pub open spec fn first_crlf2(s: Seq<u8>) -> int {
    choose|i: int| is_first_crlf2(s, i)
}

/// ASCII decimal digit.
pub open spec fn is_digit(b: u8) -> bool {
    48 <= b && b <= 57
}

/// `m` is one of the standard request verbs.
pub open spec fn is_method(m: Seq<u8>) -> bool {
    ||| m == seq![79u8, 80u8, 84u8, 73u8, 79u8, 78u8, 83u8]
    ||| m == seq![71u8, 69u8, 84u8]
    ||| m == seq![72u8, 69u8, 65u8, 68u8]
    ||| m == seq![80u8, 79u8, 83u8, 84u8]
    ||| m == seq![80u8, 85u8, 84u8]
    ||| m == seq![80u8, 65u8, 84u8, 67u8, 72u8]
    ||| m == seq![68u8, 69u8, 76u8, 69u8, 84u8, 69u8]
    ||| m == seq![84u8, 82u8, 65u8, 67u8, 69u8]
    ||| m == seq![67u8, 79u8, 78u8, 78u8, 69u8, 67u8, 84u8]
}

/// The literal ` HTTP/` followed by one digit, a dot and one digit,
/// starting at position `j`.
pub open spec fn ver_pat_at(line: Seq<u8>, j: int) -> bool {
    &&& 0 <= j
    &&& j + 9 <= line.len()
    &&& line[j] == 32u8
    &&& line[j + 1] == 72u8
    &&& line[j + 2] == 84u8
    &&& line[j + 3] == 84u8
    &&& line[j + 4] == 80u8
    &&& line[j + 5] == 47u8
    &&& is_digit(line[j + 6])
    &&& line[j + 7] == 46u8
    &&& is_digit(line[j + 8])
}

/// The line parses as a request line `METHOD URI HTTP/major.minor`: a
/// known verb of length `m`, one space, a nonempty URI free of line
/// feeds, and the version pattern at its first position `j` after the
/// URI's first byte.
pub open spec fn req_match(line: Seq<u8>, m: int, j: int) -> bool {
    &&& 0 <= m && m < line.len()
    &&& is_method(line.subrange(0, m))
    &&& line[m] == 32u8
    &&& m + 2 <= j
    &&& ver_pat_at(line, j)
    &&& forall|j2: int| m + 2 <= j2 < j ==> !ver_pat_at(line, j2)
    &&& forall|k: int| m + 1 <= k < j ==> line[k] != 10
}

/// Some request-line parse of `line` exists.
pub open spec fn req_exists(line: Seq<u8>) -> bool {
    exists|m: int, j: int| req_match(line, m, j)
}

/// `k` and `ver` are the decode of `line` as a request line.
pub open spec fn req_result_ok(line: Seq<u8>, k: HTTPKind, ver: (u8, u8)) -> bool {
    forall|m: int, j: int| req_match(line, m, j) ==> {
        &&& k matches HTTPKind::Req { method, uri } && method@ == line.subrange(0, m) && uri@
            == line.subrange(m + 1, j)
        &&& ver == (((line[j + 6] - 48) as u8), ((line[j + 8] - 48) as u8))
    }
}

/// The line parses as a status line `HTTP/major.minor STATUS REASON`,
/// with a three-digit status and a reason free of line feeds.
pub open spec fn res_match(line: Seq<u8>) -> bool {
    &&& line.len() >= 13
    &&& line[0] == 72u8
    &&& line[1] == 84u8
    &&& line[2] == 84u8
    &&& line[3] == 80u8
    &&& line[4] == 47u8
    &&& is_digit(line[5])
    &&& line[6] == 46u8
    &&& is_digit(line[7])
    &&& line[8] == 32u8
    &&& is_digit(line[9])
    &&& is_digit(line[10])
    &&& is_digit(line[11])
    &&& line[12] == 32u8
    &&& forall|k: int| 13 <= k < line.len() ==> line[k] != 10
}

/// The status value of a matched status line.
pub open spec fn res_status(line: Seq<u8>) -> u16 {
    (((line[9] - 48) as u16) * 100 + ((line[10] - 48) as u16) * 10 + ((line[11] - 48) as u16)) as u16
}

/// `k` and `ver` are the decode of `line` as a status line.
pub open spec fn res_result_ok(line: Seq<u8>, k: HTTPKind, ver: (u8, u8)) -> bool {
    &&& k matches HTTPKind::Res { status, reason } && status == res_status(line) && reason@
        == line.subrange(13, line.len() as int)
    &&& ver == (((line[5] - 48) as u8), ((line[7] - 48) as u8))
}

/// Request or response line decode.
#[derive(Debug, PartialEq)]
pub enum HTTPKind {
    Req { method: Vec<u8>, uri: Vec<u8> },
    Res { status: u16, reason: Vec<u8> },
}

/// The position of the first CRLF of `data`, or `None` when there is
/// none.
pub fn find_crlf(data: &[u8]) -> (r: Option<usize>)
    ensures
        r matches Some(i) ==> is_first_crlf(data@, i as int),
        r is None ==> forall|j: int| !is_crlf_at(data@, j),
{
    if data.len() < 2 {
        return None;
    }
    let mut i: usize = 0;
    while i <= data.len() - 2
        invariant
            data@.len() >= 2,
            i <= data@.len(),
            forall|j: int| 0 <= j < i ==> !is_crlf_at(data@, j),
        decreases data@.len() - i,
    {
        if data[i] == 13 && data[i + 1] == 10 {
            return Some(i);
        }
        i = i + 1;
    }
    None
}

/// The position of the first double CRLF of `data`, or `None` when there
/// is none.
pub fn find_crlf2(data: &[u8]) -> (r: Option<usize>)
    ensures
        r matches Some(i) ==> is_first_crlf2(data@, i as int),
        r is None ==> forall|j: int| !is_crlf2_at(data@, j),
{
    if data.len() < 4 {
        return None;
    }
    let mut i: usize = 0;
    while i <= data.len() - 4
        invariant
            data@.len() >= 4,
            i <= data@.len(),
            forall|j: int| 0 <= j < i ==> !is_crlf2_at(data@, j),
        decreases data@.len() - i,
    {
        if data[i] == 13 && data[i + 1] == 10 && data[i + 2] == 13 && data[i + 3] == 10 {
            return Some(i);
        }
        i = i + 1;
    }
    None
}

/// Two request verbs that both prefix the same line are the same verb.
pub proof fn lemma_method_unique(line: Seq<u8>, m1: int, m2: int)
    requires
        0 <= m1 <= line.len(),
        0 <= m2 <= line.len(),
        is_method(line.subrange(0, m1)),
        is_method(line.subrange(0, m2)),
    ensures
        m1 == m2,
{
    let s1 = line.subrange(0, m1);
    let s2 = line.subrange(0, m2);
    assert(s1.len() == m1);
    assert(s2.len() == m2);
    assert(forall|i: int| 0 <= i < m1 ==> s1[i] == line[i]);
    assert(forall|i: int| 0 <= i < m2 ==> s2[i] == line[i]);
}

/// The length of the verb that prefixes `line`, or `None` when no verb
/// does.
fn match_method(line: &[u8]) -> (r: Option<usize>)
    ensures
        r matches Some(m) ==> m <= line@.len() && is_method(line@.subrange(0, m as int)),
        r is None ==> forall|m: int| 0 <= m <= line@.len() ==> !is_method(line@.subrange(0, m)),
{
    let n = line.len();
    if n >= 7 && line[0] == 79u8 && line[1] == 80u8 && line[2] == 84u8 && line[3] == 73u8 && line[4]
        == 79u8 && line[5] == 78u8 && line[6] == 83u8 {
        proof {
            assert(line@.subrange(0, 7) =~= seq![79u8, 80u8, 84u8, 73u8, 79u8, 78u8, 83u8]);
        }
        return Some(7);
    }
    if n >= 3 && line[0] == 71u8 && line[1] == 69u8 && line[2] == 84u8 {
        proof {
            assert(line@.subrange(0, 3) =~= seq![71u8, 69u8, 84u8]);
        }
        return Some(3);
    }
    if n >= 4 && line[0] == 72u8 && line[1] == 69u8 && line[2] == 65u8 && line[3] == 68u8 {
        proof {
            assert(line@.subrange(0, 4) =~= seq![72u8, 69u8, 65u8, 68u8]);
        }
        return Some(4);
    }
    if n >= 4 && line[0] == 80u8 && line[1] == 79u8 && line[2] == 83u8 && line[3] == 84u8 {
        proof {
            assert(line@.subrange(0, 4) =~= seq![80u8, 79u8, 83u8, 84u8]);
        }
        return Some(4);
    }
    if n >= 3 && line[0] == 80u8 && line[1] == 85u8 && line[2] == 84u8 {
        proof {
            assert(line@.subrange(0, 3) =~= seq![80u8, 85u8, 84u8]);
        }
        return Some(3);
    }
    if n >= 5 && line[0] == 80u8 && line[1] == 65u8 && line[2] == 84u8 && line[3] == 67u8 && line[4]
        == 72u8 {
        proof {
            assert(line@.subrange(0, 5) =~= seq![80u8, 65u8, 84u8, 67u8, 72u8]);
        }
        return Some(5);
    }
    if n >= 6 && line[0] == 68u8 && line[1] == 69u8 && line[2] == 76u8 && line[3] == 69u8 && line[4]
        == 84u8 && line[5] == 69u8 {
        proof {
            assert(line@.subrange(0, 6) =~= seq![68u8, 69u8, 76u8, 69u8, 84u8, 69u8]);
        }
        return Some(6);
    }
    if n >= 5 && line[0] == 84u8 && line[1] == 82u8 && line[2] == 65u8 && line[3] == 67u8 && line[4]
        == 69u8 {
        proof {
            assert(line@.subrange(0, 5) =~= seq![84u8, 82u8, 65u8, 67u8, 69u8]);
        }
        return Some(5);
    }
    if n >= 7 && line[0] == 67u8 && line[1] == 79u8 && line[2] == 78u8 && line[3] == 78u8 && line[4]
        == 69u8 && line[5] == 67u8 && line[6] == 84u8 {
        proof {
            assert(line@.subrange(0, 7) =~= seq![67u8, 79u8, 78u8, 78u8, 69u8, 67u8, 84u8]);
        }
        return Some(7);
    }
    proof {
        assert forall|m: int| 0 <= m <= line@.len() implies !is_method(line@.subrange(0, m)) by {
            let s = line@.subrange(0, m);
            assert(s.len() == m);
            assert(forall|i: int| 0 <= i < m ==> s[i] == line@[i]);
        }
    }
    None
}

/// Partial-parse state of one flow's HTTP detection: the accumulated
/// bytes, the end of the first line and the header/body boundary once
/// found, and the body bytes collected so far.
#[derive(Debug, PartialEq)]
pub struct HTTPContext {
    pub latest: Vec<u8>,
    pub first: Option<usize>,
    pub last: Option<usize>,
    pub payload: Vec<u8>,
}

impl HTTPContext {
    /// Recorded offsets lie within the accumulated buffer.
    pub open spec fn wf(self) -> bool {
        &&& (self.first matches Some(f) ==> f + 2 <= self.latest@.len())
        &&& (self.last matches Some(h) ==> h + 4 <= self.latest@.len())
    }

    /// Fresh state: nothing accumulated, nothing found.
    pub fn new() -> (r: HTTPContext)
        ensures
            r.latest@ == Seq::<u8>::empty(),
            r.first is None,
            r.last is None,
            r.payload@ == Seq::<u8>::empty(),
            r.wf(),
    {
        HTTPContext { latest: Vec::new(), first: None, last: None, payload: Vec::new() }
    }
}

/// How one segment advances a flow's HTTP detection: `post` and `r` are
/// the context after, and the detection result of, feeding segment bytes
/// `seg` (closing the message when `tail` holds) to the context `pre`.
pub open spec fn http_step_post(
    pre: HTTPContext,
    seg: Seq<u8>,
    tail: bool,
    post: HTTPContext,
    r: Option<HTTP>,
) -> bool {
    http_accum_post(pre.latest@, pre.first, pre.last, pre.payload@, seg, tail, post, r)
}

/// The same relation over the detection state's parts, so that a flow
/// with no state yet can be described by empty parts.
pub open spec fn http_accum_post(
    lat0: Seq<u8>,
    first0: Option<usize>,
    last0: Option<usize>,
    pay0: Seq<u8>,
    seg: Seq<u8>,
    tail: bool,
    post: HTTPContext,
    r: Option<HTTP>,
) -> bool {
    let lat = lat0 + seg;
    &&& post.latest@ == lat
    &&& if lat.len() == 0 {
        &&& r is None
        &&& post.first == first0
        &&& post.last == last0
        &&& post.payload@ == pay0
    } else if first0 is None && !exists|i: int| is_crlf_at(lat, i) {
        // no complete first line yet
        &&& r is None
        &&& post.first is None
        &&& post.last == last0
        &&& post.payload@ == pay0
    } else {
        let f = match first0 {
            Some(ff) => ff as int,
            None => first_crlf(lat),
        };
        let line = lat.subrange(0, f);
        &&& post.first matches Some(pf) && pf == f
        &&& if !req_exists(line) && !res_match(line) {
            // the first line is neither a request nor a status line
            &&& r is None
            &&& post.last == last0
            &&& post.payload@ == pay0
        } else if last0 is None && !exists|i: int| is_crlf2_at(lat, i) {
            // no header/body boundary yet
            &&& r is None
            &&& post.last is None
            &&& post.payload@ == pay0
        } else {
            let he = match last0 {
                Some(hh) => hh as int,
                None => first_crlf2(lat),
            };
            &&& post.last matches Some(ph) && ph == he
            &&& post.payload@ == if last0 is Some {
                pay0 + seg
            } else {
                pay0 + lat.subrange(he + 4, lat.len() as int)
            }
            &&& r matches Some(h) && {
                &&& if req_exists(line) {
                    req_result_ok(line, h.kind, h.version)
                } else {
                    res_result_ok(line, h.kind, h.version)
                }
                &&& h.headers@ == Seq::<String>::empty()
                &&& h.payload@ == post.payload@
                &&& h.is_finalized == tail
            }
        }
    }
}

/// Feeds one segment's payload to a flow's HTTP detection state. The
/// result, and how the state advances, are fixed by [`http_step_post`].
pub fn http_step(c: &mut HTTPContext, seg: &[u8], tail: bool) -> (r: Option<HTTP>)
    requires
        old(c).wf(),
    ensures
        final(c).wf(),
        http_step_post(*old(c), seg@, tail, *final(c), r),
{
    extend_bytes(&mut c.latest, seg);
    if c.latest.len() == 0 {
        return None;
    }
    let f = match c.first {
        Some(ff) => ff,
        None => {
            match find_crlf(c.latest.as_slice()) {
                Some(ff) => ff,
                None => {
                    return None;
                },
            }
        },
    };
    proof {
        if old(c).first is None {
            assert(is_first_crlf(c.latest@, f as int));
            assert forall|i1: int, i2: int|
                is_first_crlf(c.latest@, i1) && is_first_crlf(c.latest@, i2) implies i1 == i2 by {}
            assert(first_crlf(c.latest@) == f as int);
        }
    }
    c.first = Some(f);
    let line = vstd::slice::slice_subrange(c.latest.as_slice(), 0, f);
    let kv = match HTTP::_is_request(line) {
        Some(kv) => kv,
        None => {
            match HTTP::_is_response(line) {
                Some(kv) => kv,
                None => {
                    return None;
                },
            }
        },
    };
    let he = match c.last {
        Some(hh) => hh,
        None => {
            match find_crlf2(c.latest.as_slice()) {
                Some(hh) => hh,
                None => {
                    return None;
                },
            }
        },
    };
    proof {
        if old(c).last is None {
            assert(is_first_crlf2(c.latest@, he as int));
            assert forall|i1: int, i2: int|
                is_first_crlf2(c.latest@, i1) && is_first_crlf2(c.latest@, i2) implies i1 == i2 by {}
            assert(first_crlf2(c.latest@) == he as int);
        }
    }
    let only_payload = c.last.is_some();
    c.last = Some(he);
    if only_payload {
        extend_bytes(&mut c.payload, seg);
    } else {
        let body = vstd::slice::slice_subrange(c.latest.as_slice(), he + 4, c.latest.len());
        extend_bytes(&mut c.payload, body);
    }
    let snapshot = clone_bytes(&c.payload);
    Some(
        HTTP {
            kind: kv.0,
            version: kv.1,
            headers: Vec::new(),
            payload: snapshot,
            is_finalized: tail,
        },
    )
}

/// One detected HTTP message: request or status line decode, version,
/// collected headers, an owned snapshot of the body seen so far, and
/// whether the producing segment closed the message.
#[derive(Debug, PartialEq)]
pub struct HTTP {
    pub kind: HTTPKind,
    pub version: (u8, u8),
    pub headers: Vec<String>,
    pub payload: Vec<u8>,
    pub is_finalized: bool,
}

impl HTTP {
    /// Decodes a request line. Some result exists exactly when the line
    /// matches `METHOD URI HTTP/major.minor`.
    #[verifier::loop_isolation(false)]
    pub fn _is_request(line: &[u8]) -> (r: Option<(HTTPKind, (u8, u8))>)
        ensures
            (r is Some) == req_exists(line@),
            r matches Some(kv) ==> req_result_ok(line@, kv.0, kv.1),
    {
        let mlen = match match_method(line) {
            Some(m) => m,
            None => {
                proof {
                    assert forall|m: int, j: int| !req_match(line@, m, j) by {}
                }
                return None;
            },
        };
        if mlen >= line.len() || line[mlen] != 32 {
            proof {
                assert forall|m: int, j: int| !req_match(line@, m, j) by {
                    if req_match(line@, m, j) {
                        lemma_method_unique(line@, m, mlen as int);
                    }
                }
            }
            return None;
        }
        let n = line.len();
        if n - mlen - 1 < 10 {
            // no room for a nonempty URI and the version pattern
            proof {
                assert forall|m: int, j2: int| !req_match(line@, m, j2) by {
                    if req_match(line@, m, j2) {
                        lemma_method_unique(line@, m, mlen as int);
                    }
                }
            }
            return None;
        }
        let mut j = mlen + 2;
        loop
            invariant
                mlen + 2 <= j,
                j <= n,
                n == line@.len(),
                mlen < n,
                mlen <= n,
                is_method(line@.subrange(0, mlen as int)),
                line@[mlen as int] == 32,
                forall|j2: int| mlen + 2 <= j2 < j ==> !ver_pat_at(line@, j2),
            decreases n - j,
        {
            if j >= n || n - j < 9 {
                proof {
                    assert forall|m: int, j2: int| !req_match(line@, m, j2) by {
                        if req_match(line@, m, j2) {
                            lemma_method_unique(line@, m, mlen as int);
                        }
                    }
                }
                return None;
            }
            if line[j] == 32 && line[j + 1] == 72 && line[j + 2] == 84 && line[j + 3] == 84 && line[j
                + 4] == 80 && line[j + 5] == 47 && (48 <= line[j + 6] && line[j + 6] <= 57) && line[j
                + 7] == 46 && (48 <= line[j + 8] && line[j + 8] <= 57) {
                // version pattern found at its first position; the URI may
                // not contain a line feed
                let mut k = mlen + 1;
                while k < j
                    invariant
                        mlen + 1 <= k <= j,
                        n == line@.len(),
                        j + 9 <= n,
                        forall|k2: int| mlen + 1 <= k2 < k ==> line@[k2] != 10,
                    decreases j - k,
                {
                    if line[k] == 10 {
                        proof {
                            assert forall|m: int, j2: int| !req_match(line@, m, j2) by {
                                if req_match(line@, m, j2) {
                                    lemma_method_unique(line@, m, mlen as int);
                                    if j2 > j {
                                        assert(ver_pat_at(line@, j as int));
                                    }
                                }
                            }
                        }
                        return None;
                    }
                    k = k + 1;
                }
                let method = vstd::slice::slice_to_vec(vstd::slice::slice_subrange(line, 0, mlen));
                let uri = vstd::slice::slice_to_vec(vstd::slice::slice_subrange(line, mlen + 1, j));
                let major = line[j + 6] - 48;
                let minor = line[j + 8] - 48;
                proof {
                    assert(req_match(line@, mlen as int, j as int));
                    assert(req_exists(line@));
                    assert forall|m: int, j2: int|
                        req_match(line@, m, j2) implies m == mlen && j2 == j by {
                        lemma_method_unique(line@, m, mlen as int);
                        if j2 > j {
                            assert(ver_pat_at(line@, j as int));
                        }
                        if j2 < j {
                            assert(ver_pat_at(line@, j2));
                        }
                    }
                }
                return Some((HTTPKind::Req { method, uri }, (major, minor)));
            }
            j = j + 1;
        }
    }

    /// Decodes a status line. Some result exists exactly when the line
    /// matches `HTTP/major.minor STATUS REASON`.
    pub fn _is_response(line: &[u8]) -> (r: Option<(HTTPKind, (u8, u8))>)
        ensures
            (r is Some) == res_match(line@),
            r matches Some(kv) ==> res_result_ok(line@, kv.0, kv.1),
    {
        let n = line.len();
        if n < 13 {
            return None;
        }
        if !(line[0] == 72 && line[1] == 84 && line[2] == 84 && line[3] == 80 && line[4] == 47 && (48
            <= line[5] && line[5] <= 57) && line[6] == 46 && (48 <= line[7] && line[7] <= 57)
            && line[8] == 32 && (48 <= line[9] && line[9] <= 57) && (48 <= line[10] && line[10]
            <= 57) && (48 <= line[11] && line[11] <= 57) && line[12] == 32) {
            return None;
        }
        let mut k: usize = 13;
        while k < n
            invariant
                13 <= k <= n,
                n == line@.len(),
                forall|k2: int| 13 <= k2 < k ==> line@[k2] != 10,
            decreases n - k,
        {
            if line[k] == 10 {
                return None;
            }
            k = k + 1;
        }
        let status = (line[9] - 48) as u16 * 100 + (line[10] - 48) as u16 * 10 + (line[11]
            - 48) as u16;
        let reason = vstd::slice::slice_to_vec(vstd::slice::slice_subrange(line, 13, n));
        Some((HTTPKind::Res { status, reason }, (line[5] - 48, line[7] - 48)))
    }
}

/// How one segment advances a flow's optional HTTP detection state: the
/// state is created on first use, then advanced as [`http_step_post`]
/// says.
pub open spec fn http_try_post(
    pre: Option<HTTPContext>,
    seg: Seq<u8>,
    tail: bool,
    post: Option<HTTPContext>,
    r: Option<HTTP>,
) -> bool {
    match pre {
        Some(c0) => post matches Some(c1) && http_step_post(c0, seg, tail, c1, r),
        None => post matches Some(c1) && http_accum_post(
            Seq::<u8>::empty(),
            None,
            None,
            Seq::<u8>::empty(),
            seg,
            tail,
            c1,
            r,
        ),
    }
}

impl HTTP {
    /// Tries to detect an HTTP message after feeding one TCP segment's
    /// payload to its flow's accumulated state. Only the HTTP
    /// partial-parse state of the flow is touched.
    pub fn try_make(ctx: &mut crate::tcp::TCPSequence, tcp: &crate::tcp::TCP) -> (r: Option<HTTP>)
        requires
            old(ctx).wf(),
        ensures
            final(ctx).wf(),
            final(ctx).data == old(ctx).data,
            http_try_post(
                old(ctx).http,
                tcp.data@,
                tcp.flags.psh || tcp.flags.fin,
                final(ctx).http,
                r,
            ),
    {
        let tail = tcp.is_tail_of_sequence();
        if ctx.http.is_none() {
            ctx.http = Some(HTTPContext::new());
        }
        match &mut ctx.http {
            Some(c) => http_step(c, tcp.data.as_slice(), tail),
            None => {
                proof {
                    assert(false);
                }
                None
            },
        }
    }
}

} // verus!
