//! TPKT header recognition over a flow's accumulated bytes.

use vstd::prelude::*;

use crate::codec::{be16, read_u16_be, read_u8};
use crate::tcp::TCPSequence;

verus! {

#[derive(Debug, PartialEq)]
pub struct TPKT {
    pub version: u8,
    pub reserved: u8,
    pub len: u16,
}

/// `r` is the recognition result for accumulated bytes `d`: a record
/// exactly when the 4-byte header is complete.
pub open spec fn tpkt_post(d: Seq<u8>, r: Option<TPKT>) -> bool {
    if d.len() >= 4 {
        &&& r matches Some(t)
        &&& t.version == d[0]
        &&& t.reserved == d[1]
        &&& t.len == be16(d, 2)
    } else {
        r is None
    }
}

impl TPKT {
    /// Tries to recognize a TPKT header at the start of the flow's
    /// accumulated bytes.
    pub fn try_make(ctx: &TCPSequence) -> (r: Option<TPKT>)
        ensures
            tpkt_post(ctx.data@, r),
    {
        let data = ctx.data.as_slice();
        let version = read_u8(data, 0)?;
        let reserved = read_u8(data, 1)?;
        let len = read_u16_be(data, 2)?;
        Some(TPKT { version, reserved, len })
    }
}

} // verus!
