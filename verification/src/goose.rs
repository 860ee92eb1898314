//! GOOSE: fixed 8-byte header followed by an APDU whose extent is given by
//! the header's length field; trailing bytes are kept separately.

use vstd::prelude::*;

use crate::codec::{be16, read_u16_be, take_range};

verus! {

#[derive(Debug, PartialEq)]
pub struct GOOSE {
    pub app_id: u16,
    pub len: u16,
    pub reserved1: u16,
    pub reserved2: u16,
    pub apdu: Vec<u8>,
    pub ext: Vec<u8>,
}

/// `r` is the decode result for `s`: a record exactly when the 8-byte
/// header is present and its length field spans from the header end to at
/// most the end of the slice.
pub open spec fn goose_post(s: Seq<u8>, r: Option<GOOSE>) -> bool {
    if s.len() >= 8 {
        let ln = be16(s, 2) as int;
        if 8 <= ln && ln <= s.len() {
            r matches Some(g) && g.app_id == be16(s, 0) && g.len == be16(s, 2) && g.reserved1
                == be16(s, 4) && g.reserved2 == be16(s, 6) && g.apdu@ == s.subrange(8, ln)
                && g.ext@ == s.subrange(ln, s.len() as int)
        } else {
            r is None
        }
    } else {
        r is None
    }
}

impl GOOSE {
    /// Decodes a GOOSE frame; see [`goose_post`].
    pub fn new(data: &[u8]) -> (r: Option<GOOSE>)
        ensures
            goose_post(data@, r),
    {
        let app_id = read_u16_be(data, 0)?;
        let len = read_u16_be(data, 2)?;
        let reserved1 = read_u16_be(data, 4)?;
        let reserved2 = read_u16_be(data, 6)?;
        let ln = len as usize;
        let apdu = take_range(data, 8, ln)?;
        let ext = take_range(data, ln, data.len())?;
        Some(GOOSE { app_id, len, reserved1, reserved2, apdu, ext })
    }
}

} // verus!
