//! Sampled Values: fixed 8-byte header followed by an APDU whose extent is
//! given by the header's length field.

use vstd::prelude::*;

use crate::codec::{be16, read_u16_be, take_range};

verus! {

#[derive(Debug, PartialEq)]
pub struct SampledValue {
    pub app_id: u16,
    pub len: u16,
    pub reserved1: u16,
    pub reserved2: u16,
    pub apdu: Vec<u8>,
}

impl SampledValue {
    /// Decodes a Sampled-Value frame. The record exists exactly when the
    /// 8-byte header is present and its length field spans from the header
    /// end to at most the end of the slice.
    pub fn new(data: &[u8]) -> (r: Option<SampledValue>)
        ensures
            data@.len() >= 8 ==> {
                let ln = be16(data@, 2) as int;
                if 8 <= ln && ln <= data@.len() {
                    r matches Some(g) && g.app_id == be16(data@, 0) && g.len == be16(data@, 2)
                        && g.reserved1 == be16(data@, 4) && g.reserved2 == be16(data@, 6)
                        && g.apdu@ == data@.subrange(8, ln)
                } else {
                    r is None
                }
            },
            data@.len() < 8 ==> r is None,
    {
        let app_id = read_u16_be(data, 0)?;
        let len = read_u16_be(data, 2)?;
        let reserved1 = read_u16_be(data, 4)?;
        let reserved2 = read_u16_be(data, 6)?;
        let ln = len as usize;
        let apdu = take_range(data, 8, ln)?;
        Some(SampledValue { app_id, len, reserved1, reserved2, apdu })
    }
}

} // verus!
