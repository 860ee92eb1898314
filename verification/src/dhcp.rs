//! DHCP: fixed-layout decode of the BOOTP header, with the options region
//! recognized by its magic cookie.

use vstd::prelude::*;

use crate::codec::{be16, be32, read_u16_be, read_u32_be, read_u8, take_from, take_range};

verus! {

#[derive(Debug, PartialEq)]
pub struct DHCP {
    pub op: u8,
    pub htype: u8,
    pub hlen: u8,
    pub hops: u8,
    pub xid: u32,
    pub secs: u16,
    pub flags: u16,
    pub ciaddr: u32,
    pub yiaddr: u32,
    pub siaddr: u32,
    pub giaddr: u32,
    pub chaddr: Vec<u8>,
    pub sname: Vec<u8>,
    pub file: Vec<u8>,
    pub options: Option<Vec<u8>>,
}

/// The four-byte magic cookie that opens the options region.
pub open spec fn dhcp_magic() -> Seq<u8> {
    seq![99u8, 130u8, 83u8, 99u8]
}

/// The fields of `d` are exactly the fixed-offset reads of `s`.
pub open spec fn dhcp_fields_ok(s: Seq<u8>, d: DHCP) -> bool {
    &&& d.op == s[0]
    &&& d.htype == s[1]
    &&& d.hlen == s[2]
    &&& d.hops == s[3]
    &&& d.xid == be32(s, 4)
    &&& d.secs == be16(s, 8)
    &&& d.flags == be16(s, 10)
    &&& d.ciaddr == be32(s, 12)
    &&& d.yiaddr == be32(s, 16)
    &&& d.siaddr == be32(s, 20)
    &&& d.giaddr == be32(s, 24)
    &&& d.chaddr@ == s.subrange(28, 44)
    &&& d.sname@ == s.subrange(44, 108)
    &&& d.file@ == s.subrange(108, 236)
    &&& if s.len() >= 240 && s.subrange(236, 240) == dhcp_magic() {
        d.options matches Some(o) && o@ == s.subrange(240, s.len() as int)
    } else {
        d.options is None
    }
}

impl DHCP {
    /// Tries to recognize a DHCP message. A record exists exactly when the
    /// 236-byte header is present and the operation is a request or a
    /// reply; the options vector is present exactly when the magic cookie
    /// follows the header.
    pub fn try_make(data: &[u8]) -> (r: Option<DHCP>)
        ensures
            data@.len() >= 236 && (data@[0] == 1 || data@[0] == 2) ==> (r matches Some(d)
                && dhcp_fields_ok(data@, d)),
            !(data@.len() >= 236 && (data@[0] == 1 || data@[0] == 2)) ==> r is None,
    {
        let op = read_u8(data, 0)?;
        if !(op == 0x01 || op == 0x02) {
            return None;
        }
        let htype = read_u8(data, 1)?;
        let hlen = read_u8(data, 2)?;
        let hops = read_u8(data, 3)?;
        let xid = read_u32_be(data, 4)?;
        let secs = read_u16_be(data, 8)?;
        let flags = read_u16_be(data, 10)?;
        let ciaddr = read_u32_be(data, 12)?;
        let yiaddr = read_u32_be(data, 16)?;
        let siaddr = read_u32_be(data, 20)?;
        let giaddr = read_u32_be(data, 24)?;
        let chaddr = take_range(data, 28, 44)?;
        let sname = take_range(data, 44, 108)?;
        let file = take_range(data, 108, 236)?;
        let options = if data.len() >= 240 && data[236] == 99 && data[237] == 130 && data[238]
            == 83 && data[239] == 99 {
            proof {
                assert(data@.subrange(236, 240) =~= dhcp_magic());
            }
            Some(take_from(data, 240).unwrap())
        } else {
            proof {
                if data@.len() >= 240 {
                    assert(data@.subrange(236, 240) == dhcp_magic() ==> {
                        &&& data@.subrange(236, 240)[0] == 99
                        &&& data@.subrange(236, 240)[1] == 130
                        &&& data@.subrange(236, 240)[2] == 83
                        &&& data@.subrange(236, 240)[3] == 99
                    });
                }
            }
            None
        };
        Some(
            DHCP {
                op,
                htype,
                hlen,
                hops,
                xid,
                secs,
                flags,
                ciaddr,
                yiaddr,
                siaddr,
                giaddr,
                chaddr,
                sname,
                file,
                options,
            },
        )
    }
}

} // verus!
