//! ICMP: decode of the (type, code) taxonomy. Every defined pair maps to
//! its documented variant; every undefined pair falls into the catch-all
//! `Unknown` variant instead of failing.

use vstd::prelude::*;

use crate::codec::{be16, be32, be64, read_u16_be, read_u32_be, read_u64_be, read_u8, take_from};

verus! {

#[derive(Debug, PartialEq)]
pub enum Echo {
    Request,
    Response,
}

#[derive(Debug, PartialEq)]
pub enum DSTUnreachable {
    NetUnreachable,
    NodeUnreachable,
    ProtocolUnreachable,
    PortUnreachable,
    FragRequired,
    WrongRoad,
    NetUnknown,
    NodeUnknown,
    SRCNodeIsolated,
    NetAdminForbidden,
    NodeAdminForbidden,
    NetUnavailableToS,
    NodeUnavailableToS,
    CommunicationAdminForbidden,
    NodeOrderViolation,
    PreferenceOrderPruning,
}

#[derive(Debug, PartialEq)]
pub enum Forward {
    PktNet,
    PktNode,
    ToS,
    PktNodeTos,
}

#[derive(Debug, PartialEq)]
pub enum TTLExpire {
    Transportation,
    BuildFrag,
    Unknown(u8),
}

#[derive(Debug, PartialEq)]
pub enum InvalidParams {
    PtrError { ptr: u8, not_use: u32, header_ip: u64 },
    MissingOptions { not_use: u32, header_ip: u64 },
    Length { not_use: u32, header_ip: u64 },
}

#[derive(Debug, PartialEq)]
pub enum Photuris {
    Reserved,
    UnknownIndex,
    AuthError,
    DecodeError,
    NeedValid,
    NeedAuth,
}

/// Timestamp request/response body: identifier, sequence number and the
/// originate/receive/transmit timestamps.
#[derive(Debug, PartialEq)]
pub struct ReqTime {
    pub id: u16,
    pub num: u16,
    pub begin_time: u32,
    pub recv_time: u32,
    pub send_time: u32,
}

#[derive(Debug, PartialEq)]
pub enum ICMPData {
    Echo { id: u16, kind: Echo, num: u16, data: Vec<u8> },
    Reserved,
    DstUnreachable { kind: DSTUnreachable, not_use: u32, header_ip: u64 },
    SrcContainment,
    Forward { kind: Forward, addr: u32, header_ip: u64 },
    AltAddrNode,
    RouterAdvertisement,
    RouterRequest,
    TTLExpire { kind: TTLExpire, addr: u32, header_ip: u64 },
    InvalidParams(InvalidParams),
    ReqTime(ReqTime),
    ResTime(ReqTime),
    OutDate,
    Photuris(Photuris),
    Experimental,
    Unknown,
}

/// One decoded ICMP message: type (`kind`), code, checksum, and the
/// type-specific body.
#[derive(Debug, PartialEq)]
pub struct ICMP {
    pub kind: u8,
    pub code: u8,
    pub checksum: u16,
    pub data: ICMPData,
}

/// Destination-unreachable sub-reason for a defined code.
pub open spec fn dst_unreachable_kind(code: u8) -> Option<DSTUnreachable> {
    if code == 0 {
        Some(DSTUnreachable::NetUnreachable)
    } else if code == 1 {
        Some(DSTUnreachable::NodeUnreachable)
    } else if code == 2 {
        Some(DSTUnreachable::ProtocolUnreachable)
    } else if code == 3 {
        Some(DSTUnreachable::PortUnreachable)
    } else if code == 4 {
        Some(DSTUnreachable::FragRequired)
    } else if code == 5 {
        Some(DSTUnreachable::WrongRoad)
    } else if code == 6 {
        Some(DSTUnreachable::NetUnknown)
    } else if code == 7 {
        Some(DSTUnreachable::NodeUnknown)
    } else if code == 8 {
        Some(DSTUnreachable::SRCNodeIsolated)
    } else if code == 9 {
        Some(DSTUnreachable::NetAdminForbidden)
    } else if code == 10 {
        Some(DSTUnreachable::NodeAdminForbidden)
    } else if code == 11 {
        Some(DSTUnreachable::NetUnavailableToS)
    } else if code == 12 {
        Some(DSTUnreachable::NodeUnavailableToS)
    } else if code == 13 {
        Some(DSTUnreachable::CommunicationAdminForbidden)
    } else if code == 14 {
        Some(DSTUnreachable::NodeOrderViolation)
    } else if code == 15 {
        Some(DSTUnreachable::PreferenceOrderPruning)
    } else {
        None
    }
}

/// Redirect sub-kind for a defined code.
pub open spec fn forward_kind(code: u8) -> Option<Forward> {
    if code == 0 {
        Some(Forward::PktNet)
    } else if code == 1 {
        Some(Forward::PktNode)
    } else if code == 2 {
        Some(Forward::ToS)
    } else if code == 3 {
        Some(Forward::PktNodeTos)
    } else {
        None
    }
}

/// Photuris sub-kind for a defined code.
pub open spec fn photuris_kind(code: u8) -> Option<Photuris> {
    if code == 0 {
        Some(Photuris::Reserved)
    } else if code == 1 {
        Some(Photuris::UnknownIndex)
    } else if code == 2 {
        Some(Photuris::AuthError)
    } else if code == 3 {
        Some(Photuris::DecodeError)
    } else if code == 4 {
        Some(Photuris::NeedValid)
    } else if code == 5 {
        Some(Photuris::NeedAuth)
    } else {
        None
    }
}

/// Types whose whole taxonomy slot is reserved.
pub open spec fn is_reserved_kind(k: u8) -> bool {
    k == 1 || k == 2 || k == 7 || k == 19 || (20 <= k && k <= 29) || (42 <= k && k <= 252) || k
        == 255
}

/// Types whose handling is out of date.
pub open spec fn is_outdate_kind(k: u8) -> bool {
    k == 4 || k == 6 || (15 <= k && k <= 18) || (30 <= k && k <= 39)
}

/// Experimental types.
pub open spec fn is_experimental_kind(k: u8) -> bool {
    k == 41 || k == 253 || k == 254
}

/// Bytes needed beyond the slice start for a message of type `k`.
pub open spec fn icmp_min_len(k: u8) -> int {
    if k == 0 || k == 8 {
        8
    } else if k == 3 || k == 5 || k == 11 || k == 12 {
        16
    } else if k == 13 || k == 14 {
        20
    } else {
        4
    }
}

/// The decode table: `v` is the body that a message with type `kind`,
/// code `code` and bytes `s` decodes to.
pub open spec fn icmp_data_ok(kind: u8, code: u8, s: Seq<u8>, v: ICMPData) -> bool {
    if kind == 0 || kind == 8 {
        &&& v matches ICMPData::Echo { id, kind: ek, num, data }
        &&& id == be16(s, 4)
        &&& ek == (if kind == 0 {
            Echo::Response
        } else {
            Echo::Request
        })
        &&& num == be16(s, 6)
        &&& data@ == s.subrange(8, s.len() as int)
    } else if is_reserved_kind(kind) {
        v == ICMPData::Reserved
    } else if kind == 3 {
        v == (match dst_unreachable_kind(code) {
            Some(k) => ICMPData::DstUnreachable {
                kind: k,
                not_use: be32(s, 4),
                header_ip: be64(s, 8),
            },
            None => ICMPData::Unknown,
        })
    } else if is_outdate_kind(kind) {
        v == ICMPData::OutDate
    } else if kind == 5 {
        v == (match forward_kind(code) {
            Some(k) => ICMPData::Forward { kind: k, addr: be32(s, 4), header_ip: be64(s, 8) },
            None => ICMPData::Unknown,
        })
    } else if kind == 9 {
        v == ICMPData::RouterAdvertisement
    } else if kind == 10 {
        v == ICMPData::RouterRequest
    } else if kind == 11 {
        v == ICMPData::TTLExpire {
            kind: if code == 0 {
                TTLExpire::Transportation
            } else if code == 1 {
                TTLExpire::BuildFrag
            } else {
                TTLExpire::Unknown(code)
            },
            addr: be32(s, 4),
            header_ip: be64(s, 8),
        }
    } else if kind == 12 {
        v == (if code == 0 {
            ICMPData::InvalidParams(
                InvalidParams::PtrError { ptr: s[4], not_use: be32(s, 4), header_ip: be64(s, 8) },
            )
        } else if code == 1 {
            ICMPData::InvalidParams(
                InvalidParams::MissingOptions { not_use: be32(s, 4), header_ip: be64(s, 8) },
            )
        } else if code == 2 {
            ICMPData::InvalidParams(
                InvalidParams::Length { not_use: be32(s, 4), header_ip: be64(s, 8) },
            )
        } else {
            ICMPData::Unknown
        })
    } else if kind == 13 || kind == 14 {
        &&& (kind == 13 ==> v matches ICMPData::ReqTime(_))
        &&& (kind == 14 ==> v matches ICMPData::ResTime(_))
        &&& match v {
            ICMPData::ReqTime(rt) | ICMPData::ResTime(rt) => {
                &&& rt.id == be16(s, 4)
                &&& rt.num == be16(s, 6)
                &&& rt.begin_time == be32(s, 8)
                &&& rt.recv_time == be32(s, 12)
                &&& rt.send_time == be32(s, 16)
            },
            _ => false,
        }
    } else if kind == 40 {
        v == (match photuris_kind(code) {
            Some(k) => ICMPData::Photuris(k),
            None => ICMPData::Unknown,
        })
    } else if is_experimental_kind(kind) {
        v == ICMPData::Experimental
    } else {
        v == ICMPData::Unknown
    }
}

impl ReqTime {
    /// Decodes a timestamp body from a 16-byte slice; shorter input yields
    /// no record.
    pub fn from(data: &[u8]) -> (r: Option<ReqTime>)
        ensures
            data@.len() >= 16 ==> (r matches Some(rt) && rt.id == be16(data@, 0) && rt.num == be16(
                data@,
                2,
            ) && rt.begin_time == be32(data@, 4) && rt.recv_time == be32(data@, 8) && rt.send_time
                == be32(data@, 12)),
            data@.len() < 16 ==> r is None,
    {
        let id = read_u16_be(data, 0)?;
        let num = read_u16_be(data, 2)?;
        let begin_time = read_u32_be(data, 4)?;
        let recv_time = read_u32_be(data, 8)?;
        let send_time = read_u32_be(data, 12)?;
        Some(ReqTime { id, num, begin_time, recv_time, send_time })
    }
}

/// `r` is the decode result for `s`: a record exactly when the 4-byte
/// header and the type's own body are present, decoded by the table.
pub open spec fn icmp_post(s: Seq<u8>, r: Option<ICMP>) -> bool {
    if s.len() >= 4 {
        let kind = s[0];
        let code = s[1];
        if s.len() >= icmp_min_len(kind) {
            r matches Some(ic) && ic.kind == kind && ic.code == code && ic.checksum == be16(s, 2)
                && icmp_data_ok(kind, code, s, ic.data)
        } else {
            r is None
        }
    } else {
        r is None
    }
}

impl ICMP {
    /// Decodes one ICMP message. A slice shorter than the 4-byte header,
    /// or than the decoded type's own body, yields no record; a (type,
    /// code) pair outside the table yields the catch-all variant. See
    /// [`icmp_post`].
    pub fn new(data: &[u8]) -> (r: Option<ICMP>)
        ensures
            icmp_post(data@, r),
    {
        let kind = read_u8(data, 0)?;
        let code = read_u8(data, 1)?;
        let checksum = read_u16_be(data, 2)?;
        let d: ICMPData = if kind == 0 || kind == 8 {
            let id = read_u16_be(data, 4)?;
            let num = read_u16_be(data, 6)?;
            let payload = take_from(data, 8)?;
            ICMPData::Echo {
                id,
                kind: if kind == 0 {
                    Echo::Response
                } else {
                    Echo::Request
                },
                num,
                data: payload,
            }
        } else if kind == 1 || kind == 2 || kind == 7 || kind == 19 || (20 <= kind && kind <= 29)
            || (42 <= kind && kind <= 252) || kind == 255 {
            ICMPData::Reserved
        } else if kind == 3 {
            let not_use = read_u32_be(data, 4)?;
            let header_ip = read_u64_be(data, 8)?;
            if code == 0 {
                ICMPData::DstUnreachable { kind: DSTUnreachable::NetUnreachable, not_use, header_ip }
            } else if code == 1 {
                ICMPData::DstUnreachable {
                    kind: DSTUnreachable::NodeUnreachable,
                    not_use,
                    header_ip,
                }
            } else if code == 2 {
                ICMPData::DstUnreachable {
                    kind: DSTUnreachable::ProtocolUnreachable,
                    not_use,
                    header_ip,
                }
            } else if code == 3 {
                ICMPData::DstUnreachable {
                    kind: DSTUnreachable::PortUnreachable,
                    not_use,
                    header_ip,
                }
            } else if code == 4 {
                ICMPData::DstUnreachable { kind: DSTUnreachable::FragRequired, not_use, header_ip }
            } else if code == 5 {
                ICMPData::DstUnreachable { kind: DSTUnreachable::WrongRoad, not_use, header_ip }
            } else if code == 6 {
                ICMPData::DstUnreachable { kind: DSTUnreachable::NetUnknown, not_use, header_ip }
            } else if code == 7 {
                ICMPData::DstUnreachable { kind: DSTUnreachable::NodeUnknown, not_use, header_ip }
            } else if code == 8 {
                ICMPData::DstUnreachable {
                    kind: DSTUnreachable::SRCNodeIsolated,
                    not_use,
                    header_ip,
                }
            } else if code == 9 {
                ICMPData::DstUnreachable {
                    kind: DSTUnreachable::NetAdminForbidden,
                    not_use,
                    header_ip,
                }
            } else if code == 10 {
                ICMPData::DstUnreachable {
                    kind: DSTUnreachable::NodeAdminForbidden,
                    not_use,
                    header_ip,
                }
            } else if code == 11 {
                ICMPData::DstUnreachable {
                    kind: DSTUnreachable::NetUnavailableToS,
                    not_use,
                    header_ip,
                }
            } else if code == 12 {
                ICMPData::DstUnreachable {
                    kind: DSTUnreachable::NodeUnavailableToS,
                    not_use,
                    header_ip,
                }
            } else if code == 13 {
                ICMPData::DstUnreachable {
                    kind: DSTUnreachable::CommunicationAdminForbidden,
                    not_use,
                    header_ip,
                }
            } else if code == 14 {
                ICMPData::DstUnreachable {
                    kind: DSTUnreachable::NodeOrderViolation,
                    not_use,
                    header_ip,
                }
            } else if code == 15 {
                ICMPData::DstUnreachable {
                    kind: DSTUnreachable::PreferenceOrderPruning,
                    not_use,
                    header_ip,
                }
            } else {
                ICMPData::Unknown
            }
        } else if kind == 4 || kind == 6 || (15 <= kind && kind <= 18) || (30 <= kind && kind
            <= 39) {
            ICMPData::OutDate
        } else if kind == 5 {
            let addr = read_u32_be(data, 4)?;
            let header_ip = read_u64_be(data, 8)?;
            if code == 0 {
                ICMPData::Forward { kind: Forward::PktNet, addr, header_ip }
            } else if code == 1 {
                ICMPData::Forward { kind: Forward::PktNode, addr, header_ip }
            } else if code == 2 {
                ICMPData::Forward { kind: Forward::ToS, addr, header_ip }
            } else if code == 3 {
                ICMPData::Forward { kind: Forward::PktNodeTos, addr, header_ip }
            } else {
                ICMPData::Unknown
            }
        } else if kind == 9 {
            ICMPData::RouterAdvertisement
        } else if kind == 10 {
            ICMPData::RouterRequest
        } else if kind == 11 {
            let addr = read_u32_be(data, 4)?;
            let header_ip = read_u64_be(data, 8)?;
            ICMPData::TTLExpire {
                kind: if code == 0 {
                    TTLExpire::Transportation
                } else if code == 1 {
                    TTLExpire::BuildFrag
                } else {
                    TTLExpire::Unknown(code)
                },
                addr,
                header_ip,
            }
        } else if kind == 12 {
            let not_use = read_u32_be(data, 4)?;
            let header_ip = read_u64_be(data, 8)?;
            if code == 0 {
                let ptr = read_u8(data, 4)?;
                ICMPData::InvalidParams(InvalidParams::PtrError { ptr, not_use, header_ip })
            } else if code == 1 {
                ICMPData::InvalidParams(InvalidParams::MissingOptions { not_use, header_ip })
            } else if code == 2 {
                ICMPData::InvalidParams(InvalidParams::Length { not_use, header_ip })
            } else {
                ICMPData::Unknown
            }
        } else if kind == 13 || kind == 14 {
            let tail = vstd::slice::slice_subrange(data, 4, data.len());
            let rt = ReqTime::from(tail)?;
            if kind == 13 {
                ICMPData::ReqTime(rt)
            } else {
                ICMPData::ResTime(rt)
            }
        } else if kind == 40 {
            if code == 0 {
                ICMPData::Photuris(Photuris::Reserved)
            } else if code == 1 {
                ICMPData::Photuris(Photuris::UnknownIndex)
            } else if code == 2 {
                ICMPData::Photuris(Photuris::AuthError)
            } else if code == 3 {
                ICMPData::Photuris(Photuris::DecodeError)
            } else if code == 4 {
                ICMPData::Photuris(Photuris::NeedValid)
            } else if code == 5 {
                ICMPData::Photuris(Photuris::NeedAuth)
            } else {
                ICMPData::Unknown
            }
        } else if kind == 41 || kind == 253 || kind == 254 {
            ICMPData::Experimental
        } else {
            ICMPData::Unknown
        };
        Some(ICMP { kind, code, checksum, data: d })
    }
}

} // verus!
