//! OPC-UA transport message recognition: a three-letter message type, a
//! chunk type byte, and a little-endian message size.

use vstd::prelude::*;

use crate::codec::{le32, read_u32_le, take_from};

verus! {

#[derive(Debug, PartialEq, Clone, Copy)]
pub enum MessageType {
    HEL,
    ASK,
    ERP,
    RHE,
    MSG,
}

/// The message type named by the first three bytes, where they name one.
pub open spec fn msg_type_of(s: Seq<u8>) -> Option<MessageType> {
    if s.len() < 3 {
        None
    } else if s.subrange(0, 3) == seq![72u8, 69u8, 76u8] {
        Some(MessageType::HEL)
    } else if s.subrange(0, 3) == seq![65u8, 83u8, 75u8] {
        Some(MessageType::ASK)
    } else if s.subrange(0, 3) == seq![69u8, 82u8, 80u8] {
        Some(MessageType::ERP)
    } else if s.subrange(0, 3) == seq![82u8, 72u8, 69u8] {
        Some(MessageType::RHE)
    } else if s.subrange(0, 3) == seq![77u8, 83u8, 71u8] {
        Some(MessageType::MSG)
    } else {
        None
    }
}

impl MessageType {
    /// Decodes the message type named by the first three bytes of
    /// `value`.
    pub fn try_from(value: &[u8]) -> (r: Result<MessageType, ()>)
        ensures
            r matches Ok(m) ==> msg_type_of(value@) == Some(m),
            r is Err ==> msg_type_of(value@) is None,
    {
        if value.len() < 3 {
            return Err(());
        }
        proof {
            assert(value@.subrange(0, 3) =~= seq![value@[0], value@[1], value@[2]]);
        }
        let b0 = value[0];
        let b1 = value[1];
        let b2 = value[2];
        if b0 == 72 && b1 == 69 && b2 == 76 {
            proof {
                assert(value@.subrange(0, 3) =~= seq![72u8, 69u8, 76u8]);
            }
            Ok(MessageType::HEL)
        } else if b0 == 65 && b1 == 83 && b2 == 75 {
            proof {
                assert(value@.subrange(0, 3) =~= seq![65u8, 83u8, 75u8]);
            }
            Ok(MessageType::ASK)
        } else if b0 == 69 && b1 == 82 && b2 == 80 {
            proof {
                assert(value@.subrange(0, 3) =~= seq![69u8, 82u8, 80u8]);
            }
            Ok(MessageType::ERP)
        } else if b0 == 82 && b1 == 72 && b2 == 69 {
            proof {
                assert(value@.subrange(0, 3) =~= seq![82u8, 72u8, 69u8]);
            }
            Ok(MessageType::RHE)
        } else if b0 == 77 && b1 == 83 && b2 == 71 {
            proof {
                assert(value@.subrange(0, 3) =~= seq![77u8, 83u8, 71u8]);
            }
            Ok(MessageType::MSG)
        } else {
            Err(())
        }
    }
}

/// One recognized OPC-UA transport message.
#[derive(Debug, PartialEq)]
pub struct OpcUa {
    pub msg_type: MessageType,
    pub chunk_type: u8,
    pub message_size: u32,
    pub data: Vec<u8>,
}

/// `r` is the recognition result for buffer `d`: a record exactly when
/// the type bytes name a message type and the 8-byte header is
/// complete.
pub open spec fn opc_post(d: Seq<u8>, r: Option<OpcUa>) -> bool {
    if msg_type_of(d) is Some && d.len() >= 8 {
        &&& r matches Some(o)
        &&& Some(o.msg_type) == msg_type_of(d)
        &&& o.chunk_type == d[3]
        &&& o.message_size == le32(d, 4)
        &&& o.data@ == d.subrange(8, d.len() as int)
    } else {
        r is None
    }
}

impl OpcUa {
    /// Tries to recognize an OPC-UA message at the start of a byte
    /// buffer.
    pub fn try_make(data: &[u8]) -> (r: Option<OpcUa>)
        ensures
            opc_post(data@, r),
    {
        let kind = match MessageType::try_from(data) {
            Ok(k) => k,
            Err(_) => {
                return None;
            },
        };
        if data.len() < 8 {
            return None;
        }
        let chunk_type = data[3];
        let message_size = read_u32_le(data, 4)?;
        let rest = take_from(data, 8)?;
        Some(OpcUa { msg_type: kind, chunk_type, message_size, data: rest })
    }
}

} // verus!
