//! Dissection of captured network frames into a layered protocol stack,
//! and reduction of the decoded stream into fixed-duration statistical
//! windows.
//!
//! Byte buffers enter through the parsers in the protocol modules; the
//! windowed aggregator in [`counter`] folds the decoded frames into
//! per-window counts. Capture-file framing, live capture and export are
//! left to the surrounding application.

pub mod arp;
pub mod dhcp;
pub mod ethernet;
pub mod goose;
pub mod http;
pub mod icmp;
pub mod ip;
pub mod ipv6;
pub mod layers;
pub mod multipart;
pub mod frame;
pub mod opc_ua;
pub mod state;
pub mod sv;
pub mod tcp;
pub mod tpkt;
pub mod udp;
pub mod codec;
pub mod combo;
pub mod counter;

use vstd::prelude::*;

verus! {

} // verus!
