//! The frame-level layer registry: one typed slot per link-layer record,
//! at most one record per protocol identity, later insertion overwriting
//! the earlier one.

use vstd::prelude::*;

use crate::ethernet::Ethernet;
use crate::ip::IPv4;
use crate::ipv6::IPv6;

verus! {

/// A record a frame can hold directly.
#[derive(Debug, PartialEq)]
pub enum LayerRecord {
    Ethernet(Ethernet),
    IPv4(IPv4),
    IPv6(IPv6),
}

/// The registry itself: one optional slot per protocol.
#[derive(Debug, PartialEq)]
pub struct Layers {
    pub ethernet: Option<Ethernet>,
    pub ipv4: Option<IPv4>,
    pub ipv6: Option<IPv6>,
}

impl Layers {
    /// Empty registry.
    pub fn new() -> (r: Layers)
        ensures
            r.ethernet is None,
            r.ipv4 is None,
            r.ipv6 is None,
    {
        Layers { ethernet: None, ipv4: None, ipv6: None }
    }

    /// Stores a record in its protocol's slot, overwriting any earlier
    /// record of the same protocol and leaving the other slots as they
    /// were.
    pub fn insert(&mut self, layer: LayerRecord)
        ensures
            match layer {
                LayerRecord::Ethernet(e) => final(self).ethernet == Some(e) && final(self).ipv4
                    == old(self).ipv4 && final(self).ipv6 == old(self).ipv6,
                LayerRecord::IPv4(v) => final(self).ipv4 == Some(v) && final(self).ethernet == old(
                    self,
                ).ethernet && final(self).ipv6 == old(self).ipv6,
                LayerRecord::IPv6(v) => final(self).ipv6 == Some(v) && final(self).ethernet == old(
                    self,
                ).ethernet && final(self).ipv4 == old(self).ipv4,
            },
    {
        match layer {
            LayerRecord::Ethernet(e) => {
                self.ethernet = Some(e);
            },
            LayerRecord::IPv4(v) => {
                self.ipv4 = Some(v);
            },
            LayerRecord::IPv6(v) => {
                self.ipv6 = Some(v);
            },
        }
    }
}

/// A decoded protocol record; `name` is its protocol identity.
pub trait Layer {
    fn name(&self) -> &'static str;
}

impl Layer for Ethernet {
    fn name(&self) -> &'static str {
        "Ethernet"
    }
}

impl Layer for IPv4 {
    fn name(&self) -> &'static str {
        "IPv4"
    }
}

impl Layer for IPv6 {
    fn name(&self) -> &'static str {
        "IPv6"
    }
}

/// A container that owns a frame-level registry.
pub trait HasLayers {
    /// The registry this container holds.
    spec fn layers_spec(&self) -> Layers;

    fn layers(&self) -> (r: &Layers)
        ensures
            *r == self.layers_spec(),
    ;
}

} // verus!
