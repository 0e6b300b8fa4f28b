//! The diagnostic log sink's fixed configuration: how the serial endpoint
//! presents itself on the bus, and how much memory it is given.
//!
//! The sink itself is a USB serial-class device run by a protocol stack
//! outside this library; what is fixed here is what that stack is told.

use vstd::prelude::*;

verus! {

/// How the endpoint presents itself.
#[derive(Clone, Copy, Debug, PartialEq, Eq, Structural)]
pub struct SinkIdentity {
    /// The vendor identifier.
    pub vendor_id: u16,
    /// The product identifier.
    pub product_id: u16,
    /// The most current the device draws, in milliamperes.
    pub max_power_ma: u16,
    /// The device class code.
    pub device_class: u8,
    /// The device sub-class code.
    pub device_sub_class: u8,
    /// The device protocol code.
    pub device_protocol: u8,
    /// Whether the device groups its interfaces by association descriptors.
    pub composite_with_iads: bool,
}

/// Bytes for the configuration descriptor.
pub const CONFIG_DESCRIPTOR_BYTES: usize = 256;

/// Bytes for the binary object store descriptor.
pub const BOS_DESCRIPTOR_BYTES: usize = 256;

/// Bytes for control transfers.
pub const CONTROL_BYTES: usize = 64;

/// Bytes of the largest packet of the serial class.
pub const MAX_PACKET_BYTES: u16 = 64;

/// Bytes for log lines that wait to be sent; a line that does not fit is
/// dropped.
pub const LOG_BYTES: usize = 1024;

/// The class code of a device whose class is given per interface group.
pub const CLASS_MISCELLANEOUS: u8 = 0xEF;

/// The sub-class code that goes with `CLASS_MISCELLANEOUS`.
pub const SUB_CLASS_COMMON: u8 = 0x02;

/// The protocol code for interface association descriptors.
pub const PROTOCOL_IAD: u8 = 0x01;

/// Whether the class codes agree with the use of association descriptors: a
/// device that uses them carries the three codes reserved for that. The
/// protocol stack refuses, fatally, an identity that does not agree.
pub open spec fn spec_class_agrees(id: SinkIdentity) -> bool {
    id.composite_with_iads ==> id.device_class == CLASS_MISCELLANEOUS && id.device_sub_class
        == SUB_CLASS_COMMON && id.device_protocol == PROTOCOL_IAD
}

/// The identity of the log sink.
pub open spec fn spec_identity() -> SinkIdentity {
    SinkIdentity {
        vendor_id: 0xf569,
        product_id: 0x1,
        max_power_ma: 500,
        device_class: CLASS_MISCELLANEOUS,
        device_sub_class: SUB_CLASS_COMMON,
        device_protocol: PROTOCOL_IAD,
        composite_with_iads: true,
    }
}

impl SinkIdentity {
    /// Whether the class codes agree with the use of association
    /// descriptors.
    pub fn class_agrees(&self) -> (agrees: bool)
        ensures
            agrees == spec_class_agrees(*self),
    {
        !self.composite_with_iads || (self.device_class == CLASS_MISCELLANEOUS
            && self.device_sub_class == SUB_CLASS_COMMON && self.device_protocol == PROTOCOL_IAD)
    }
}

/// The identity of the log sink, which the protocol stack accepts.
pub fn identity() -> (id: SinkIdentity)
    ensures
        id == spec_identity(),
        spec_class_agrees(id),
{
    SinkIdentity {
        vendor_id: 0xf569,
        product_id: 0x1,
        max_power_ma: 500,
        device_class: CLASS_MISCELLANEOUS,
        device_sub_class: SUB_CLASS_COMMON,
        device_protocol: PROTOCOL_IAD,
        composite_with_iads: true,
    }
}

} // verus!
