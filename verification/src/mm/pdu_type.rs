//! Uplink MM PDU types (ETSI EN 300 392-2 clause 16.10, 4-bit PDU type field) and the routing
//! of an uplink MM PDU to its handler.
use vstd::prelude::*;
use crate::cmce::cc_bs::subentity::{bits_value, pow2_bound};

verus! {

#[derive(Debug, Clone, Copy, PartialEq, Eq, Structural)]
pub enum MmPduTypeUl {
    UAuthentication,
    UItsiDetach,
    ULocationUpdateDemand,
    UMmStatus,
    UCkChangeResult,
    UOtar,
    UInformationProvide,
    UAttachDetachGroupIdentity,
    UAttachDetachGroupIdentityAcknowledgement,
    UTeiProvide,
    UDisableStatus,
    MmPduFunctionNotSupported,
}

/// The uplink MM PDU type a 4-bit field value denotes; `None` for reserved values.
pub open spec fn spec_mm_pdu_type_ul(bits: u64) -> Option<MmPduTypeUl> {
    if bits == 0 {
        Some(MmPduTypeUl::UAuthentication)
    } else if bits == 1 {
        Some(MmPduTypeUl::UItsiDetach)
    } else if bits == 2 {
        Some(MmPduTypeUl::ULocationUpdateDemand)
    } else if bits == 3 {
        Some(MmPduTypeUl::UMmStatus)
    } else if bits == 4 {
        Some(MmPduTypeUl::UCkChangeResult)
    } else if bits == 5 {
        Some(MmPduTypeUl::UOtar)
    } else if bits == 6 {
        Some(MmPduTypeUl::UInformationProvide)
    } else if bits == 7 {
        Some(MmPduTypeUl::UAttachDetachGroupIdentity)
    } else if bits == 8 {
        Some(MmPduTypeUl::UAttachDetachGroupIdentityAcknowledgement)
    } else if bits == 9 {
        Some(MmPduTypeUl::UTeiProvide)
    } else if bits == 11 {
        Some(MmPduTypeUl::UDisableStatus)
    } else if bits == 15 {
        Some(MmPduTypeUl::MmPduFunctionNotSupported)
    } else {
        None
    }
}

impl MmPduTypeUl {
    /// Decode the PDU type field.
    pub fn from_raw(bits: u64) -> (r: Option<MmPduTypeUl>)
        ensures
            r == spec_mm_pdu_type_ul(bits),
    {
        match bits {
            0 => Some(MmPduTypeUl::UAuthentication),
            1 => Some(MmPduTypeUl::UItsiDetach),
            2 => Some(MmPduTypeUl::ULocationUpdateDemand),
            3 => Some(MmPduTypeUl::UMmStatus),
            4 => Some(MmPduTypeUl::UCkChangeResult),
            5 => Some(MmPduTypeUl::UOtar),
            6 => Some(MmPduTypeUl::UInformationProvide),
            7 => Some(MmPduTypeUl::UAttachDetachGroupIdentity),
            8 => Some(MmPduTypeUl::UAttachDetachGroupIdentityAcknowledgement),
            9 => Some(MmPduTypeUl::UTeiProvide),
            11 => Some(MmPduTypeUl::UDisableStatus),
            15 => Some(MmPduTypeUl::MmPduFunctionNotSupported),
            _ => None,
        }
    }
}

/// Where an uplink MM PDU goes.
#[derive(Debug, Clone, Copy, PartialEq, Eq, Structural)]
pub enum MmDelivery {
    /// To the handler that parses and acts on PDUs of this type.
    Handler(MmPduTypeUl),
    /// A PDU type this base station does not implement; ignored.
    Unimplemented(MmPduTypeUl),
    /// Fewer than 4 bits; ignored.
    InsufficientBits,
    /// A reserved PDU type value; ignored.
    InvalidPduType(u64),
}

/// The uplink MM PDU types MM acts on: ITSI detach, location update demand, MM status, group
/// attach/detach and its acknowledgement, and TEI provide.
pub open spec fn handled_mm_type(t: MmPduTypeUl) -> bool {
    t is UItsiDetach || t is ULocationUpdateDemand || t is UMmStatus || t is UAttachDetachGroupIdentity
        || t is UAttachDetachGroupIdentityAcknowledgement || t is UTeiProvide
}

/// The routing of an uplink MM PDU whose bits, first transmitted first, are `bits`.
pub open spec fn spec_mm_delivery(bits: Seq<bool>) -> MmDelivery {
    if bits.len() < 4 {
        MmDelivery::InsufficientBits
    } else {
        let v = bits_value(bits, 4) as u64;
        match spec_mm_pdu_type_ul(v) {
            None => MmDelivery::InvalidPduType(v),
            Some(t) => if handled_mm_type(t) { MmDelivery::Handler(t) } else { MmDelivery::Unimplemented(t) },
        }
    }
}

/// Route an uplink MM PDU to its handler by its 4-bit type field (see `spec_mm_delivery`).
pub fn route_mm_pdu(sdu: &Vec<bool>) -> (r: MmDelivery)
    ensures
        r == spec_mm_delivery(sdu@),
{
    if sdu.len() < 4 {
        return MmDelivery::InsufficientBits;
    }
    let mut v: u64 = 0;
    let mut i: usize = 0;
    while i < 4
        invariant
            4 <= sdu@.len(),
            i <= 4,
            v == bits_value(sdu@, i as nat),
            v < pow2_bound(i as nat),
        decreases 4 - i,
    {
        let b: u64 = if sdu[i] { 1 } else { 0 };
        v = 2 * v + b;
        i = i + 1;
    }
    let t = match MmPduTypeUl::from_raw(v) {
        Some(t) => t,
        None => return MmDelivery::InvalidPduType(v),
    };
    match t {
        MmPduTypeUl::UItsiDetach | MmPduTypeUl::ULocationUpdateDemand | MmPduTypeUl::UMmStatus
        | MmPduTypeUl::UAttachDetachGroupIdentity | MmPduTypeUl::UAttachDetachGroupIdentityAcknowledgement
        | MmPduTypeUl::UTeiProvide => MmDelivery::Handler(t),
        _ => MmDelivery::Unimplemented(t),
    }
}

} // verus!
