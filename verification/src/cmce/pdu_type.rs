//! Uplink CMCE PDU types (ETSI EN 300 392-2 clause 14.8.28, 5-bit PDU type field).
use vstd::prelude::*;

verus! {

#[derive(Debug, Clone, Copy, PartialEq, Eq, Structural)]
pub enum CmcePduTypeUl {
    UAlert,
    UConnect,
    UDisconnect,
    UInfo,
    URelease,
    USetup,
    UStatus,
    UTxCeased,
    UTxDemand,
    UCallRestore,
    USdsData,
    UFacility,
    CmceFunctionNotSupported,
}

/// The uplink PDU type a 5-bit field value denotes; `None` for reserved values.
pub open spec fn spec_pdu_type_ul(bits: u64) -> Option<CmcePduTypeUl> {
    if bits == 0 {
        Some(CmcePduTypeUl::UAlert)
    } else if bits == 2 {
        Some(CmcePduTypeUl::UConnect)
    } else if bits == 4 {
        Some(CmcePduTypeUl::UDisconnect)
    } else if bits == 5 {
        Some(CmcePduTypeUl::UInfo)
    } else if bits == 6 {
        Some(CmcePduTypeUl::URelease)
    } else if bits == 7 {
        Some(CmcePduTypeUl::USetup)
    } else if bits == 8 {
        Some(CmcePduTypeUl::UStatus)
    } else if bits == 9 {
        Some(CmcePduTypeUl::UTxCeased)
    } else if bits == 10 {
        Some(CmcePduTypeUl::UTxDemand)
    } else if bits == 14 {
        Some(CmcePduTypeUl::UCallRestore)
    } else if bits == 15 {
        Some(CmcePduTypeUl::USdsData)
    } else if bits == 16 {
        Some(CmcePduTypeUl::UFacility)
    } else if bits == 31 {
        Some(CmcePduTypeUl::CmceFunctionNotSupported)
    } else {
        None
    }
}

impl CmcePduTypeUl {
    /// Decode the PDU type field.
    pub fn from_raw(bits: u64) -> (r: Option<CmcePduTypeUl>)
        ensures
            r == spec_pdu_type_ul(bits),
    {
        if bits == 0 {
            Some(CmcePduTypeUl::UAlert)
        } else if bits == 2 {
            Some(CmcePduTypeUl::UConnect)
        } else if bits == 4 {
            Some(CmcePduTypeUl::UDisconnect)
        } else if bits == 5 {
            Some(CmcePduTypeUl::UInfo)
        } else if bits == 6 {
            Some(CmcePduTypeUl::URelease)
        } else if bits == 7 {
            Some(CmcePduTypeUl::USetup)
        } else if bits == 8 {
            Some(CmcePduTypeUl::UStatus)
        } else if bits == 9 {
            Some(CmcePduTypeUl::UTxCeased)
        } else if bits == 10 {
            Some(CmcePduTypeUl::UTxDemand)
        } else if bits == 14 {
            Some(CmcePduTypeUl::UCallRestore)
        } else if bits == 15 {
            Some(CmcePduTypeUl::USdsData)
        } else if bits == 16 {
            Some(CmcePduTypeUl::UFacility)
        } else if bits == 31 {
            Some(CmcePduTypeUl::CmceFunctionNotSupported)
        } else {
            None
        }
    }
}

} // verus!
