//! BS-side Protocol Control (EN 300 392-2 clause 14.2.5): routes CMCE traffic between the
//! CC, SS and SDS sub-entities and LCMC.
use vstd::prelude::*;
use crate::cmce::pdu_type::{CmcePduTypeUl, spec_pdu_type_ul};

verus! {

#[derive(Debug, Clone, Copy, PartialEq, Eq, Structural)]
pub enum LcmcRoute {
    /// rd route: PC -> CC / CC -> PC, clause 14.2.6.
    CcRd,
    /// re route: PC -> SS / SS -> PC, clause 14.2.6.
    SsRe,
    /// rf route: PC -> SDS / SDS -> PC, clause 14.2.6.
    SdsRf,
    /// U-STATUS is an SDS PDU on rf, kept distinct for its dedicated handler.
    SdsStatus,
    Unsupported(CmcePduTypeUl),
}

#[derive(Debug, Clone, Copy, PartialEq, Eq, Structural)]
pub enum ControlRoute {
    /// ra/TNCC-side call-control input, including the local Brew/ISI bridge.
    CcRa,
    /// MM subscriber state used by CC for local routeing decisions.
    CcSubscriberUpdate,
    /// rc/TNSDS-side SDS input from the local network bridge.
    SdsRc,
    /// MM-requested SS-DGNA D-FACILITY emission, handled by the SS sub-entity.
    SsDgnaAssign,
    Unsupported,
}

/// The kind of a control-plane message delivered to CMCE.
#[derive(Debug, Clone, Copy, PartialEq, Eq, Structural)]
pub enum ControlMessageKind {
    CallControl,
    SubscriberUpdate,
    SdsData,
    SsDgnaAssign,
    Other,
}

/// The route of an uplink PDU type.
pub open spec fn spec_lcmc_route(t: CmcePduTypeUl) -> LcmcRoute {
    match t {
        CmcePduTypeUl::UFacility => LcmcRoute::SsRe,
        CmcePduTypeUl::USdsData => LcmcRoute::SdsRf,
        CmcePduTypeUl::UStatus => LcmcRoute::SdsStatus,
        CmcePduTypeUl::CmceFunctionNotSupported => LcmcRoute::Unsupported(t),
        _ => LcmcRoute::CcRd,
    }
}

pub struct PcBs;

impl PcBs {
    pub fn new() -> (r: Self) {
        PcBs
    }

    /// Route an LCMC unitdata indication by its 5-bit PDU type field (`None` when the SDU
    /// holds fewer than 5 bits). Unreadable or reserved types are not routed.
    pub fn route_lcmc_unitdata_ind(&self, pdu_type_bits: Option<u64>) -> (r: Option<LcmcRoute>)
        ensures
            r == (match pdu_type_bits {
                None => None,
                Some(bits) => match spec_pdu_type_ul(bits) {
                    None => None,
                    Some(t) => Some(spec_lcmc_route(t)),
                },
            }),
    {
        let bits = match pdu_type_bits {
            Some(b) => b,
            None => return None,
        };
        let pdu_type = match CmcePduTypeUl::from_raw(bits) {
            Some(t) => t,
            None => return None,
        };
        Some(
            match pdu_type {
                CmcePduTypeUl::UAlert
                | CmcePduTypeUl::UCallRestore
                | CmcePduTypeUl::UConnect
                | CmcePduTypeUl::UDisconnect
                | CmcePduTypeUl::UInfo
                | CmcePduTypeUl::URelease
                | CmcePduTypeUl::USetup
                | CmcePduTypeUl::UTxCeased
                | CmcePduTypeUl::UTxDemand => LcmcRoute::CcRd,
                CmcePduTypeUl::UFacility => LcmcRoute::SsRe,
                CmcePduTypeUl::USdsData => LcmcRoute::SdsRf,
                CmcePduTypeUl::UStatus => LcmcRoute::SdsStatus,
                CmcePduTypeUl::CmceFunctionNotSupported => LcmcRoute::Unsupported(pdu_type),
            },
        )
    }

    pub fn route_control(&self, kind: ControlMessageKind) -> (r: ControlRoute)
        ensures
            r == (match kind {
                ControlMessageKind::CallControl => ControlRoute::CcRa,
                ControlMessageKind::SubscriberUpdate => ControlRoute::CcSubscriberUpdate,
                ControlMessageKind::SdsData => ControlRoute::SdsRc,
                ControlMessageKind::SsDgnaAssign => ControlRoute::SsDgnaAssign,
                ControlMessageKind::Other => ControlRoute::Unsupported,
            }),
    {
        match kind {
            ControlMessageKind::CallControl => ControlRoute::CcRa,
            ControlMessageKind::SubscriberUpdate => ControlRoute::CcSubscriberUpdate,
            ControlMessageKind::SdsData => ControlRoute::SdsRc,
            ControlMessageKind::SsDgnaAssign => ControlRoute::SsDgnaAssign,
            ControlMessageKind::Other => ControlRoute::Unsupported,
        }
    }
}

} // verus!
