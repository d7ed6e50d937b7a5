//! Circuit Mode Control Entity (CMCE), base-station side.
pub mod cc_bs;
pub mod cmce_bs;
pub mod components;
pub mod pdu_type;
pub mod ss_bs;
pub mod type3;
