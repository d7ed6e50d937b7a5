//! Call Control (CC) sub-entity of the base-station CMCE.
pub mod call;
pub mod dtmf;
pub mod echo;
pub mod ext_number;
pub mod shared;
pub mod pdu;
pub mod subentity;
