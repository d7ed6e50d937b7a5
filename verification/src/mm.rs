//! Mobility Management (MM), base-station side.
pub mod client_state;
pub mod energy_saving;
pub mod mm_bs;
pub mod pdu_type;
pub mod recovery_cache;
