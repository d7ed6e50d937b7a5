//! CMCE components shared by the sub-entities.
pub mod circuit_mgr;
pub mod pc_bs;
