//! Mobile Link Entity (MLE) components: network broadcast scheduling and network time.
pub mod broadcast;
pub mod network_time;
