//! Verified core of the TETRA base-station entities: call control, mobility
//! management registries, health roll-up, voice framing and Brew routing rules.
pub mod health;
pub mod mle;
pub mod mm;
pub mod net_asterisk;
pub mod net_brew;
pub mod cmce;
pub mod text;
pub mod backlight;
pub mod clock;
pub mod collections;
pub mod tdma;
