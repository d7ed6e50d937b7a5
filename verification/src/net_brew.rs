//! Brew (TetraPack) backhaul: routing rules, voice jitter buffering and session identifiers.
pub mod brew_routable;
pub mod jitter_buffer;
pub mod session_id;
