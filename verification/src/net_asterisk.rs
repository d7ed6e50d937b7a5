//! Asterisk SIP/RTP bridge: RTP framing, TETRA TMD block packing and G.711 mu-law.
pub mod audio;
