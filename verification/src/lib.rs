//! # Taktwerk
//!
//! The verified logic of an audio-over-IP node for AES67, ST 2110-30 and
//! RAVENNA: RTP, SDP, SAP and PTP on the wire, the de-jitter buffer, the PTP
//! master and slave decisions, RTSP and NMOS, and the rules of the daemon that
//! ties them together. Every function here works on plain values; sockets,
//! sound cards and the HTTP server stand in the program around this library.

pub mod audio;
pub mod bytes;
pub mod clock;
pub mod daemon;
pub mod discovery;
pub mod endpoint;
pub mod ipv4;
pub mod jitter;
pub mod json;
pub mod net;
pub mod order;
pub mod profile;
pub mod ptime;
pub mod ptp;
pub mod router;
pub mod rtp;
pub mod sap;
pub mod sdp;
pub mod text;
pub mod utf8;

pub use profile::{Encoding, StreamProfile, MAX_CHANNELS};
