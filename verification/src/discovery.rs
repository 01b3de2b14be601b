//! RAVENNA discovery: names of sessions in DNS-SD, and RTSP to fetch and serve
//! their descriptions.

pub mod mdns;
pub mod rtsp;

pub use mdns::{RavennaSession, RAVENNA_SERVICE, RAVENNA_SUBTYPE};
