//! What goes over the network: multicast settings, RTP packets, SAP
//! announcements and the PTP clients, as functions from received bytes to
//! decisions and bytes to be sent.

pub mod multicast;
pub mod ptp;
pub mod receiver;
pub mod sap;
pub mod sender;

pub use multicast::MulticastConfig;
pub use receiver::{ReceivedPacket, RtpReceiver};
pub use sap::{SapAnnouncer, SapEvent};
pub use sender::RtpSender;
