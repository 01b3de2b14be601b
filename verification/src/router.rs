//! The NMOS control plane: the node and its streams as resources of IS-04
//! (discovery) and IS-05 (connection management).

pub mod controller;
pub mod ids;
pub mod laws;
pub mod nmos;
pub mod receiver;
pub mod resources;

pub use receiver::ReceiverControl;
pub use resources::NmosNode;
