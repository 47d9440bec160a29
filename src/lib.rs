//! LoRaWAN device-address codec: NetID classes, DevAddr layout, and the dense
//! subnet index space laid over an ordered list of assigned NetIDs.

pub mod laws;
pub mod layout;
pub mod spans;
pub mod subnet;
