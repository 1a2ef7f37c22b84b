//! A simulated NFC controller: NCI framing, the controller engine, the RF
//! switching fabric and the host-side command flow.

pub mod codec;
pub mod command;
pub mod controller;
pub mod flow;
pub mod host;
pub mod message;
pub mod nci;
pub mod rf;
pub mod scene;
