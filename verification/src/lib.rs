//! The decisions of a relay that connects Minecraft players to hosts behind QUIC connections:
//! which players and ticket requests get through, what everybody is told, and how the control
//! channel of a host is served.

pub mod blocklist;
pub mod certs;
pub mod control;
pub mod disconnect;
pub mod minecraft;
pub mod netty;
pub mod proto;
pub mod telemetry;
pub mod text;
pub mod web;
