//! Verified core of the pilot data relay: payload normalisation, iMotions
//! packet framing, saved-address bookkeeping, metrics and the GUI state.
pub mod addrs;
pub mod baton;
pub mod channel;
pub mod ipc_link;
pub mod chart;
pub mod logger;
pub mod meet;
pub mod message;
pub mod metrics;
pub mod payload;
pub mod relay;
pub mod server;
pub mod text;
pub mod view;
pub mod xml;
