//! The registry of a multi-chain monitoring backend and the fan-out of its
//! recurring work: which chains a refresh, a round of price updates or a
//! subscription is launched on, what each is handed, and when the batch of
//! them is complete.

pub mod batch;
pub mod chains;
pub mod client;
pub mod config;
pub mod dispatch;
pub mod prices;
pub mod state;
pub mod text;
