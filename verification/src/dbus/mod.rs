//! What the D-Bus side of the daemon decides: which requests it accepts,
//! which bus names are media players, which inhibitions hold.
pub mod client;
pub mod server;
