//! Game rules shared by the pet-pvp client and server: the high-level
//! application state machine, the network message vocabulary, the server's
//! lobby bookkeeping and the client's input buffering and reconciliation
//! decisions.

pub mod app_state;
pub mod protocol;
pub mod server;
pub mod client;
