//! The PocketOption platform: session identifiers, trading types and the
//! message handling of its API modules.

pub mod connect;
pub mod deal_book;
pub mod deals;
pub mod frame;
pub mod pending_trades;
pub mod ssid;
