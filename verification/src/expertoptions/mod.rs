//! The ExpertOption platform: its asset list and its connection plan.

pub mod connect;
pub mod types;
