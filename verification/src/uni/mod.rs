//! The foreign-language binding layer: plain records and handles exposed to
//! other languages.

pub mod client;
pub mod doc;
pub mod error;
pub mod raw_handler;
pub mod types;
pub mod validator;
