//! Verified core of a client library for binary-options trading platforms:
//! session identifiers, message validators, and the state machines that
//! route WebSocket traffic to pending requests.

pub mod codegen;
pub mod connector;
pub mod expertoptions;
pub mod ids;
pub mod json;
pub mod message;
pub mod numbers;
pub mod pocketoption;
pub mod text;
pub mod uni;
pub mod validator;
