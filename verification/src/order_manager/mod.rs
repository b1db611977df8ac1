//! Order Manager: execution gatekeeper. Every authenticated REST call
//! receives a strictly increasing nonce, every order submission goes through
//! the pre-flight checks, and dispatched orders are tracked until they
//! complete.

pub mod in_flight;
pub mod manager;
pub mod nonce;
