//! Authentication sessions: paired access and refresh credentials, their
//! records in a key-value store, rotation on refresh, and the request gate.

pub mod error;
pub mod keys;
pub mod codec;
pub mod claims;
pub mod signer;
pub mod password;
pub mod fresh;
pub mod tokens;
pub mod lifecycle;
pub mod gate;
pub mod store;
pub mod account;
