//! Keep.me: identity, wallet and request-handling logic of an asset-control
//! server, with its behaviour stated as Verus contracts.
pub mod error;
pub mod identity;
pub mod server;
pub mod utils;
pub mod wallets;

pub use error::{Error, Result};
