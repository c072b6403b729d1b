//! Wallets: integration with third-party cryptocurrency wallet software.
pub mod bitcoin;

pub use self::bitcoin::BitcoinCoreWallet;
