//! Client-side ecash wallet: seed management, the registry of per-mint
//! wallets, and the rules of the mint-quote redemption lifecycle.

pub mod error;
pub mod text;
pub mod seed;
pub mod registry;
pub mod session;
pub mod bridge;
