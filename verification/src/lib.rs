//! A custodial vault on a lamport ledger.
//!
//! A vault is an account whose address is derived from a constant tag, the
//! depositor's key and an extra seed, so that one depositor can hold several.
//! `deposit` opens a vault and funds it; `withdraw` pays all of it back and
//! closes it. Only a request that the depositor signed, and that names the
//! account derived from their key and the seed, reaches a vault.
//!
//! - `address`: addresses, and the derivation of a vault's address
//! - `error`: the reasons for which a request is refused
//! - `ledger`: wallets, vaults and the supply of lamports
//! - `vault`: the two operations and what they do, as functions on ledgers
//! - `laws`: what holds of the two operations on every ledger
//! - `table`, `total`: the map by address that the ledger is kept in, and
//!   sums over such maps

pub mod address;
pub mod error;
pub mod laws;
pub mod ledger;
pub mod table;
pub mod total;
pub mod vault;

pub use address::Address;
pub use error::VaultError;
pub use ledger::{Ledger, Vault};
pub use vault::{deposit, withdraw, Signer, VaultDeposit, VaultWithdraw};
