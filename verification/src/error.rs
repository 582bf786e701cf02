//! The reasons for which an operation on a vault is refused.

use vstd::prelude::*;

verus! {

/// Why a deposit or a withdrawal was refused. Every refusal is final: the
/// ledger is left as it was and the caller has to send a corrected request.
#[derive(Clone, Copy, Debug, PartialEq, Eq, Structural)]
pub enum VaultError {
    /// A deposit at or below the rent-exemption floor, or a withdrawal from a
    /// vault that is absent or holds nothing.
    InvalidAmount,
    /// A deposit for a depositor and seed whose vault is already open.
    AccountAlreadyExists,
    /// The account presented is not the one derived from the depositor and
    /// the seed named in the request.
    AddressMismatch,
    /// The depositor cannot pay the amount and the cost of opening the vault.
    InsufficientFunds,
    /// The depositor has not signed the request.
    Unauthorized,
}

} // verus!
