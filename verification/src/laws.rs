//! What holds of every deposit and every withdrawal, on every ledger.
//!
//! Each law speaks of `deposit_step` and `withdraw_step`, the functions in
//! which `deposit` and `withdraw` state what they do. `derived` stands for the
//! derivation from the depositor and the extra seed, which is the same for
//! every request of one depositor under one seed.

use crate::error::VaultError;
use crate::ledger::{LedgerView, Vault};
use crate::vault::{deposit_step, withdraw_step, VaultDeposit, VaultWithdraw};
use vstd::prelude::*;

verus! {

/// The withdrawal names the depositor, the seed and the vault of the deposit.
pub open spec fn same_vault(deposit: VaultDeposit, withdrawal: VaultWithdraw) -> bool {
    &&& withdrawal.signer == deposit.signer
    &&& withdrawal.vault == deposit.vault
    &&& withdrawal.bump == deposit.bump
    &&& withdrawal.extra_seed == deposit.extra_seed
}

/// A deposit of more than the rent floor, followed at once by the withdrawal
/// by the same depositor under the same seed, leaves the ledger as it was
/// before the deposit: the depositor holds what they held, and no vault is
/// left behind.
pub proof fn law_deposit_then_withdraw_restores(
    pre: LedgerView,
    deposit: VaultDeposit,
    amount: u64,
    mid: LedgerView,
    withdrawal: VaultWithdraw,
    derived: Option<(Seq<u8>, u8)>,
)
    requires
        amount > pre.rent_floor,
        deposit_step(pre, deposit, amount, derived) == (mid, Ok::<(), VaultError>(())),
        same_vault(deposit, withdrawal),
    ensures
        withdraw_step(mid, withdrawal, derived) == (pre, Ok::<(), VaultError>(())),
        !pre.vaults.contains_key(deposit.vault@),
{
    let post = withdraw_step(mid, withdrawal, derived).0;
    assert(post.wallets =~= pre.wallets);
    assert(post.vaults =~= pre.vaults);
}

/// A request that the depositor has not signed is refused as unauthorized,
/// whatever else it holds, and nothing moves.
pub proof fn law_unsigned_request_is_refused(
    pre: LedgerView,
    deposit: VaultDeposit,
    amount: u64,
    withdrawal: VaultWithdraw,
    derived: Option<(Seq<u8>, u8)>,
)
    ensures
        !deposit.signer.is_signer ==> deposit_step(pre, deposit, amount, derived) == (
            pre,
            Err::<(), VaultError>(VaultError::Unauthorized),
        ),
        !withdrawal.signer.is_signer ==> withdraw_step(pre, withdrawal, derived) == (
            pre,
            Err::<(), VaultError>(VaultError::Unauthorized),
        ),
{
}

/// A signed deposit of the rent floor or less is refused as an invalid
/// amount, and no account is created: the ledger stays as it was.
pub proof fn law_small_deposit_is_refused(
    pre: LedgerView,
    accounts: VaultDeposit,
    amount: u64,
    derived: Option<(Seq<u8>, u8)>,
)
    requires
        accounts.signer.is_signer,
        amount <= pre.rent_floor,
    ensures
        deposit_step(pre, accounts, amount, derived) == (
            pre,
            Err::<(), VaultError>(VaultError::InvalidAmount),
        ),
{
}

/// A signed deposit of more than the rent floor that presents another
/// account than the derived one, or claims another bump seed, is refused as
/// an address mismatch, and no account is created.
pub proof fn law_mismatched_deposit_is_refused(
    pre: LedgerView,
    accounts: VaultDeposit,
    amount: u64,
    derived: Option<(Seq<u8>, u8)>,
)
    requires
        accounts.signer.is_signer,
        amount > pre.rent_floor,
        derived != Some((accounts.vault@, accounts.bump)),
    ensures
        deposit_step(pre, accounts, amount, derived) == (
            pre,
            Err::<(), VaultError>(VaultError::AddressMismatch),
        ),
{
}

/// A signed deposit of more than the rent floor into a vault that is not yet
/// open is refused for want of funds where the depositor holds less than the
/// amount and the creation cost together, and no account is created.
pub proof fn law_unfunded_deposit_is_refused(
    pre: LedgerView,
    accounts: VaultDeposit,
    amount: u64,
    derived: Option<(Seq<u8>, u8)>,
)
    requires
        accounts.signer.is_signer,
        amount > pre.rent_floor,
        derived == Some((accounts.vault@, accounts.bump)),
        !pre.vaults.contains_key(accounts.vault@),
        pre.balance_of(accounts.signer.key@) < amount + pre.creation_cost,
    ensures
        deposit_step(pre, accounts, amount, derived) == (
            pre,
            Err::<(), VaultError>(VaultError::InsufficientFunds),
        ),
{
}

/// After a deposit, a second deposit of more than the rent floor by the same
/// depositor under the same seed is refused because the account exists, and
/// the vault holds what the first deposit put into it.
pub proof fn law_second_deposit_is_refused(
    pre: LedgerView,
    first: VaultDeposit,
    amount: u64,
    mid: LedgerView,
    second: VaultDeposit,
    again: u64,
    derived: Option<(Seq<u8>, u8)>,
)
    requires
        deposit_step(pre, first, amount, derived) == (mid, Ok::<(), VaultError>(())),
        second == first,
        again > mid.rent_floor,
    ensures
        deposit_step(mid, second, again, derived) == (
            mid,
            Err::<(), VaultError>(VaultError::AccountAlreadyExists),
        ),
        mid.vaults[first.vault@].balance == amount,
{
}

/// A signed withdrawal under a seed for which the depositor has no vault is
/// refused as an invalid amount, and every vault on the ledger stays as it
/// was.
pub proof fn law_withdraw_without_vault_is_refused(
    pre: LedgerView,
    accounts: VaultWithdraw,
    derived: Option<(Seq<u8>, u8)>,
)
    requires
        accounts.signer.is_signer,
        derived == Some((accounts.vault@, accounts.bump)),
        !pre.vaults.contains_key(accounts.vault@),
    ensures
        withdraw_step(pre, accounts, derived) == (
            pre,
            Err::<(), VaultError>(VaultError::InvalidAmount),
        ),
{
}

/// After a withdrawal, a second withdrawal by the same depositor under the
/// same seed is refused as an invalid amount: the vault is gone.
pub proof fn law_second_withdraw_is_refused(
    pre: LedgerView,
    first: VaultWithdraw,
    mid: LedgerView,
    second: VaultWithdraw,
    derived: Option<(Seq<u8>, u8)>,
)
    requires
        withdraw_step(pre, first, derived) == (mid, Ok::<(), VaultError>(())),
        second == first,
    ensures
        withdraw_step(mid, second, derived) == (
            mid,
            Err::<(), VaultError>(VaultError::InvalidAmount),
        ),
{
}

/// A signed withdrawal that presents another account than the derived one, or
/// claims another bump seed, is refused as an address mismatch, and nothing
/// moves.
pub proof fn law_mismatched_withdraw_is_refused(
    pre: LedgerView,
    accounts: VaultWithdraw,
    derived: Option<(Seq<u8>, u8)>,
)
    requires
        accounts.signer.is_signer,
        derived != Some((accounts.vault@, accounts.bump)),
    ensures
        withdraw_step(pre, accounts, derived) == (
            pre,
            Err::<(), VaultError>(VaultError::AddressMismatch),
        ),
{
}

/// After a withdrawal, a deposit by the same depositor under the same seed
/// that they can pay for opens the vault anew, with the new amount as its
/// balance.
pub proof fn law_vault_reopens_after_withdraw(
    pre: LedgerView,
    withdrawal: VaultWithdraw,
    mid: LedgerView,
    deposit: VaultDeposit,
    amount: u64,
    derived: Option<(Seq<u8>, u8)>,
)
    requires
        withdraw_step(pre, withdrawal, derived) == (mid, Ok::<(), VaultError>(())),
        same_vault(deposit, withdrawal),
        amount > mid.rent_floor,
        mid.balance_of(deposit.signer.key@) >= amount + mid.creation_cost,
    ensures
        deposit_step(mid, deposit, amount, derived).1 is Ok,
        deposit_step(mid, deposit, amount, derived).0.vaults.contains_key(deposit.vault@),
        deposit_step(mid, deposit, amount, derived).0.vaults[deposit.vault@] == (Vault {
            balance: amount,
            rent_deposit: mid.creation_cost,
        }),
{
}

/// A deposit that is accepted was signed by the depositor and names the
/// account derived from their key and the seed. It opens that vault with the
/// amount as its balance, charges the depositor the amount and the creation
/// cost, and leaves every other vault and wallet as it was.
pub proof fn law_deposit_opens_one_vault(
    pre: LedgerView,
    accounts: VaultDeposit,
    amount: u64,
    post: LedgerView,
    derived: Option<(Seq<u8>, u8)>,
    other: Seq<u8>,
)
    requires
        deposit_step(pre, accounts, amount, derived) == (post, Ok::<(), VaultError>(())),
    ensures
        accounts.signer.is_signer,
        derived == Some((accounts.vault@, accounts.bump)),
        !pre.vaults.contains_key(accounts.vault@),
        post.vaults.contains_key(accounts.vault@),
        post.vaults[accounts.vault@].balance == amount,
        post.balance_of(accounts.signer.key@) + amount + pre.creation_cost == pre.balance_of(
            accounts.signer.key@,
        ),
        other != accounts.vault@ ==> post.vaults.contains_key(other) == pre.vaults.contains_key(
            other,
        ) && post.vaults[other] == pre.vaults[other],
        other != accounts.signer.key@ ==> post.balance_of(other) == pre.balance_of(other),
{
}

/// A withdrawal that is accepted was signed by the depositor and names the
/// account derived from their key and the seed. It closes that vault, pays
/// the depositor all that it held, and leaves every other vault and wallet
/// as it was.
pub proof fn law_withdraw_closes_one_vault(
    pre: LedgerView,
    accounts: VaultWithdraw,
    post: LedgerView,
    derived: Option<(Seq<u8>, u8)>,
    other: Seq<u8>,
)
    requires
        withdraw_step(pre, accounts, derived) == (post, Ok::<(), VaultError>(())),
    ensures
        accounts.signer.is_signer,
        derived == Some((accounts.vault@, accounts.bump)),
        pre.vaults.contains_key(accounts.vault@),
        !post.vaults.contains_key(accounts.vault@),
        post.balance_of(accounts.signer.key@) == pre.balance_of(accounts.signer.key@)
            + pre.vaults[accounts.vault@].balance + pre.vaults[accounts.vault@].rent_deposit,
        other != accounts.vault@ ==> post.vaults.contains_key(other) == pre.vaults.contains_key(
            other,
        ) && post.vaults[other] == pre.vaults[other],
        other != accounts.signer.key@ ==> post.balance_of(other) == pre.balance_of(other),
{
}

/// A request that is refused changes nothing.
pub proof fn law_refusal_changes_nothing(
    pre: LedgerView,
    deposit: VaultDeposit,
    amount: u64,
    withdrawal: VaultWithdraw,
    derived: Option<(Seq<u8>, u8)>,
)
    ensures
        deposit_step(pre, deposit, amount, derived).1 is Err ==> deposit_step(
            pre,
            deposit,
            amount,
            derived,
        ).0 == pre,
        withdraw_step(pre, withdrawal, derived).1 is Err ==> withdraw_step(
            pre,
            withdrawal,
            derived,
        ).0 == pre,
{
}

/// Neither operation makes or loses lamports, and after either the ledger is
/// as sound as before: every vault on it still holds at least the rent floor.
pub proof fn law_steps_keep_the_ledger_sound(
    pre: LedgerView,
    deposit: VaultDeposit,
    amount: u64,
    withdrawal: VaultWithdraw,
    derived: Option<(Seq<u8>, u8)>,
)
    requires
        pre.sound(),
    ensures
        deposit_step(pre, deposit, amount, derived).0.sound(),
        deposit_step(pre, deposit, amount, derived).0.supply() == pre.supply(),
        withdraw_step(pre, withdrawal, derived).0.sound(),
        withdraw_step(pre, withdrawal, derived).0.supply() == pre.supply(),
{
    if deposit_step(pre, deposit, amount, derived).1 is Ok {
        pre.lemma_open_vault_keeps_supply(deposit.signer.key@, deposit.vault@, amount);
    }
    if withdraw_step(pre, withdrawal, derived).1 is Ok {
        pre.lemma_close_vault_keeps_supply(withdrawal.vault@, withdrawal.signer.key@);
    }
}

} // verus!
