//! The two operations on a vault: `deposit` opens and funds it, `withdraw`
//! drains and closes it.

use crate::address::{
    derivation_view, derive_vault, vault_derivation, verify_address, Address,
};
use crate::error::VaultError;
use crate::ledger::{Ledger, LedgerView};
use vstd::prelude::*;

verus! {

/// The depositor named in a request, and whether they signed it.
#[derive(Clone, Copy, Debug)]
pub struct Signer {
    /// The depositor's address.
    pub key: Address,
    /// Whether the host found the depositor's signature on the request.
    pub is_signer: bool,
}

/// The accounts of a deposit.
#[derive(Clone, Copy, Debug)]
pub struct VaultDeposit {
    /// The depositor. They pay for the vault and for what goes into it.
    pub signer: Signer,
    /// The account presented as the vault.
    pub vault: Address,
    /// The bump seed claimed for the vault's address.
    pub bump: u8,
    /// Tells the depositor's vaults apart. Any address will do: nobody has
    /// to own it.
    pub extra_seed: Address,
}

/// The accounts of a withdrawal.
#[derive(Clone, Copy, Debug)]
pub struct VaultWithdraw {
    /// The depositor. What the vault holds goes back to them.
    pub signer: Signer,
    /// The account presented as the vault.
    pub vault: Address,
    /// The bump seed claimed for the vault's address.
    pub bump: u8,
    /// The seed under which the vault was opened.
    pub extra_seed: Address,
}

impl VaultDeposit {
    /// The accounts of a deposit by `signer` under `extra_seed`, the vault
    /// and its bump seed being those that the derivation gives; `None` where
    /// it gives none.
    pub fn resolve(signer: Signer, extra_seed: Address) -> (accounts: Option<VaultDeposit>)
        ensures
            match accounts {
                Some(found) => {
                    &&& found.signer == signer
                    &&& found.extra_seed == extra_seed
                    &&& vault_derivation(signer.key@, extra_seed@) == Some(
                        (found.vault@, found.bump),
                    )
                },
                None => vault_derivation(signer.key@, extra_seed@) is None,
            },
    {
        match derive_vault(&signer.key, &extra_seed) {
            Some((vault, bump)) => Some(VaultDeposit { signer, vault, bump, extra_seed }),
            None => None,
        }
    }
}

impl VaultWithdraw {
    /// The accounts of a withdrawal by `signer` under `extra_seed`, the vault
    /// and its bump seed being those that the derivation gives; `None` where
    /// it gives none.
    pub fn resolve(signer: Signer, extra_seed: Address) -> (accounts: Option<VaultWithdraw>)
        ensures
            match accounts {
                Some(found) => {
                    &&& found.signer == signer
                    &&& found.extra_seed == extra_seed
                    &&& vault_derivation(signer.key@, extra_seed@) == Some(
                        (found.vault@, found.bump),
                    )
                },
                None => vault_derivation(signer.key@, extra_seed@) is None,
            },
    {
        match derive_vault(&signer.key, &extra_seed) {
            Some((vault, bump)) => Some(VaultWithdraw { signer, vault, bump, extra_seed }),
            None => None,
        }
    }
}

/// What a deposit does, `derived` being the derivation from the depositor and
/// the extra seed: the ledger after it and its result. A deposit that is
/// refused leaves the ledger as it was; where several reasons for refusing
/// hold, the first in this order is given.
pub open spec fn deposit_step(
    pre: LedgerView,
    accounts: VaultDeposit,
    amount: u64,
    derived: Option<(Seq<u8>, u8)>,
) -> (LedgerView, Result<(), VaultError>) {
    if !accounts.signer.is_signer {
        (pre, Err(VaultError::Unauthorized))
    } else if amount <= pre.rent_floor {
        (pre, Err(VaultError::InvalidAmount))
    } else if derived != Some((accounts.vault@, accounts.bump)) {
        (pre, Err(VaultError::AddressMismatch))
    } else if pre.vaults.contains_key(accounts.vault@) {
        (pre, Err(VaultError::AccountAlreadyExists))
    } else if pre.balance_of(accounts.signer.key@) < amount + pre.creation_cost {
        (pre, Err(VaultError::InsufficientFunds))
    } else {
        (pre.open_vault(accounts.signer.key@, accounts.vault@, amount), Ok(()))
    }
}

/// What a withdrawal does, `derived` being the derivation from the depositor
/// and the extra seed: the ledger after it and its result. A withdrawal that
/// is refused leaves the ledger as it was; where several reasons for refusing
/// hold, the first in this order is given.
pub open spec fn withdraw_step(
    pre: LedgerView,
    accounts: VaultWithdraw,
    derived: Option<(Seq<u8>, u8)>,
) -> (LedgerView, Result<(), VaultError>) {
    if !accounts.signer.is_signer {
        (pre, Err(VaultError::Unauthorized))
    } else if derived != Some((accounts.vault@, accounts.bump)) {
        (pre, Err(VaultError::AddressMismatch))
    } else if !pre.vaults.contains_key(accounts.vault@) {
        (pre, Err(VaultError::InvalidAmount))
    } else if pre.vaults[accounts.vault@].balance == 0 {
        (pre, Err(VaultError::InvalidAmount))
    } else {
        (pre.close_vault(accounts.vault@, accounts.signer.key@), Ok(()))
    }
}

/// A deposit must exceed the rent floor.
pub fn check_deposit_amount(amount: u64, rent_floor: u64) -> (r: Result<(), VaultError>)
    ensures
        r == (if amount > rent_floor {
            Ok::<(), VaultError>(())
        } else {
            Err(VaultError::InvalidAmount)
        }),
{
    if amount > rent_floor {
        Ok(())
    } else {
        Err(VaultError::InvalidAmount)
    }
}

/// There is nothing to withdraw from a vault that holds nothing.
pub fn check_withdraw_balance(lamports: u64) -> (r: Result<(), VaultError>)
    ensures
        r == (if lamports != 0 {
            Ok::<(), VaultError>(())
        } else {
            Err(VaultError::InvalidAmount)
        }),
{
    if lamports != 0 {
        Ok(())
    } else {
        Err(VaultError::InvalidAmount)
    }
}

/// Opens the vault of the depositor under the extra seed and puts `amount`
/// into it, or refuses and leaves the ledger as it was.
pub fn deposit(ledger: &mut Ledger, accounts: &VaultDeposit, amount: u64) -> (r: Result<
    (),
    VaultError,
>)
    requires
        old(ledger).wf(),
    ensures
        final(ledger).wf(),
        final(ledger)@.supply() == old(ledger)@.supply(),
        (final(ledger)@, r) == deposit_step(
            old(ledger)@,
            *accounts,
            amount,
            vault_derivation(accounts.signer.key@, accounts.extra_seed@),
        ),
{
    let derived = derive_vault(&accounts.signer.key, &accounts.extra_seed);
    settle_deposit(ledger, accounts, amount, derived)
}

/// Does what `deposit` does, with the derivation handed in: `derived` is to be
/// what `derive_vault` gives for the request's depositor and extra seed.
pub fn settle_deposit(
    ledger: &mut Ledger,
    accounts: &VaultDeposit,
    amount: u64,
    derived: Option<(Address, u8)>,
) -> (r: Result<(), VaultError>)
    requires
        old(ledger).wf(),
    ensures
        final(ledger).wf(),
        final(ledger)@.supply() == old(ledger)@.supply(),
        (final(ledger)@, r) == deposit_step(
            old(ledger)@,
            *accounts,
            amount,
            derivation_view(derived),
        ),
{
    if !accounts.signer.is_signer {
        return Err(VaultError::Unauthorized);
    }
    check_deposit_amount(amount, ledger.rent_floor())?;
    verify_address(derived, &accounts.vault, accounts.bump)?;
    if ledger.vault(&accounts.vault).is_some() {
        return Err(VaultError::AccountAlreadyExists);
    }
    let held = ledger.balance(&accounts.signer.key);
    if held < amount || held - amount < ledger.creation_cost() {
        return Err(VaultError::InsufficientFunds);
    }
    ledger.open_vault(&accounts.signer.key, &accounts.vault, amount);
    Ok(())
}

/// Pays all that the depositor's vault holds back to them and closes it, or
/// refuses and leaves the ledger as it was.
pub fn withdraw(ledger: &mut Ledger, accounts: &VaultWithdraw) -> (r: Result<(), VaultError>)
    requires
        old(ledger).wf(),
    ensures
        final(ledger).wf(),
        final(ledger)@.supply() == old(ledger)@.supply(),
        (final(ledger)@, r) == withdraw_step(
            old(ledger)@,
            *accounts,
            vault_derivation(accounts.signer.key@, accounts.extra_seed@),
        ),
{
    let derived = derive_vault(&accounts.signer.key, &accounts.extra_seed);
    settle_withdraw(ledger, accounts, derived)
}

/// Does what `withdraw` does, with the derivation handed in: `derived` is to
/// be what `derive_vault` gives for the request's depositor and extra seed.
pub fn settle_withdraw(
    ledger: &mut Ledger,
    accounts: &VaultWithdraw,
    derived: Option<(Address, u8)>,
) -> (r: Result<(), VaultError>)
    requires
        old(ledger).wf(),
    ensures
        final(ledger).wf(),
        final(ledger)@.supply() == old(ledger)@.supply(),
        (final(ledger)@, r) == withdraw_step(old(ledger)@, *accounts, derivation_view(derived)),
{
    if !accounts.signer.is_signer {
        return Err(VaultError::Unauthorized);
    }
    verify_address(derived, &accounts.vault, accounts.bump)?;
    match ledger.vault(&accounts.vault) {
        Some(vault) => {
            check_withdraw_balance(vault.balance)?;
            ledger.close_vault(&accounts.vault, &accounts.signer.key);
            Ok(())
        },
        None => Err(VaultError::InvalidAmount),
    }
}

} // verus!
