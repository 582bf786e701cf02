//! The ledger: the wallets of the depositors, the vaults that are open, and
//! the two figures that the host sets for rent.

use crate::address::Address;
use crate::table::Table;
use crate::total::{lemma_total_empty, lemma_total_insert, lemma_total_remove, total};
use vstd::prelude::*;

verus! {

/// An open vault as the ledger records it.
#[derive(Clone, Copy, Debug, PartialEq, Eq, Structural)]
pub struct Vault {
    /// What the depositor put in.
    pub balance: u64,
    /// What the depositor paid to open the account. It comes back when the
    /// vault is closed.
    pub rent_deposit: u64,
}

impl Vault {
    /// All the lamports that the vault's account holds.
    pub open spec fn lamports(self) -> nat {
        (self.balance + self.rent_deposit) as nat
    }
}

/// The weight of a wallet in the supply: its balance.
pub open spec fn wallet_weight() -> spec_fn(nat) -> nat {
    |lamports: nat| lamports
}

/// The weight of a vault in the supply: its balance and its rent deposit.
pub open spec fn vault_weight() -> spec_fn(Vault) -> nat {
    |vault: Vault| vault.lamports()
}

/// The ledger as a mathematical value.
pub struct LedgerView {
    /// The least balance that keeps an account without payload free of rent.
    pub rent_floor: u64,
    /// What opening a vault costs the depositor, over and above the deposit.
    pub creation_cost: u64,
    /// The balance of every wallet, by the owner's address.
    pub wallets: Map<Seq<u8>, nat>,
    /// The open vaults, by address.
    pub vaults: Map<Seq<u8>, Vault>,
}

impl LedgerView {
    /// The ledger holds finitely many wallets and vaults.
    pub open spec fn finite(self) -> bool {
        self.wallets.dom().finite() && self.vaults.dom().finite()
    }

    /// What `owner` holds; nothing where `owner` has no wallet.
    pub open spec fn balance_of(self, owner: Seq<u8>) -> nat {
        if self.wallets.contains_key(owner) {
            self.wallets[owner]
        } else {
            0
        }
    }

    /// Every open vault holds at least the rent floor.
    pub open spec fn rent_exempt(self) -> bool {
        forall|address: Seq<u8>| #[trigger]
            self.vaults.contains_key(address) ==> self.vaults[address].balance >= self.rent_floor
    }

    /// All the lamports on the ledger, in wallets and in vaults.
    pub open spec fn supply(self) -> nat {
        total(self.wallets, wallet_weight()) + total(self.vaults, vault_weight())
    }

    /// The ledger is sound: it is finite, its supply fits a `u64`, and every
    /// vault on it is exempt from rent.
    pub open spec fn sound(self) -> bool {
        &&& self.finite()
        &&& self.supply() <= u64::MAX
        &&& self.rent_exempt()
    }

    /// The ledger after `payer` has opened a vault at `address` and put
    /// `amount` into it: `payer` is charged the amount and the creation cost,
    /// and the vault holds both.
    pub open spec fn open_vault(self, payer: Seq<u8>, address: Seq<u8>, amount: u64) -> LedgerView {
        LedgerView {
            wallets: self.wallets.insert(
                payer,
                (self.balance_of(payer) - amount - self.creation_cost) as nat,
            ),
            vaults: self.vaults.insert(
                address,
                Vault { balance: amount, rent_deposit: self.creation_cost },
            ),
            ..self
        }
    }

    /// The ledger after the vault at `address` has been closed and all that
    /// it held, the rent deposit too, has gone to `receiver`.
    pub open spec fn close_vault(self, address: Seq<u8>, receiver: Seq<u8>) -> LedgerView {
        LedgerView {
            wallets: self.wallets.insert(
                receiver,
                self.balance_of(receiver) + self.vaults[address].lamports(),
            ),
            vaults: self.vaults.remove(address),
            ..self
        }
    }

    /// The ledger after `lamports` new lamports have been put into the
    /// wallet of `owner`.
    pub open spec fn mint(self, owner: Seq<u8>, lamports: u64) -> LedgerView {
        LedgerView {
            wallets: self.wallets.insert(owner, (self.balance_of(owner) + lamports) as nat),
            ..self
        }
    }

    /// No wallet and no vault holds more than the whole supply.
    pub proof fn lemma_supply_bounds(self, owner: Seq<u8>, address: Seq<u8>)
        requires
            self.finite(),
        ensures
            self.balance_of(owner) <= total(self.wallets, wallet_weight()),
            self.vaults.contains_key(address) ==> self.vaults[address].lamports() <= total(
                self.vaults,
                vault_weight(),
            ),
    {
        if self.wallets.contains_key(owner) {
            lemma_total_remove(self.wallets, wallet_weight(), owner);
        }
        if self.vaults.contains_key(address) {
            lemma_total_remove(self.vaults, vault_weight(), address);
        }
    }

    /// Opening a vault moves lamports from the payer to the vault and makes
    /// none.
    pub proof fn lemma_open_vault_keeps_supply(
        self,
        payer: Seq<u8>,
        address: Seq<u8>,
        amount: u64,
    )
        requires
            self.finite(),
            !self.vaults.contains_key(address),
            self.balance_of(payer) >= amount + self.creation_cost,
        ensures
            self.open_vault(payer, address, amount).finite(),
            self.open_vault(payer, address, amount).supply() == self.supply(),
    {
        let paid = (self.balance_of(payer) - amount - self.creation_cost) as nat;
        let vault = Vault { balance: amount, rent_deposit: self.creation_cost };
        lemma_total_insert(self.wallets, wallet_weight(), payer, paid);
        if self.wallets.contains_key(payer) {
            lemma_total_remove(self.wallets, wallet_weight(), payer);
        } else {
            assert(self.wallets.remove(payer) =~= self.wallets);
        }
        lemma_total_insert(self.vaults, vault_weight(), address, vault);
        assert(self.vaults.remove(address) =~= self.vaults);
    }

    /// Closing a vault moves its lamports to the receiver and loses none.
    pub proof fn lemma_close_vault_keeps_supply(self, address: Seq<u8>, receiver: Seq<u8>)
        requires
            self.finite(),
            self.vaults.contains_key(address),
        ensures
            self.close_vault(address, receiver).finite(),
            self.close_vault(address, receiver).supply() == self.supply(),
    {
        let refunded = self.balance_of(receiver) + self.vaults[address].lamports();
        lemma_total_insert(self.wallets, wallet_weight(), receiver, refunded);
        if self.wallets.contains_key(receiver) {
            lemma_total_remove(self.wallets, wallet_weight(), receiver);
        } else {
            assert(self.wallets.remove(receiver) =~= self.wallets);
        }
        lemma_total_remove(self.vaults, vault_weight(), address);
    }

    /// Minting adds to the supply what it puts into the wallet.
    pub proof fn lemma_mint_adds_supply(self, owner: Seq<u8>, lamports: u64)
        requires
            self.finite(),
        ensures
            self.mint(owner, lamports).finite(),
            self.mint(owner, lamports).supply() == self.supply() + lamports,
    {
        let held = (self.balance_of(owner) + lamports) as nat;
        lemma_total_insert(self.wallets, wallet_weight(), owner, held);
        if self.wallets.contains_key(owner) {
            lemma_total_remove(self.wallets, wallet_weight(), owner);
        } else {
            assert(self.wallets.remove(owner) =~= self.wallets);
        }
    }
}

/// A balance as the view counts it.
spec fn widen() -> spec_fn(u64) -> nat {
    |lamports: u64| lamports as nat
}

/// A ledger of wallets and vaults. Its supply never exceeds `u64::MAX`, so no
/// balance on it can overflow.
pub struct Ledger {
    rent_floor: u64,
    creation_cost: u64,
    supply: u64,
    wallets: Table<u64>,
    vaults: Table<Vault>,
}

impl Ledger {
    /// What the ledger holds.
    pub closed spec fn view(&self) -> LedgerView {
        LedgerView {
            rent_floor: self.rent_floor,
            creation_cost: self.creation_cost,
            wallets: self.wallets@.map_values(widen()),
            vaults: self.vaults@,
        }
    }

    /// The representation is in order: no table holds an address twice, and
    /// the supply on record is the supply.
    pub closed spec fn inv(&self) -> bool {
        &&& self.wallets.wf()
        &&& self.vaults.wf()
        &&& self.supply as nat == self@.supply()
    }

    /// The ledger is well formed: its representation is in order and what it
    /// holds is sound.
    pub open spec fn wf(&self) -> bool {
        self.inv() && self@.sound()
    }

    /// An empty ledger with the host's two figures for rent.
    pub fn new(rent_floor: u64, creation_cost: u64) -> (ledger: Ledger)
        ensures
            ledger.wf(),
            ledger@ == (LedgerView {
                rent_floor,
                creation_cost,
                wallets: Map::empty(),
                vaults: Map::empty(),
            }),
            ledger@.supply() == 0,
    {
        let ledger = Ledger {
            rent_floor,
            creation_cost,
            supply: 0,
            wallets: Table::new(),
            vaults: Table::new(),
        };
        proof {
            assert(ledger@.wallets =~= Map::empty());
            lemma_total_empty::<Seq<u8>, nat>(wallet_weight());
            lemma_total_empty::<Seq<u8>, Vault>(vault_weight());
        }
        ledger
    }

    /// The least balance that keeps an account without payload free of rent.
    pub fn rent_floor(&self) -> (floor: u64)
        ensures
            floor == self@.rent_floor,
    {
        self.rent_floor
    }

    /// What opening a vault costs the depositor.
    pub fn creation_cost(&self) -> (cost: u64)
        ensures
            cost == self@.creation_cost,
    {
        self.creation_cost
    }

    /// All the lamports on the ledger.
    pub fn supply(&self) -> (supply: u64)
        requires
            self.wf(),
        ensures
            supply == self@.supply(),
    {
        self.supply
    }

    /// What `owner` holds in their wallet.
    pub fn balance(&self, owner: &Address) -> (lamports: u64)
        requires
            self.wf(),
        ensures
            lamports == self@.balance_of(owner@),
    {
        match self.wallets.get(owner) {
            Some(lamports) => lamports,
            None => 0,
        }
    }

    /// The vault at `address`, if one is open there.
    pub fn vault(&self, address: &Address) -> (vault: Option<Vault>)
        requires
            self.wf(),
        ensures
            vault == (if self@.vaults.contains_key(address@) {
                Some(self@.vaults[address@])
            } else {
                None
            }),
    {
        self.vaults.get(address)
    }

    /// Puts `lamports` new lamports into the wallet of `owner`, unless the
    /// supply would then exceed `u64::MAX`.
    pub fn airdrop(&mut self, owner: &Address, lamports: u64) -> (done: bool)
        requires
            old(self).wf(),
        ensures
            final(self).wf(),
            done == (old(self)@.supply() + lamports <= u64::MAX),
            final(self)@ == (if done {
                old(self)@.mint(owner@, lamports)
            } else {
                old(self)@
            }),
            final(self)@.supply() == old(self)@.supply() + (if done {
                lamports
            } else {
                0
            }),
    {
        if lamports > u64::MAX - self.supply {
            return false;
        }
        proof {
            self@.lemma_supply_bounds(owner@, owner@);
            self@.lemma_mint_adds_supply(owner@, lamports);
        }
        let held = self.balance(owner);
        self.wallets.insert(*owner, held + lamports);
        self.supply = self.supply + lamports;
        proof {
            assert(self@.wallets =~= old(self)@.mint(owner@, lamports).wallets);
        }
        true
    }

    /// Opens a vault at `address` for `payer` and funds it with `amount`.
    pub(crate) fn open_vault(&mut self, payer: &Address, address: &Address, amount: u64)
        requires
            old(self).wf(),
            !old(self)@.vaults.contains_key(address@),
            old(self)@.balance_of(payer@) >= amount + old(self)@.creation_cost,
            amount >= old(self)@.rent_floor,
        ensures
            final(self).wf(),
            final(self)@ == old(self)@.open_vault(payer@, address@, amount),
            final(self)@.supply() == old(self)@.supply(),
    {
        proof {
            self@.lemma_open_vault_keeps_supply(payer@, address@, amount);
        }
        let held = self.balance(payer);
        self.wallets.insert(*payer, held - amount - self.creation_cost);
        self.vaults.insert(*address, Vault { balance: amount, rent_deposit: self.creation_cost });
        proof {
            assert(self@.wallets =~= old(self)@.open_vault(payer@, address@, amount).wallets);
        }
    }

    /// Closes the vault at `address` and pays all that it held to `receiver`.
    pub(crate) fn close_vault(&mut self, address: &Address, receiver: &Address)
        requires
            old(self).wf(),
            old(self)@.vaults.contains_key(address@),
        ensures
            final(self).wf(),
            final(self)@ == old(self)@.close_vault(address@, receiver@),
            final(self)@.supply() == old(self)@.supply(),
    {
        proof {
            self@.lemma_supply_bounds(receiver@, address@);
            self@.lemma_close_vault_keeps_supply(address@, receiver@);
        }
        let held = self.balance(receiver);
        let vault = self.vaults.remove(address).unwrap();
        self.wallets.insert(*receiver, held + (vault.balance + vault.rent_deposit));
        proof {
            assert(self@.wallets =~= old(self)@.close_vault(address@, receiver@).wallets);
        }
    }
}

} // verus!
