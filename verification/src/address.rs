//! Account addresses and the derivation of a vault's address.

use crate::error::VaultError;
use anchor_lang::prelude::Pubkey;
use vstd::prelude::*;
use vstd::slice::slice_to_vec;

verus! {

/// A ledger address: the 32 bytes of a public key.
#[derive(Clone, Copy, Debug)]
pub struct Address {
    pub bytes: [u8; 32],
}

impl View for Address {
    type V = Seq<u8>;

    open spec fn view(&self) -> Seq<u8> {
        self.bytes@
    }
}

impl PartialEq for Address {
    /// Compares the two addresses byte by byte.
    fn eq(&self, other: &Address) -> (r: bool) {
        let mut i: usize = 0;
        while i < 32
            invariant
                i <= 32,
                forall|j: int| 0 <= j < i ==> self.bytes[j] == other.bytes[j],
            decreases 32 - i,
        {
            if self.bytes[i] != other.bytes[i] {
                return false;
            }
            i += 1;
        }
        assert(self.bytes =~= other.bytes);
        true
    }
}

impl Eq for Address {}

impl vstd::std_specs::cmp::PartialEqSpecImpl for Address {
    open spec fn obeys_eq_spec() -> bool {
        true
    }

    open spec fn eq_spec(&self, other: &Address) -> bool {
        *self == *other
    }
}

impl Address {
    /// Two addresses with the same bytes are the same address.
    pub proof fn lemma_same_bytes(a: Address, b: Address)
        requires
            a@ == b@,
        ensures
            a == b,
    {
        assert(a.bytes =~= b.bytes);
    }
}

/// The tag that opens the seeds of every vault address: `anchor_vault`.
pub const VAULT_TAG: [u8; 12] = [97, 110, 99, 104, 111, 114, 95, 118, 97, 117, 108, 116];

/// The address of the program that owns the vaults. Every derivation is
/// made under it.
pub const PROGRAM_ID: [u8; 32] = [
    188, 189, 233, 31, 124, 22, 87, 133, 129, 46, 51, 247, 134, 12, 156, 86,
    137, 113, 11, 106, 176, 62, 155, 104, 220, 77, 2, 48, 239, 116, 220, 9,
];

/// The address and bump seed that `Pubkey::try_find_program_address` returns
/// for a list of seeds and a program id, or `None` where it finds none.
pub uninterp spec fn program_address(seeds: Seq<Seq<u8>>, program_id: Seq<u8>) -> Option<(Seq<u8>, u8)>;

/// A derivation as contracts speak of it: the address by its bytes.
pub open spec fn derivation_view(derived: Option<(Address, u8)>) -> Option<(Seq<u8>, u8)> {
    match derived {
        Some((address, bump)) => Some((address@, bump)),
        None => None,
    }
}

/// The byte sequences of a list of seeds, in order.
pub open spec fn seed_bytes(seeds: Vec<Vec<u8>>) -> Seq<Seq<u8>> {
    Seq::new(seeds.len() as nat, |i: int| seeds[i]@)
}

/// Trusted, not proved: calls `Pubkey::try_find_program_address`. What that
/// returns is a function of the seeds and the program id alone; the contract
/// gives it the name `program_address` and claims nothing else of it.
#[verifier::external_body]
fn try_find_program_address(seeds: &Vec<Vec<u8>>, program_id: &Address) -> (found: Option<
    (Address, u8),
>)
    ensures
        derivation_view(found) == program_address(seed_bytes(*seeds), program_id@),
{
    let parts: Vec<&[u8]> = seeds.iter().map(|s| s.as_slice()).collect();
    match Pubkey::try_find_program_address(&parts, &Pubkey::new_from_array(program_id.bytes)) {
        Some((key, bump)) => Some((Address { bytes: key.to_bytes() }, bump)),
        None => None,
    }
}

/// The address that the program derives from a domain tag, a depositor and
/// an extra seed, with its bump seed; `None` where it derives none.
pub open spec fn derivation(domain_tag: Seq<u8>, depositor: Seq<u8>, extra_seed: Seq<u8>) -> Option<
    (Seq<u8>, u8),
> {
    program_address(seq![domain_tag, depositor, extra_seed], PROGRAM_ID@)
}

/// The address of the vault of a depositor under an extra seed, with its
/// bump seed.
pub open spec fn vault_derivation(depositor: Seq<u8>, extra_seed: Seq<u8>) -> Option<
    (Seq<u8>, u8),
> {
    derivation(VAULT_TAG@, depositor, extra_seed)
}

/// Derives an address from a domain tag, the depositor's key and an extra
/// seed. The same three always give the same address and bump seed.
pub fn derive_address(
    domain_tag: &[u8],
    depositor: &Address,
    extra_seed: &Address,
) -> (derived: Option<(Address, u8)>)
    ensures
        derivation_view(derived) == derivation(domain_tag@, depositor@, extra_seed@),
{
    let mut seeds: Vec<Vec<u8>> = Vec::new();
    seeds.push(slice_to_vec(domain_tag));
    seeds.push(slice_to_vec(depositor.bytes.as_slice()));
    seeds.push(slice_to_vec(extra_seed.bytes.as_slice()));
    assert(seed_bytes(seeds) =~= seq![domain_tag@, depositor@, extra_seed@]);
    try_find_program_address(&seeds, &Address { bytes: PROGRAM_ID })
}

/// Derives the address of the vault of `depositor` under `extra_seed`, and
/// its bump seed.
pub fn derive_vault(depositor: &Address, extra_seed: &Address) -> (derived: Option<(Address, u8)>)
    ensures
        derivation_view(derived) == vault_derivation(depositor@, extra_seed@),
{
    derive_address(VAULT_TAG.as_slice(), depositor, extra_seed)
}

/// Holds the account that a request presents, and the bump seed it claims,
/// against the derivation made from the request's depositor and seed. Both
/// must be the derived ones.
pub fn verify_address(derived: Option<(Address, u8)>, presented: &Address, bump: u8) -> (r: Result<
    (),
    VaultError,
>)
    ensures
        r == (if derivation_view(derived) == Some((presented@, bump)) {
            Ok::<(), VaultError>(())
        } else {
            Err(VaultError::AddressMismatch)
        }),
{
    match derived {
        Some((address, canonical)) => {
            proof {
                if address@ == presented@ {
                    Address::lemma_same_bytes(address, *presented);
                }
            }
            if address == *presented && canonical == bump {
                Ok(())
            } else {
                Err(VaultError::AddressMismatch)
            }
        },
        None => Err(VaultError::AddressMismatch),
    }
}

} // verus!
