use anchor_lang::prelude::Pubkey;
use blueshift_anchor_vault::address::{
    derive_address, derive_vault, verify_address, Address, PROGRAM_ID, VAULT_TAG,
};
use blueshift_anchor_vault::error::VaultError;
use std::str::FromStr;

fn key(fill: u8) -> Address {
    Address { bytes: [fill; 32] }
}

fn program() -> Pubkey {
    Pubkey::from_str("Dhmc6b1boQ6WSgnNojLRnLSu8atQnV3RsJWP1B1E733E").unwrap()
}

#[test]
fn program_id_is_the_declared_one() {
    assert_eq!(program().to_bytes(), PROGRAM_ID);
}

#[test]
fn vault_tag_spells_anchor_vault() {
    assert_eq!(&VAULT_TAG, b"anchor_vault");
}

#[test]
fn addresses_compare_by_their_bytes() {
    let mut other = [7u8; 32];
    assert!(key(7) == Address { bytes: other });
    other[31] = 8;
    assert!(key(7) != Address { bytes: other });
    other[31] = 7;
    other[0] = 6;
    assert!(key(7) != Address { bytes: other });
}

#[test]
fn derive_vault_finds_the_program_address() {
    let depositor = key(1);
    let seed = key(2);
    let (expected, bump) = Pubkey::find_program_address(
        &[b"anchor_vault", &depositor.bytes, &seed.bytes],
        &program(),
    );
    let derived = derive_vault(&depositor, &seed);
    assert_eq!(derived, Some((Address { bytes: expected.to_bytes() }, bump)));
    let (address, _) = derived.unwrap();
    assert_ne!(address, depositor);
    assert_ne!(address, seed);
    assert_ne!(address.bytes, PROGRAM_ID);
}

#[test]
fn derived_address_is_rebuilt_from_its_bump() {
    let depositor = key(9);
    let seed = key(4);
    let (address, bump) = derive_vault(&depositor, &seed).unwrap();
    let rebuilt = Pubkey::create_program_address(
        &[b"anchor_vault", &depositor.bytes, &seed.bytes, &[bump]],
        &program(),
    )
    .unwrap();
    assert_eq!(rebuilt.to_bytes(), address.bytes);
    assert!(!rebuilt.is_on_curve());
}

#[test]
fn derive_is_deterministic() {
    let depositor = key(3);
    let seed = key(5);
    assert_eq!(derive_vault(&depositor, &seed), derive_vault(&depositor, &seed));
    assert_eq!(derive_address(&VAULT_TAG, &depositor, &seed), derive_vault(&depositor, &seed));
}

#[test]
fn derive_tells_tags_depositors_and_seeds_apart() {
    let base = derive_address(b"anchor_vault", &key(1), &key(2)).unwrap().0;
    assert_ne!(derive_address(b"other_vault", &key(1), &key(2)).unwrap().0, base);
    assert_ne!(derive_address(b"anchor_vault", &key(3), &key(2)).unwrap().0, base);
    assert_ne!(derive_address(b"anchor_vault", &key(1), &key(3)).unwrap().0, base);
    assert_ne!(derive_address(b"anchor_vault", &key(2), &key(1)).unwrap().0, base);
}

#[test]
fn derive_with_an_empty_tag_follows_the_program_address() {
    let (expected, bump) =
        Pubkey::find_program_address(&[b"", &[1u8; 32], &[2u8; 32]], &program());
    assert_eq!(
        derive_address(b"", &key(1), &key(2)),
        Some((Address { bytes: expected.to_bytes() }, bump))
    );
}

#[test]
fn derive_refuses_a_tag_longer_than_a_seed_may_be() {
    assert_eq!(derive_address(&[0u8; 33], &key(1), &key(2)), None);
    assert!(derive_address(&[0u8; 32], &key(1), &key(2)).is_some());
}

#[test]
fn verify_address_accepts_the_derivation() {
    let derived = derive_vault(&key(1), &key(2));
    let (address, bump) = derived.unwrap();
    assert_eq!(verify_address(derived, &address, bump), Ok(()));
}

#[test]
fn verify_address_refuses_another_account() {
    let derived = derive_vault(&key(1), &key(2));
    let (_, bump) = derived.unwrap();
    let (elsewhere, _) = derive_vault(&key(1), &key(3)).unwrap();
    assert_eq!(verify_address(derived, &elsewhere, bump), Err(VaultError::AddressMismatch));
    assert_eq!(verify_address(derived, &key(1), bump), Err(VaultError::AddressMismatch));
}

#[test]
fn verify_address_refuses_another_bump() {
    let derived = Some((key(8), 254u8));
    assert_eq!(verify_address(derived, &key(8), 254), Ok(()));
    assert_eq!(verify_address(derived, &key(8), 255), Err(VaultError::AddressMismatch));
    assert_eq!(verify_address(derived, &key(8), 253), Err(VaultError::AddressMismatch));
}

#[test]
fn verify_address_refuses_where_nothing_was_derived() {
    assert_eq!(verify_address(None, &key(8), 255), Err(VaultError::AddressMismatch));
}
