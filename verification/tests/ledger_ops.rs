//! Exercises the mutating operations end to end: minting, approving,
//! transferring and burning, with the index queries observed after each
//! step.

use cert_ledger::ledger::Ledger;
use cert_ledger::types::{GenericValue, NftError};

fn no_props() -> Vec<(String, GenericValue)> {
    Vec::new()
}

#[test]
fn mint_assigns_owner_and_counts() {
    let mut l = Ledger::new();
    let r = l.dip721_mint(1, 2, 10, no_props(), 100);
    assert_eq!(r, Ok(1));
    assert_eq!(l.owner_of(&10), Ok(Some(2)));
    assert_eq!(l.operator_of(&10), Ok(None));
    assert_eq!(l.dip721_balance_of(&2), Ok(1));
    assert_eq!(l.dip721_total_supply(), 1);
    assert_eq!(l.dip721_total_transactions(), 1);
    assert_eq!(l.dip721_total_unique_holders(), 1);
    let m = l.token_metadata(&10).unwrap();
    assert_eq!(m.token_identifier, 10);
    assert_eq!(m.minted_by, 1);
    assert_eq!(m.minted_at, 100);
    assert!(!m.is_burned);
    assert_eq!(m.transferred_at, None);
    assert_eq!(m.approved_at, None);
    assert_eq!(m.burned_at, None);
}

#[test]
fn double_mint_rejected_and_first_record_untouched() {
    let mut l = Ledger::new();
    let props = vec![("k".to_string(), GenericValue::Nat8Content(7))];
    assert_eq!(l.dip721_mint(1, 2, 10, props, 100), Ok(1));
    let r = l.dip721_mint(1, 3, 10, no_props(), 200);
    assert_eq!(r, Err(NftError::ExistedNFT));
    let m = l.token_metadata(&10).unwrap();
    assert_eq!(m.owner, Some(2));
    assert_eq!(m.minted_at, 100);
    assert_eq!(m.minted_by, 1);
    assert_eq!(
        m.properties,
        vec![("k".to_string(), GenericValue::Nat8Content(7))]
    );
    assert_eq!(l.dip721_total_transactions(), 1);
    assert_eq!(l.dip721_total_supply(), 1);
}

#[test]
fn approve_sets_operator_and_indexes_it() {
    let mut l = Ledger::new();
    assert_eq!(l.dip721_mint(1, 2, 10, no_props(), 100), Ok(1));
    let r = l.dip721_approve(2, 5, 10, 110);
    assert_eq!(r, Ok(2));
    assert_eq!(l.operator_of(&10), Ok(Some(5)));
    let ids = l.operator_token_identifiers(&5).unwrap();
    assert_eq!(ids, &vec![10]);
    let m = l.token_metadata(&10).unwrap();
    assert_eq!(m.approved_by, Some(2));
    assert_eq!(m.approved_at, Some(110));
}

#[test]
fn approve_self_rejected() {
    let mut l = Ledger::new();
    assert_eq!(l.dip721_mint(1, 2, 10, no_props(), 100), Ok(1));
    assert_eq!(l.dip721_approve(2, 2, 10, 110), Err(NftError::SelfApprove));
    assert_eq!(l.operator_of(&10), Ok(None));
    assert_eq!(l.dip721_total_transactions(), 1);
}

#[test]
fn approve_requires_ownership() {
    let mut l = Ledger::new();
    assert_eq!(l.dip721_mint(1, 2, 10, no_props(), 100), Ok(1));
    assert_eq!(
        l.dip721_approve(3, 5, 10, 110),
        Err(NftError::UnauthorizedOwner)
    );
    assert_eq!(l.dip721_approve(2, 5, 99, 110), Err(NftError::TokenNotFound));
}

#[test]
fn reapprove_moves_operator_index_entry() {
    let mut l = Ledger::new();
    assert_eq!(l.dip721_mint(1, 2, 10, no_props(), 100), Ok(1));
    assert_eq!(l.dip721_approve(2, 5, 10, 110), Ok(2));
    assert_eq!(l.dip721_approve(2, 6, 10, 120), Ok(3));
    assert_eq!(l.operator_of(&10), Ok(Some(6)));
    assert_eq!(
        l.operator_token_identifiers(&5),
        Err(NftError::OperatorNotFound)
    );
    assert_eq!(l.operator_token_identifiers(&6).unwrap(), &vec![10]);
}

#[test]
fn reapproving_the_same_operator_keeps_one_listing() {
    let mut l = Ledger::new();
    assert_eq!(l.dip721_mint(1, 2, 10, no_props(), 100), Ok(1));
    assert_eq!(l.dip721_approve(2, 5, 10, 110), Ok(2));
    assert_eq!(l.dip721_approve(2, 5, 10, 120), Ok(3));
    assert_eq!(l.operator_of(&10), Ok(Some(5)));
    assert_eq!(l.operator_token_identifiers(&5).unwrap(), &vec![10]);
    let m = l.token_metadata(&10).unwrap();
    assert_eq!(m.approved_at, Some(120));
}

#[test]
fn transfer_moves_token_and_revokes_approval() {
    let mut l = Ledger::new();
    assert_eq!(l.dip721_mint(1, 2, 10, no_props(), 100), Ok(1));
    assert_eq!(l.dip721_approve(2, 5, 10, 110), Ok(2));
    let r = l.dip721_transfer(2, 3, 10, 120);
    assert_eq!(r, Ok(3));
    assert_eq!(l.owner_of(&10), Ok(Some(3)));
    assert_eq!(l.operator_of(&10), Ok(None));
    assert_eq!(
        l.operator_token_identifiers(&5),
        Err(NftError::OperatorNotFound)
    );
    assert_eq!(l.dip721_balance_of(&2), Err(NftError::OwnerNotFound));
    assert_eq!(l.dip721_balance_of(&3), Ok(1));
    let m = l.token_metadata(&10).unwrap();
    assert_eq!(m.transferred_by, Some(2));
    assert_eq!(m.transferred_at, Some(120));
}

#[test]
fn transfer_to_self_rejected() {
    let mut l = Ledger::new();
    assert_eq!(l.dip721_mint(1, 2, 10, no_props(), 100), Ok(1));
    assert_eq!(l.dip721_transfer(2, 2, 10, 110), Err(NftError::SelfTransfer));
    assert_eq!(l.owner_of(&10), Ok(Some(2)));
}

#[test]
fn transfer_requires_ownership() {
    let mut l = Ledger::new();
    assert_eq!(l.dip721_mint(1, 2, 10, no_props(), 100), Ok(1));
    assert_eq!(
        l.dip721_transfer(3, 4, 10, 110),
        Err(NftError::UnauthorizedOwner)
    );
    assert_eq!(l.dip721_transfer(2, 4, 99, 110), Err(NftError::TokenNotFound));
}

#[test]
fn transfer_from_requires_operator_and_owner_match() {
    let mut l = Ledger::new();
    assert_eq!(l.dip721_mint(1, 2, 10, no_props(), 100), Ok(1));
    assert_eq!(l.dip721_approve(2, 5, 10, 110), Ok(2));
    // wrong operator
    assert_eq!(
        l.dip721_transfer_from(6, 2, 3, 10, 120),
        Err(NftError::UnauthorizedOperator)
    );
    // wrong owner
    assert_eq!(
        l.dip721_transfer_from(5, 9, 3, 10, 120),
        Err(NftError::UnauthorizedOwner)
    );
    // owner == destination
    assert_eq!(
        l.dip721_transfer_from(5, 2, 2, 10, 120),
        Err(NftError::SelfTransfer)
    );
    // unknown token
    assert_eq!(
        l.dip721_transfer_from(5, 2, 3, 99, 120),
        Err(NftError::TokenNotFound)
    );
    // and the well-formed call succeeds
    assert_eq!(l.dip721_transfer_from(5, 2, 3, 10, 130), Ok(3));
    assert_eq!(l.owner_of(&10), Ok(Some(3)));
    assert_eq!(l.operator_of(&10), Ok(None));
}

#[test]
fn burn_is_terminal() {
    let mut l = Ledger::new();
    assert_eq!(l.dip721_mint(1, 2, 10, no_props(), 100), Ok(1));
    assert_eq!(l.dip721_approve(2, 5, 10, 110), Ok(2));
    let r = l.dip721_burn(2, 10, 120);
    assert_eq!(r, Ok(3));
    assert_eq!(l.owner_of(&10), Ok(None));
    assert_eq!(l.operator_of(&10), Ok(None));
    let m = l.token_metadata(&10).unwrap();
    assert!(m.is_burned);
    assert_eq!(m.burned_by, Some(2));
    assert_eq!(m.burned_at, Some(120));
    assert_eq!(l.dip721_balance_of(&2), Err(NftError::OwnerNotFound));
    assert_eq!(
        l.operator_token_identifiers(&5),
        Err(NftError::OperatorNotFound)
    );
    // burned tokens still count towards total supply
    assert_eq!(l.dip721_total_supply(), 1);
    // a second burn fails: the owner is gone for good
    assert_eq!(l.dip721_burn(2, 10, 130), Err(NftError::UnauthorizedOwner));
    assert_eq!(l.dip721_burn(1, 10, 130), Err(NftError::UnauthorizedOwner));
    assert_eq!(l.owner_of(&10), Ok(None));
}

#[test]
fn burn_requires_ownership() {
    let mut l = Ledger::new();
    assert_eq!(l.dip721_mint(1, 2, 10, no_props(), 100), Ok(1));
    assert_eq!(l.dip721_burn(3, 10, 110), Err(NftError::UnauthorizedOwner));
    assert_eq!(l.dip721_burn(2, 99, 110), Err(NftError::TokenNotFound));
}

#[test]
fn transaction_counter_increases_by_one_across_interleaved_ops() {
    let mut l = Ledger::new();
    let mut receipts: Vec<u64> = Vec::new();
    receipts.push(l.dip721_mint(1, 2, 10, no_props(), 100).unwrap());
    receipts.push(l.dip721_mint(1, 2, 11, no_props(), 101).unwrap());
    receipts.push(l.dip721_approve(2, 5, 10, 102).unwrap());
    receipts.push(l.dip721_transfer(2, 3, 11, 103).unwrap());
    receipts.push(l.dip721_set_approval_for_all(3, 7, true, 104).unwrap());
    receipts.push(l.dip721_transfer_from(5, 2, 4, 10, 105).unwrap());
    receipts.push(l.dip721_burn(4, 10, 106).unwrap());
    for (k, r) in receipts.iter().enumerate() {
        assert_eq!(*r, (k as u64) + 1);
    }
    assert_eq!(l.dip721_total_transactions(), receipts.len() as u64);
    // failed calls leave the counter alone
    assert_eq!(l.dip721_burn(4, 10, 107), Err(NftError::UnauthorizedOwner));
    assert_eq!(l.dip721_total_transactions(), receipts.len() as u64);
}

#[test]
fn mint_alias_behaves_like_dip721_mint() {
    let mut l = Ledger::new();
    assert_eq!(l.mint(1, 2, 10, no_props(), 100), Ok(1));
    assert_eq!(l.mint(1, 2, 10, no_props(), 101), Err(NftError::ExistedNFT));
    assert_eq!(l.owner_of(&10), Ok(Some(2)));
}
