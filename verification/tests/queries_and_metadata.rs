//! Exercises the query surface, the metadata and custodian administration,
//! the approval-for-all semantics, and the index agreement after operation
//! sequences.

use cert_ledger::ledger::Ledger;
use cert_ledger::service::certificate_properties;
use cert_ledger::types::{GenericValue, InitArgs, NftError};

fn no_props() -> Vec<(String, GenericValue)> {
    Vec::new()
}

/// Spot-checks invariant I1 through the public queries: every token the
/// table says holder `h` owns is listed under `h` and under nobody else.
fn assert_index_agreement(l: &Ledger, tokens: &[u64], holders: &[u64]) {
    for &t in tokens {
        let (owner, operator) = match (l.owner_of(&t), l.operator_of(&t)) {
            (Ok(o), Ok(p)) => (o, p),
            // a token not minted yet has nothing to agree on
            _ => continue,
        };
        for &h in holders {
            let owned = match l.owner_token_identifiers(&h) {
                Ok(ids) => ids.contains(&t),
                Err(_) => false,
            };
            assert_eq!(owned, owner == Some(h), "owner index vs table, token {t} holder {h}");
            let operated = match l.operator_token_identifiers(&h) {
                Ok(ids) => ids.contains(&t),
                Err(_) => false,
            };
            assert_eq!(operated, operator == Some(h), "operator index vs table, token {t} holder {h}");
        }
    }
}

#[test]
fn indices_agree_after_every_operation() {
    let tokens = [10u64, 11, 12];
    let holders = [1u64, 2, 3, 4, 5, 6, 7];
    let mut l = Ledger::new();
    l.dip721_mint(1, 2, 10, no_props(), 100).unwrap();
    assert_index_agreement(&l, &tokens, &holders);
    l.dip721_mint(1, 2, 11, no_props(), 101).unwrap();
    assert_index_agreement(&l, &tokens, &holders);
    l.dip721_mint(1, 3, 12, no_props(), 102).unwrap();
    assert_index_agreement(&l, &tokens, &holders);
    l.dip721_approve(2, 5, 10, 103).unwrap();
    assert_index_agreement(&l, &tokens, &holders);
    l.dip721_set_approval_for_all(2, 6, true, 104).unwrap();
    assert_index_agreement(&l, &tokens, &holders);
    l.dip721_transfer(2, 3, 10, 105).unwrap();
    assert_index_agreement(&l, &tokens, &holders);
    l.dip721_transfer_from(6, 2, 4, 11, 106).unwrap();
    assert_index_agreement(&l, &tokens, &holders);
    l.dip721_burn(3, 12, 107).unwrap();
    assert_index_agreement(&l, &tokens, &holders);
    l.dip721_set_approval_for_all(3, 7, false, 108).unwrap();
    assert_index_agreement(&l, &tokens, &holders);
}

#[test]
fn set_approval_for_all_covers_every_owned_token() {
    let mut l = Ledger::new();
    l.dip721_mint(1, 2, 10, no_props(), 100).unwrap();
    l.dip721_mint(1, 2, 11, no_props(), 101).unwrap();
    l.dip721_mint(1, 3, 12, no_props(), 102).unwrap();
    let r = l.dip721_set_approval_for_all(2, 6, true, 103);
    assert_eq!(r, Ok(4));
    assert_eq!(l.operator_of(&10), Ok(Some(6)));
    assert_eq!(l.operator_of(&11), Ok(Some(6)));
    assert_eq!(l.operator_of(&12), Ok(None));
    assert_eq!(l.dip721_is_approved_for_all(2, 6), Ok(true));
    // revocation clears every one of them
    let r = l.dip721_set_approval_for_all(2, 6, false, 104);
    assert_eq!(r, Ok(5));
    assert_eq!(l.operator_of(&10), Ok(None));
    assert_eq!(l.operator_of(&11), Ok(None));
    assert_eq!(l.dip721_is_approved_for_all(2, 6), Ok(false));
}

#[test]
fn set_approval_for_all_rejects_self_and_tolerates_empty_owner() {
    let mut l = Ledger::new();
    assert_eq!(
        l.dip721_set_approval_for_all(2, 2, true, 100),
        Err(NftError::SelfApprove)
    );
    assert_eq!(l.dip721_total_transactions(), 0);
    // a caller owning nothing succeeds as a no-op, and the batch still
    // counts as one transaction
    assert_eq!(l.dip721_set_approval_for_all(2, 6, true, 101), Ok(1));
    assert_eq!(l.dip721_total_transactions(), 1);
}

#[test]
fn is_approved_for_all_is_vacuously_true_for_empty_owner() {
    let l = Ledger::new();
    assert_eq!(l.dip721_is_approved_for_all(2, 6), Ok(true));
}

#[test]
fn owner_and_operator_token_metadata_materialize_records() {
    let mut l = Ledger::new();
    l.dip721_mint(1, 2, 10, no_props(), 100).unwrap();
    l.dip721_mint(1, 2, 11, no_props(), 101).unwrap();
    l.dip721_approve(2, 5, 10, 102).unwrap();
    let owned = l.owner_token_metadata(&2).unwrap();
    let mut owned_ids: Vec<u64> = owned.iter().map(|m| m.token_identifier).collect();
    owned_ids.sort();
    assert_eq!(owned_ids, vec![10, 11]);
    let operated = l.operator_token_metadata(&5).unwrap();
    assert_eq!(operated.len(), 1);
    assert_eq!(operated[0].token_identifier, 10);
    assert_eq!(l.owner_token_metadata(&9), Err(NftError::OwnerNotFound));
    assert_eq!(
        l.operator_token_metadata(&9),
        Err(NftError::OperatorNotFound)
    );
}

#[test]
fn unknown_lookups_fail_with_the_right_errors() {
    let l = Ledger::new();
    assert_eq!(l.owner_of(&99), Err(NftError::TokenNotFound));
    assert_eq!(l.operator_of(&99), Err(NftError::TokenNotFound));
    assert_eq!(l.token_metadata(&99), Err(NftError::TokenNotFound));
    assert_eq!(l.dip721_balance_of(&1), Err(NftError::OwnerNotFound));
    assert_eq!(l.owner_token_identifiers(&1), Err(NftError::OwnerNotFound));
    assert_eq!(
        l.operator_token_identifiers(&1),
        Err(NftError::OperatorNotFound)
    );
}

#[test]
fn init_metadata_sets_fields_and_custodians() {
    let mut l = Ledger::new();
    let args = InitArgs {
        name: Some("certs".to_string()),
        logo: Some("logo".to_string()),
        symbol: Some("CRT".to_string()),
        custodians: Some(vec![7, 8, 7]),
        cap: None,
    };
    l.init_metadata(1, Some(args), 500);
    assert_eq!(l.dip721_name(), &Some("certs".to_string()));
    assert_eq!(l.dip721_logo(), &Some("logo".to_string()));
    assert_eq!(l.dip721_symbol(), &Some("CRT".to_string()));
    assert_eq!(l.metadata().created_at, 500);
    assert_eq!(l.metadata().upgraded_at, 500);
    assert!(l.is_canister_custodian(1).is_ok());
    assert!(l.is_canister_custodian(7).is_ok());
    assert!(l.is_canister_custodian(8).is_ok());
    assert!(l.is_canister_custodian(9).is_err());
    // the custodian list keeps set semantics even with a duplicated input
    let listed: Vec<u64> = l.dip721_custodians().clone();
    let sevens = listed.iter().filter(|&&c| c == 7).count();
    assert_eq!(sevens, 1);
}

#[test]
fn init_metadata_without_args_only_adds_default_custodian() {
    let mut l = Ledger::new();
    l.init_metadata(1, None, 500);
    assert_eq!(l.dip721_name(), &None);
    assert!(l.is_canister_custodian(1).is_ok());
    assert!(l.is_canister_custodian(2).is_err());
}

#[test]
fn metadata_setters_replace_fields() {
    let mut l = Ledger::new();
    l.dip721_set_name("n".to_string());
    l.dip721_set_logo("l".to_string());
    l.dip721_set_symbol("s".to_string());
    l.dip721_set_custodians(vec![4, 5]);
    assert_eq!(l.dip721_name(), &Some("n".to_string()));
    assert_eq!(l.dip721_logo(), &Some("l".to_string()));
    assert_eq!(l.dip721_symbol(), &Some("s".to_string()));
    assert_eq!(l.dip721_custodians(), &vec![4, 5]);
    assert!(l.is_canister_custodian(4).is_ok());
    assert!(l.is_canister_custodian(1).is_err());
}

#[test]
fn stats_snapshot_matches_counters() {
    let mut l = Ledger::new();
    l.dip721_mint(1, 2, 10, no_props(), 100).unwrap();
    l.dip721_mint(1, 3, 11, no_props(), 101).unwrap();
    let s = l.dip721_stats(777);
    assert_eq!(s.total_transactions, 2);
    assert_eq!(s.total_supply, 2);
    assert_eq!(s.cycles, 777);
    assert_eq!(s.total_unique_holders, 2);
}

#[test]
fn certificate_properties_have_exact_layout() {
    let props = certificate_properties(
        "a cert".to_string(),
        "rust".to_string(),
        "course-1".to_string(),
        "blob".to_string(),
    );
    assert_eq!(props.len(), 4);
    assert_eq!(
        props[0],
        (
            "description".to_string(),
            GenericValue::TextContent("a cert".to_string())
        )
    );
    assert_eq!(
        props[1],
        ("tag".to_string(), GenericValue::TextContent("rust".to_string()))
    );
    assert_eq!(
        props[2],
        (
            "course_id".to_string(),
            GenericValue::TextContent("course-1".to_string())
        )
    );
    assert_eq!(
        props[3],
        (
            "certificate".to_string(),
            GenericValue::TextContent("blob".to_string())
        )
    );
}

#[test]
fn end_to_end_certificate_lifecycle() {
    let (a, b, c) = (2u64, 5u64, 3u64);
    let mut l = Ledger::new();
    l.init_metadata(1, None, 99);
    // mint token 1 to holder A
    assert!(l.is_canister_custodian(1).is_ok());
    assert_eq!(l.dip721_mint(1, a, 1, no_props(), 100), Ok(1));
    assert_eq!(l.dip721_balance_of(&a), Ok(1));
    // A approves B for token 1
    assert_eq!(l.dip721_approve(a, b, 1, 101), Ok(2));
    assert_eq!(l.operator_of(&1), Ok(Some(b)));
    // B transfers it from A to C
    assert_eq!(l.dip721_transfer_from(b, a, c, 1, 102), Ok(3));
    assert_eq!(l.owner_of(&1), Ok(Some(c)));
    assert_eq!(l.operator_of(&1), Ok(None));
    assert_eq!(l.dip721_balance_of(&a), Err(NftError::OwnerNotFound));
    assert_eq!(l.dip721_balance_of(&c), Ok(1));
    // C burns it
    assert_eq!(l.dip721_burn(c, 1, 103), Ok(4));
    assert_eq!(l.owner_of(&1), Ok(None));
    assert!(l.token_metadata(&1).unwrap().is_burned);
    assert_eq!(l.dip721_burn(c, 1, 104), Err(NftError::UnauthorizedOwner));
}
