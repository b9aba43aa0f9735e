//! The service operations of the ledger: initialization, metadata and
//! custodian administration, the public query surface, and the four mutating
//! token operations with their authorization rules.

use vstd::prelude::*;

use crate::ledger::{ids_clone, Ledger};
use crate::types::{
    GenericValue, Holder, InitArgs, NftError, Stats, TokenIdentifier, TokenMetadata,
};

verus! {

broadcast use vstd::std_specs::hash::group_hash_axioms, vstd::seq_lib::group_seq_properties;

/// Whether `v` lists the holder `x`.
fn holders_contain(v: &Vec<Holder>, x: Holder) -> (b: bool)
    ensures
        b == v@.contains(x),
{
    let mut i: usize = 0;
    while i < v.len()
        invariant
            i <= v@.len(),
            forall|j: int| 0 <= j < i ==> v@[j] != x,
        decreases v@.len() - i,
    {
        if v[i] == x {
            return true;
        }
        i = i + 1;
    }
    false
}

/// Appends `x` to `v` unless it is already listed, so that the list keeps
/// behaving as a set.
fn holders_insert(v: &mut Vec<Holder>, x: Holder)
    ensures
        forall|y: Holder| #[trigger] final(v)@.contains(y) <==> old(v)@.contains(y) || y == x,
{
    if !holders_contain(v, x) {
        let ghost v0 = v@;
        v.push(x);
        proof {
            assert(v@ == v0.push(x));
        }
    }
}

/// The property list a certificate token is minted with: its description,
/// tag, course reference and certificate payload, in that order.
pub fn certificate_properties(
    description: String,
    tag: String,
    course_id: String,
    certificate: String,
) -> (r: Vec<(String, GenericValue)>)
    ensures
        r@.len() == 4,
        r@[0].0@ == "description"@,
        r@[0].1 == GenericValue::TextContent(description),
        r@[1].0@ == "tag"@,
        r@[1].1 == GenericValue::TextContent(tag),
        r@[2].0@ == "course_id"@,
        r@[2].1 == GenericValue::TextContent(course_id),
        r@[3].0@ == "certificate"@,
        r@[3].1 == GenericValue::TextContent(certificate),
{
    let mut r: Vec<(String, GenericValue)> = Vec::new();
    r.push(("description".to_owned(), GenericValue::TextContent(description)));
    r.push(("tag".to_owned(), GenericValue::TextContent(tag)));
    r.push(("course_id".to_owned(), GenericValue::TextContent(course_id)));
    r.push(("certificate".to_owned(), GenericValue::TextContent(certificate)));
    r
}

impl Ledger {
    /// Fills the metadata singleton at ledger creation: the calling identity
    /// always becomes a custodian, and the optional arguments provide the
    /// descriptive fields and further custodians.
    pub fn init_metadata(&mut self, default_custodian: Holder, args: Option<InitArgs>, now: u64)
        ensures
            final(self).tokens == old(self).tokens,
            final(self).owners == old(self).owners,
            final(self).operators == old(self).operators,
            final(self).tx_count == old(self).tx_count,
            final(self).metadata.created_at == now,
            final(self).metadata.upgraded_at == now,
            match args {
                Some(a) => {
                    &&& final(self).metadata.name == a.name
                    &&& final(self).metadata.logo == a.logo
                    &&& final(self).metadata.symbol == a.symbol
                    &&& forall|c: Holder| #[trigger] final(self).metadata.custodians@.contains(c)
                        <==> old(self).metadata.custodians@.contains(c) || c == default_custodian
                        || (a.custodians matches Some(cs) && cs@.contains(c))
                },
                None => {
                    &&& final(self).metadata.name == old(self).metadata.name
                    &&& final(self).metadata.logo == old(self).metadata.logo
                    &&& final(self).metadata.symbol == old(self).metadata.symbol
                    &&& forall|c: Holder| #[trigger] final(self).metadata.custodians@.contains(c)
                        <==> old(self).metadata.custodians@.contains(c) || c == default_custodian
                },
            },
    {
        holders_insert(&mut self.metadata.custodians, default_custodian);
        let ghost base = self.metadata.custodians@;
        match args {
            Some(a) => {
                self.metadata.name = a.name;
                self.metadata.logo = a.logo;
                self.metadata.symbol = a.symbol;
                match a.custodians {
                    Some(cs) => {
                        let mut i: usize = 0;
                        while i < cs.len()
                            invariant
                                i <= cs@.len(),
                                forall|c: Holder| #[trigger] self.metadata.custodians@.contains(c)
                                    <==> base.contains(c) || cs@.take(i as int).contains(c),
                                self.tokens == old(self).tokens,
                                self.owners == old(self).owners,
                                self.operators == old(self).operators,
                                self.tx_count == old(self).tx_count,
                                self.metadata.name == a.name,
                                self.metadata.logo == a.logo,
                                self.metadata.symbol == a.symbol,
                            decreases cs@.len() - i,
                        {
                            proof {
                                assert(cs@.take(i + 1) =~= cs@.take(i as int).push(cs@[i as int]));
                            }
                            holders_insert(&mut self.metadata.custodians, cs[i]);
                            i = i + 1;
                        }
                        proof {
                            assert(cs@.take(cs@.len() as int) =~= cs@);
                        }
                    },
                    None => {},
                }
            },
            None => {},
        }
        self.metadata.created_at = now;
        self.metadata.upgraded_at = now;
    }

    /// Admits the caller when it is a custodian; anyone else is turned away
    /// before any administrative mutation is reached.
    pub fn is_canister_custodian(&self, caller: Holder) -> (r: Result<(), String>)
        ensures
            r is Ok <==> self.metadata.custodians@.contains(caller),
            r matches Err(msg) ==> msg@ == "Caller is not an custodian of canister"@,
    {
        if holders_contain(&self.metadata.custodians, caller) {
            Ok(())
        } else {
            Err("Caller is not an custodian of canister".to_owned())
        }
    }

    /// The descriptive name of this ledger, if one was set.
    pub fn dip721_name(&self) -> (r: &Option<String>)
        ensures
            *r == self.metadata.name,
    {
        &self.metadata.name
    }

    /// The logo of this ledger, if one was set.
    pub fn dip721_logo(&self) -> (r: &Option<String>)
        ensures
            *r == self.metadata.logo,
    {
        &self.metadata.logo
    }

    /// The token symbol of this ledger, if one was set.
    pub fn dip721_symbol(&self) -> (r: &Option<String>)
        ensures
            *r == self.metadata.symbol,
    {
        &self.metadata.symbol
    }

    /// The holders permitted to perform administrative mutations.
    pub fn dip721_custodians(&self) -> (r: &Vec<Holder>)
        ensures
            *r == self.metadata.custodians,
    {
        &self.metadata.custodians
    }

    /// Replaces the ledger name.
    pub fn dip721_set_name(&mut self, name: String)
        ensures
            final(self).metadata.name == Some(name),
            final(self).metadata.logo == old(self).metadata.logo,
            final(self).metadata.symbol == old(self).metadata.symbol,
            final(self).metadata.custodians == old(self).metadata.custodians,
            final(self).metadata.created_at == old(self).metadata.created_at,
            final(self).metadata.upgraded_at == old(self).metadata.upgraded_at,
            final(self).tokens == old(self).tokens,
            final(self).owners == old(self).owners,
            final(self).operators == old(self).operators,
            final(self).tx_count == old(self).tx_count,
    {
        self.metadata.name = Some(name);
    }

    /// Replaces the ledger logo.
    pub fn dip721_set_logo(&mut self, logo: String)
        ensures
            final(self).metadata.logo == Some(logo),
            final(self).metadata.name == old(self).metadata.name,
            final(self).metadata.symbol == old(self).metadata.symbol,
            final(self).metadata.custodians == old(self).metadata.custodians,
            final(self).metadata.created_at == old(self).metadata.created_at,
            final(self).metadata.upgraded_at == old(self).metadata.upgraded_at,
            final(self).tokens == old(self).tokens,
            final(self).owners == old(self).owners,
            final(self).operators == old(self).operators,
            final(self).tx_count == old(self).tx_count,
    {
        self.metadata.logo = Some(logo);
    }

    /// Replaces the token symbol.
    pub fn dip721_set_symbol(&mut self, symbol: String)
        ensures
            final(self).metadata.symbol == Some(symbol),
            final(self).metadata.name == old(self).metadata.name,
            final(self).metadata.logo == old(self).metadata.logo,
            final(self).metadata.custodians == old(self).metadata.custodians,
            final(self).metadata.created_at == old(self).metadata.created_at,
            final(self).metadata.upgraded_at == old(self).metadata.upgraded_at,
            final(self).tokens == old(self).tokens,
            final(self).owners == old(self).owners,
            final(self).operators == old(self).operators,
            final(self).tx_count == old(self).tx_count,
    {
        self.metadata.symbol = Some(symbol);
    }

    /// Replaces the whole custodian set.
    pub fn dip721_set_custodians(&mut self, custodians: Vec<Holder>)
        ensures
            final(self).metadata.custodians == custodians,
            final(self).metadata.name == old(self).metadata.name,
            final(self).metadata.logo == old(self).metadata.logo,
            final(self).metadata.symbol == old(self).metadata.symbol,
            final(self).metadata.created_at == old(self).metadata.created_at,
            final(self).metadata.upgraded_at == old(self).metadata.upgraded_at,
            final(self).tokens == old(self).tokens,
            final(self).owners == old(self).owners,
            final(self).operators == old(self).operators,
            final(self).tx_count == old(self).tx_count,
    {
        self.metadata.custodians = custodians;
    }

    /// Total current supply; burned tokens still count.
    pub fn dip721_total_supply(&self) -> (n: u64)
        ensures
            n == self.tokens@.len(),
    {
        self.tokens_count() as u64
    }

    /// The number of successful mutating calls so far.
    pub fn dip721_total_transactions(&self) -> (n: u64)
        ensures
            n == self.tx_count,
    {
        self.tx_count()
    }

    /// The number of holders that currently own at least one token.
    pub fn dip721_total_unique_holders(&self) -> (n: u64)
        ensures
            n == self.owners@.len(),
    {
        self.owners_count() as u64
    }

    /// All ledger-wide counters in one snapshot; the cycle balance is
    /// supplied by the environment.
    pub fn dip721_stats(&self, cycles: u128) -> (s: Stats)
        ensures
            s.total_transactions == self.tx_count,
            s.total_supply == self.tokens@.len(),
            s.cycles == cycles,
            s.total_unique_holders == self.owners@.len(),
    {
        Stats {
            total_transactions: self.dip721_total_transactions(),
            total_supply: self.dip721_total_supply(),
            cycles,
            total_unique_holders: self.dip721_total_unique_holders(),
        }
    }

    /// Mints a fresh token to `to`: stores the new record, lists the token
    /// under `to` in the owner index, and counts one transaction. The caller
    /// must already have been admitted as a custodian; an identifier that
    /// was ever minted before is rejected with `ExistedNFT`.
    pub fn dip721_mint(
        &mut self,
        caller: Holder,
        to: Holder,
        token_identifier: TokenIdentifier,
        properties: Vec<(String, GenericValue)>,
        now: u64,
    ) -> (r: Result<u64, NftError>)
        requires
            old(self).wf(),
            old(self).tx_count < u64::MAX,
        ensures
            final(self).wf(),
            old(self).tokens@.contains_key(token_identifier) ==> r == Err::<u64, NftError>(
                NftError::ExistedNFT,
            ) && *final(self) == *old(self),
            !old(self).tokens@.contains_key(token_identifier) ==> {
                &&& r == Ok::<u64, NftError>((old(self).tx_count + 1) as u64)
                &&& final(self).tx_count == old(self).tx_count + 1
                &&& final(self).tokens@ == old(self).tokens@.insert(
                    token_identifier,
                    TokenMetadata::minted(token_identifier, to, properties, caller, now),
                )
                &&& final(self).metadata == old(self).metadata
                &&& forall|g: Holder, t: TokenIdentifier| t != token_identifier ==> (
                    #[trigger] final(self).owner_index_has(g, t) <==> old(self).owner_index_has(
                    g, t))
                &&& forall|g: Holder| #[trigger] final(self).owner_index_has(g, token_identifier)
                    <==> g == to
                &&& forall|g: Holder, t: TokenIdentifier|
                    #[trigger] final(self).operator_index_has(g, t) <==> old(
                    self).operator_index_has(g, t)
            },
    {
        if self.is_token_existed(&token_identifier) {
            return Err(NftError::ExistedNFT);
        }
        let ghost props = properties;
        let record = TokenMetadata {
            token_identifier,
            owner: Some(to),
            operator: None,
            is_burned: false,
            properties,
            minted_at: now,
            minted_by: caller,
            transferred_at: None,
            transferred_by: None,
            approved_at: None,
            approved_by: None,
            burned_at: None,
            burned_by: None,
        };
        proof {
            assert(record == TokenMetadata::minted(token_identifier, to, props, caller, now));
        }
        self.add_token_metadata(token_identifier, record);
        proof {
            assert forall|g: Holder| !self.owner_index_has(g, token_identifier) by {
                if self.owner_index_has(g, token_identifier) {
                    assert(old(self).owner_index_has(g, token_identifier));
                    assert(old(self).tokens@.contains_key(token_identifier));
                }
            }
        }
        let ghost s1 = *self;
        self.update_owner_cache(&token_identifier, None, Some(to));
        let ghost s2 = *self;
        let n = self.inc_tx();
        proof {
            let pre = *old(self);
            let post = *self;
            assert forall|g: Holder, t: TokenIdentifier| t != token_identifier implies (
                #[trigger] post.owner_index_has(g, t) <==> pre.owner_index_has(g, t)) by {
                assert(s2.owner_index_has(g, t) <==> s1.owner_index_has(g, t));
            }
            assert forall|g: Holder| #[trigger] post.owner_index_has(g, token_identifier)
                <==> record.owner == Some(g) by {
                assert(s2.owner_index_has(g, token_identifier) <==> Some(to) == Some(g));
            }
            assert forall|g: Holder, t: TokenIdentifier| #[trigger] post.operator_index_has(g, t)
                <==> pre.operator_index_has(g, t) by {}
            assert forall|g: Holder| #[trigger] post.operator_index_has(g, token_identifier)
                implies false by {
                assert(pre.operator_index_has(g, token_identifier));
                assert(pre.tokens@.contains_key(token_identifier));
            }
            Ledger::lemma_wf_after_token_update(pre, post, token_identifier, record);
        }
        Ok(n)
    }

    /// Grants or replaces the single-token approval on `token_identifier`:
    /// records `operator` as the token's operator, relists the token in the
    /// operator index, and counts one transaction. Only the current owner
    /// may approve, and never itself.
    pub fn dip721_approve(
        &mut self,
        caller: Holder,
        operator: Holder,
        token_identifier: TokenIdentifier,
        now: u64,
    ) -> (r: Result<u64, NftError>)
        requires
            old(self).wf(),
            old(self).tx_count < u64::MAX,
        ensures
            final(self).wf(),
            operator == caller ==> r == Err::<u64, NftError>(NftError::SelfApprove) && *final(self)
                == *old(self),
            operator != caller && !old(self).tokens@.contains_key(token_identifier) ==> r
                == Err::<u64, NftError>(NftError::TokenNotFound) && *final(self) == *old(self),
            operator != caller && old(self).tokens@.contains_key(token_identifier) && old(
                self,
            ).tokens@[token_identifier].owner != Some(caller) ==> r == Err::<u64, NftError>(
                NftError::UnauthorizedOwner,
            ) && *final(self) == *old(self),
            operator != caller && old(self).tokens@.contains_key(token_identifier) && old(
                self,
            ).tokens@[token_identifier].owner == Some(caller) ==> {
                &&& r == Ok::<u64, NftError>((old(self).tx_count + 1) as u64)
                &&& final(self).tx_count == old(self).tx_count + 1
                &&& final(self).tokens@ == old(self).tokens@.insert(
                    token_identifier,
                    old(self).tokens@[token_identifier].approved(Some(operator), caller, now),
                )
                &&& final(self).metadata == old(self).metadata
                &&& final(self).owners == old(self).owners
                &&& forall|g: Holder, t: TokenIdentifier| t != token_identifier ==> (
                    #[trigger] final(self).operator_index_has(g, t) <==> old(
                    self).operator_index_has(g, t))
                &&& forall|g: Holder|
                    #[trigger] final(self).operator_index_has(g, token_identifier) <==> g
                        == operator
            },
    {
        if operator == caller {
            return Err(NftError::SelfApprove);
        }
        let owner = match self.owner_of(&token_identifier) {
            Ok(o) => o,
            Err(e) => { return Err(e); },
        };
        let is_owner = match owner {
            Some(h) => h == caller,
            None => false,
        };
        if !is_owner {
            return Err(NftError::UnauthorizedOwner);
        }
        let old_operator = match self.operator_of(&token_identifier) {
            Ok(o) => o,
            Err(_) => {
                proof { assert(false); }
                return Err(NftError::TokenNotFound);
            },
        };
        let ghost rec = old(self).tokens@[token_identifier].approved(Some(operator), caller, now);
        let ghost s1 = *self;
        self.update_operator_cache(&token_identifier, old_operator, Some(operator));
        let ghost s2 = *self;
        self.approve(caller, &token_identifier, Some(operator), now);
        let n = self.inc_tx();
        proof {
            let pre = *old(self);
            let post = *self;
            assert(pre.tokens@.contains_key(token_identifier));
            assert forall|g: Holder, t: TokenIdentifier| #[trigger] post.owner_index_has(g, t)
                <==> pre.owner_index_has(g, t) by {}
            assert forall|g: Holder| #[trigger] post.owner_index_has(g, token_identifier)
                <==> rec.owner == Some(g) by {
                assert(post.owner_index_has(g, token_identifier) <==> pre.owner_index_has(
                    g,
                    token_identifier,
                ));
            }
            assert forall|g: Holder, t: TokenIdentifier| t != token_identifier implies (
                #[trigger] post.operator_index_has(g, t) <==> pre.operator_index_has(g, t)) by {
                assert(s2.operator_index_has(g, t) <==> s1.operator_index_has(g, t));
            }
            assert forall|g: Holder| #[trigger] post.operator_index_has(g, token_identifier)
                <==> g == operator by {
                assert(s2.operator_index_has(g, token_identifier) <==> Some(operator) == Some(g));
            }
            Ledger::lemma_wf_after_token_update(pre, post, token_identifier, rec);
        }
        Ok(n)
    }

    /// Transfers `token_identifier` from the caller to `to`: reowns the
    /// token, revokes any standing approval, and counts one transaction.
    /// Only the current owner may transfer, and never to itself.
    pub fn dip721_transfer(
        &mut self,
        caller: Holder,
        to: Holder,
        token_identifier: TokenIdentifier,
        now: u64,
    ) -> (r: Result<u64, NftError>)
        requires
            old(self).wf(),
            old(self).tx_count < u64::MAX,
        ensures
            final(self).wf(),
            to == caller ==> r == Err::<u64, NftError>(NftError::SelfTransfer) && *final(self)
                == *old(self),
            to != caller && !old(self).tokens@.contains_key(token_identifier) ==> r == Err::<
                u64,
                NftError,
            >(NftError::TokenNotFound) && *final(self) == *old(self),
            to != caller && old(self).tokens@.contains_key(token_identifier) && old(
                self,
            ).tokens@[token_identifier].owner != Some(caller) ==> r == Err::<u64, NftError>(
                NftError::UnauthorizedOwner,
            ) && *final(self) == *old(self),
            to != caller && old(self).tokens@.contains_key(token_identifier) && old(
                self,
            ).tokens@[token_identifier].owner == Some(caller) ==> {
                &&& r == Ok::<u64, NftError>((old(self).tx_count + 1) as u64)
                &&& final(self).tx_count == old(self).tx_count + 1
                &&& final(self).tokens@ == old(self).tokens@.insert(
                    token_identifier,
                    old(self).tokens@[token_identifier].transferred(Some(to), caller, now),
                )
                &&& final(self).metadata == old(self).metadata
                &&& forall|g: Holder, t: TokenIdentifier| t != token_identifier ==> (
                    #[trigger] final(self).owner_index_has(g, t) <==> old(self).owner_index_has(
                    g, t))
                &&& forall|g: Holder| #[trigger] final(self).owner_index_has(g, token_identifier)
                    <==> g == to
                &&& forall|g: Holder, t: TokenIdentifier| t != token_identifier ==> (
                    #[trigger] final(self).operator_index_has(g, t) <==> old(
                    self).operator_index_has(g, t))
                &&& forall|g: Holder| !(#[trigger] final(self).operator_index_has(
                    g,
                    token_identifier,
                ))
            },
    {
        if to == caller {
            return Err(NftError::SelfTransfer);
        }
        let old_owner = match self.owner_of(&token_identifier) {
            Ok(o) => o,
            Err(e) => { return Err(e); },
        };
        let old_operator = match self.operator_of(&token_identifier) {
            Ok(o) => o,
            Err(_) => {
                proof { assert(false); }
                return Err(NftError::TokenNotFound);
            },
        };
        let is_owner = match old_owner {
            Some(h) => h == caller,
            None => false,
        };
        if !is_owner {
            return Err(NftError::UnauthorizedOwner);
        }
        let ghost rec = old(self).tokens@[token_identifier].transferred(Some(to), caller, now);
        self.update_owner_cache(&token_identifier, old_owner, Some(to));
        let ghost s2 = *self;
        proof {
            assert forall|g: Holder| #[trigger] self.operator_index_has(g, token_identifier)
                implies old_operator == Some(g) by {
                assert(old(self).operator_index_has(g, token_identifier));
            }
            match old_operator {
                Some(h) => {
                    assert(old(self).operator_index_has(h, token_identifier));
                    assert(self.operator_index_has(h, token_identifier));
                },
                None => {},
            }
        }
        self.update_operator_cache(&token_identifier, old_operator, None);
        let ghost s3 = *self;
        self.transfer(caller, &token_identifier, Some(to), now);
        let n = self.inc_tx();
        proof {
            let pre = *old(self);
            let post = *self;
            assert forall|g: Holder, t: TokenIdentifier| t != token_identifier implies (
                #[trigger] post.owner_index_has(g, t) <==> pre.owner_index_has(g, t)) by {
                assert(s2.owner_index_has(g, t) <==> pre.owner_index_has(g, t));
            }
            assert forall|g: Holder| #[trigger] post.owner_index_has(g, token_identifier)
                <==> rec.owner == Some(g) by {
                assert(s2.owner_index_has(g, token_identifier) <==> Some(to) == Some(g));
            }
            assert forall|g: Holder, t: TokenIdentifier| t != token_identifier implies (
                #[trigger] post.operator_index_has(g, t) <==> pre.operator_index_has(g, t)) by {
                assert(s3.operator_index_has(g, t) <==> s2.operator_index_has(g, t));
            }
            assert forall|g: Holder| #[trigger] post.operator_index_has(g, token_identifier)
                <==> rec.operator == Some(g) by {
                assert(s3.operator_index_has(g, token_identifier) <==> None::<Holder> == Some(g));
            }
            Ledger::lemma_wf_after_token_update(pre, post, token_identifier, rec);
        }
        Ok(n)
    }

    /// Transfers `token_identifier` on the owner's behalf: the caller must
    /// be the token's approved operator, `owner` must be its current owner,
    /// and the destination must differ from the owner. Revokes the approval
    /// it was made under, like every ownership change.
    pub fn dip721_transfer_from(
        &mut self,
        caller: Holder,
        owner: Holder,
        to: Holder,
        token_identifier: TokenIdentifier,
        now: u64,
    ) -> (r: Result<u64, NftError>)
        requires
            old(self).wf(),
            old(self).tx_count < u64::MAX,
        ensures
            final(self).wf(),
            owner == to ==> r == Err::<u64, NftError>(NftError::SelfTransfer) && *final(self)
                == *old(self),
            owner != to && !old(self).tokens@.contains_key(token_identifier) ==> r == Err::<
                u64,
                NftError,
            >(NftError::TokenNotFound) && *final(self) == *old(self),
            owner != to && old(self).tokens@.contains_key(token_identifier) && old(
                self,
            ).tokens@[token_identifier].owner != Some(owner) ==> r == Err::<u64, NftError>(
                NftError::UnauthorizedOwner,
            ) && *final(self) == *old(self),
            owner != to && old(self).tokens@.contains_key(token_identifier) && old(
                self,
            ).tokens@[token_identifier].owner == Some(owner) && old(
                self,
            ).tokens@[token_identifier].operator != Some(caller) ==> r == Err::<u64, NftError>(
                NftError::UnauthorizedOperator,
            ) && *final(self) == *old(self),
            owner != to && old(self).tokens@.contains_key(token_identifier) && old(
                self,
            ).tokens@[token_identifier].owner == Some(owner) && old(
                self,
            ).tokens@[token_identifier].operator == Some(caller) ==> {
                &&& r == Ok::<u64, NftError>((old(self).tx_count + 1) as u64)
                &&& final(self).tx_count == old(self).tx_count + 1
                &&& final(self).tokens@ == old(self).tokens@.insert(
                    token_identifier,
                    old(self).tokens@[token_identifier].transferred(Some(to), caller, now),
                )
                &&& final(self).metadata == old(self).metadata
                &&& forall|g: Holder, t: TokenIdentifier| t != token_identifier ==> (
                    #[trigger] final(self).owner_index_has(g, t) <==> old(self).owner_index_has(
                    g, t))
                &&& forall|g: Holder| #[trigger] final(self).owner_index_has(g, token_identifier)
                    <==> g == to
                &&& forall|g: Holder, t: TokenIdentifier| t != token_identifier ==> (
                    #[trigger] final(self).operator_index_has(g, t) <==> old(
                    self).operator_index_has(g, t))
                &&& forall|g: Holder| !(#[trigger] final(self).operator_index_has(
                    g,
                    token_identifier,
                ))
            },
    {
        if owner == to {
            return Err(NftError::SelfTransfer);
        }
        let old_owner = match self.owner_of(&token_identifier) {
            Ok(o) => o,
            Err(e) => { return Err(e); },
        };
        let old_operator = match self.operator_of(&token_identifier) {
            Ok(o) => o,
            Err(_) => {
                proof { assert(false); }
                return Err(NftError::TokenNotFound);
            },
        };
        let owner_matches = match old_owner {
            Some(h) => h == owner,
            None => false,
        };
        if !owner_matches {
            return Err(NftError::UnauthorizedOwner);
        }
        let operator_matches = match old_operator {
            Some(h) => h == caller,
            None => false,
        };
        if !operator_matches {
            return Err(NftError::UnauthorizedOperator);
        }
        let ghost rec = old(self).tokens@[token_identifier].transferred(Some(to), caller, now);
        self.update_owner_cache(&token_identifier, old_owner, Some(to));
        let ghost s2 = *self;
        proof {
            assert forall|g: Holder| #[trigger] self.operator_index_has(g, token_identifier)
                implies old_operator == Some(g) by {
                assert(old(self).operator_index_has(g, token_identifier));
            }
            match old_operator {
                Some(h) => {
                    assert(old(self).operator_index_has(h, token_identifier));
                    assert(self.operator_index_has(h, token_identifier));
                },
                None => {},
            }
        }
        self.update_operator_cache(&token_identifier, old_operator, None);
        let ghost s3 = *self;
        self.transfer(caller, &token_identifier, Some(to), now);
        let n = self.inc_tx();
        proof {
            let pre = *old(self);
            let post = *self;
            assert forall|g: Holder, t: TokenIdentifier| t != token_identifier implies (
                #[trigger] post.owner_index_has(g, t) <==> pre.owner_index_has(g, t)) by {
                assert(s2.owner_index_has(g, t) <==> pre.owner_index_has(g, t));
            }
            assert forall|g: Holder| #[trigger] post.owner_index_has(g, token_identifier)
                <==> rec.owner == Some(g) by {
                assert(s2.owner_index_has(g, token_identifier) <==> Some(to) == Some(g));
            }
            assert forall|g: Holder, t: TokenIdentifier| t != token_identifier implies (
                #[trigger] post.operator_index_has(g, t) <==> pre.operator_index_has(g, t)) by {
                assert(s3.operator_index_has(g, t) <==> s2.operator_index_has(g, t));
            }
            assert forall|g: Holder| #[trigger] post.operator_index_has(g, token_identifier)
                <==> rec.operator == Some(g) by {
                assert(s3.operator_index_has(g, token_identifier) <==> None::<Holder> == Some(g));
            }
            Ledger::lemma_wf_after_token_update(pre, post, token_identifier, rec);
        }
        Ok(n)
    }

    /// Burns `token_identifier`: unlists it from both indices, erases owner
    /// and operator, sets the terminal flag, and counts one transaction.
    /// Only the current owner may burn; a burned token has no owner, so a
    /// second burn always fails with `UnauthorizedOwner`.
    pub fn dip721_burn(&mut self, caller: Holder, token_identifier: TokenIdentifier, now: u64) -> (r:
        Result<u64, NftError>)
        requires
            old(self).wf(),
            old(self).tx_count < u64::MAX,
        ensures
            final(self).wf(),
            !old(self).tokens@.contains_key(token_identifier) ==> r == Err::<u64, NftError>(
                NftError::TokenNotFound,
            ) && *final(self) == *old(self),
            old(self).tokens@.contains_key(token_identifier) && old(
                self,
            ).tokens@[token_identifier].owner != Some(caller) ==> r == Err::<u64, NftError>(
                NftError::UnauthorizedOwner,
            ) && *final(self) == *old(self),
            old(self).tokens@.contains_key(token_identifier) && old(
                self,
            ).tokens@[token_identifier].owner == Some(caller) ==> {
                &&& r == Ok::<u64, NftError>((old(self).tx_count + 1) as u64)
                &&& final(self).tx_count == old(self).tx_count + 1
                &&& final(self).tokens@ == old(self).tokens@.insert(
                    token_identifier,
                    old(self).tokens@[token_identifier].burned(caller, now),
                )
                &&& final(self).metadata == old(self).metadata
                &&& forall|g: Holder, t: TokenIdentifier| t != token_identifier ==> (
                    #[trigger] final(self).owner_index_has(g, t) <==> old(self).owner_index_has(
                    g, t))
                &&& forall|g: Holder| !(#[trigger] final(self).owner_index_has(
                    g,
                    token_identifier,
                ))
                &&& forall|g: Holder, t: TokenIdentifier| t != token_identifier ==> (
                    #[trigger] final(self).operator_index_has(g, t) <==> old(
                    self).operator_index_has(g, t))
                &&& forall|g: Holder| !(#[trigger] final(self).operator_index_has(
                    g,
                    token_identifier,
                ))
            },
    {
        let old_owner = match self.owner_of(&token_identifier) {
            Ok(o) => o,
            Err(e) => { return Err(e); },
        };
        let is_owner = match old_owner {
            Some(h) => h == caller,
            None => false,
        };
        if !is_owner {
            return Err(NftError::UnauthorizedOwner);
        }
        let old_operator = match self.operator_of(&token_identifier) {
            Ok(o) => o,
            Err(_) => {
                proof { assert(false); }
                return Err(NftError::TokenNotFound);
            },
        };
        let ghost rec = old(self).tokens@[token_identifier].burned(caller, now);
        self.update_owner_cache(&token_identifier, old_owner, None);
        let ghost s2 = *self;
        proof {
            assert forall|g: Holder| #[trigger] self.operator_index_has(g, token_identifier)
                implies old_operator == Some(g) by {
                assert(old(self).operator_index_has(g, token_identifier));
            }
            match old_operator {
                Some(h) => {
                    assert(old(self).operator_index_has(h, token_identifier));
                    assert(self.operator_index_has(h, token_identifier));
                },
                None => {},
            }
        }
        self.update_operator_cache(&token_identifier, old_operator, None);
        let ghost s3 = *self;
        self.burn(caller, &token_identifier, now);
        let n = self.inc_tx();
        proof {
            let pre = *old(self);
            let post = *self;
            assert forall|g: Holder, t: TokenIdentifier| t != token_identifier implies (
                #[trigger] post.owner_index_has(g, t) <==> pre.owner_index_has(g, t)) by {
                assert(s2.owner_index_has(g, t) <==> pre.owner_index_has(g, t));
            }
            assert forall|g: Holder| #[trigger] post.owner_index_has(g, token_identifier)
                <==> rec.owner == Some(g) by {
                assert(s2.owner_index_has(g, token_identifier) <==> None::<Holder> == Some(g));
            }
            assert forall|g: Holder, t: TokenIdentifier| t != token_identifier implies (
                #[trigger] post.operator_index_has(g, t) <==> pre.operator_index_has(g, t)) by {
                assert(s3.operator_index_has(g, t) <==> s2.operator_index_has(g, t));
            }
            assert forall|g: Holder| #[trigger] post.operator_index_has(g, token_identifier)
                <==> rec.operator == Some(g) by {
                assert(s3.operator_index_has(g, token_identifier) <==> None::<Holder> == Some(g));
            }
            Ledger::lemma_wf_after_token_update(pre, post, token_identifier, rec);
        }
        Ok(n)
    }

    /// The externally exposed name of `dip721_mint`.
    pub fn mint(
        &mut self,
        caller: Holder,
        to: Holder,
        token_identifier: TokenIdentifier,
        properties: Vec<(String, GenericValue)>,
        now: u64,
    ) -> (r: Result<u64, NftError>)
        requires
            old(self).wf(),
            old(self).tx_count < u64::MAX,
        ensures
            final(self).wf(),
            old(self).tokens@.contains_key(token_identifier) ==> r == Err::<u64, NftError>(
                NftError::ExistedNFT,
            ) && *final(self) == *old(self),
            !old(self).tokens@.contains_key(token_identifier) ==> {
                &&& r == Ok::<u64, NftError>((old(self).tx_count + 1) as u64)
                &&& final(self).tx_count == old(self).tx_count + 1
                &&& final(self).tokens@ == old(self).tokens@.insert(
                    token_identifier,
                    TokenMetadata::minted(token_identifier, to, properties, caller, now),
                )
                &&& final(self).metadata == old(self).metadata
                &&& forall|g: Holder, t: TokenIdentifier| t != token_identifier ==> (
                    #[trigger] final(self).owner_index_has(g, t) <==> old(self).owner_index_has(
                    g, t))
                &&& forall|g: Holder| #[trigger] final(self).owner_index_has(g, token_identifier)
                    <==> g == to
                &&& forall|g: Holder, t: TokenIdentifier|
                    #[trigger] final(self).operator_index_has(g, t) <==> old(
                    self).operator_index_has(g, t)
            },
    {
        self.dip721_mint(caller, to, token_identifier, properties, now)
    }

    /// Whether every token currently owned by `owner` carries `operator` as
    /// its approved operator. A holder owning no tokens satisfies this
    /// vacuously.
    pub open spec fn approved_for_all(self, owner: Holder, operator: Holder) -> bool {
        forall|t: TokenIdentifier| (#[trigger] self.tokens@.contains_key(t))
            && self.tokens@[t].owner == Some(owner) ==> self.tokens@[t].operator == Some(operator)
    }

    /// Whether `operator` stands approved on every token `owner` currently
    /// owns; an owner of zero tokens is vacuously approved-for-all.
    pub fn dip721_is_approved_for_all(&self, owner: Holder, operator: Holder) -> (r: Result<
        bool,
        NftError,
    >)
        requires
            self.wf(),
        ensures
            r == Ok::<bool, NftError>(self.approved_for_all(owner, operator)),
    {
        let ids = match self.owner_token_identifiers(&owner) {
            Ok(v) => v,
            Err(_) => {
                proof {
                    assert forall|t: TokenIdentifier| (#[trigger] self.tokens@.contains_key(t))
                        && self.tokens@[t].owner == Some(owner) implies self.tokens@[t].operator
                        == Some(operator) by {
                        assert(self.owner_index_has(owner, t));
                    }
                }
                return Ok(true);
            },
        };
        let mut i: usize = 0;
        while i < ids.len()
            invariant
                self.wf(),
                self.owners@.contains_key(owner),
                ids == &self.owners@[owner],
                i <= ids@.len(),
                forall|j: int| 0 <= j < i ==> #[trigger] self.tokens@[ids@[j]].operator == Some(
                    operator,
                ),
            decreases ids@.len() - i,
        {
            let id = ids[i];
            proof {
                assert(ids@.contains(id));
                assert(self.owner_index_has(owner, id));
            }
            let current = match self.operator_of(&id) {
                Ok(o) => o,
                Err(_) => {
                    proof { assert(false); }
                    return Err(NftError::TokenNotFound);
                },
            };
            let matches_operator = match current {
                Some(h) => h == operator,
                None => false,
            };
            if !matches_operator {
                proof {
                    assert(self.tokens@.contains_key(id));
                    assert(self.tokens@[id].owner == Some(owner));
                    assert(self.tokens@[id].operator != Some(operator));
                }
                return Ok(false);
            }
            i = i + 1;
        }
        proof {
            assert forall|t: TokenIdentifier| (#[trigger] self.tokens@.contains_key(t))
                && self.tokens@[t].owner == Some(owner) implies self.tokens@[t].operator == Some(
                operator,
            ) by {
                assert(self.owner_index_has(owner, t));
                assert(ids@.contains(t));
                let j = choose|j: int| 0 <= j < ids@.len() && ids@[j] == t;
                assert(self.tokens@[ids@[j]].operator == Some(operator));
            }
        }
        Ok(true)
    }

    /// Grants or revokes `operator`'s approval on every token the caller
    /// currently owns, as one transaction. A caller owning no tokens
    /// succeeds without effect; approving oneself is rejected.
    pub fn dip721_set_approval_for_all(
        &mut self,
        caller: Holder,
        operator: Holder,
        is_approved: bool,
        now: u64,
    ) -> (r: Result<u64, NftError>)
        requires
            old(self).wf(),
            old(self).tx_count < u64::MAX,
        ensures
            final(self).wf(),
            operator == caller ==> r == Err::<u64, NftError>(NftError::SelfApprove) && *final(self)
                == *old(self),
            operator != caller ==> ({
                let new_op: Option<Holder> = if is_approved { Some(operator) } else { None };
                &&& r == Ok::<u64, NftError>((old(self).tx_count + 1) as u64)
                &&& final(self).tx_count == old(self).tx_count + 1
                &&& final(self).metadata == old(self).metadata
                &&& final(self).owners == old(self).owners
                &&& forall|t: TokenIdentifier| final(self).tokens@.contains_key(t) <==> old(
                    self).tokens@.contains_key(t)
                &&& forall|t: TokenIdentifier| #[trigger] old(self).tokens@.contains_key(t)
                    ==> final(self).tokens@[t] == (if old(self).tokens@[t].owner == Some(caller) {
                        old(self).tokens@[t].approved(new_op, caller, now)
                    } else {
                        old(self).tokens@[t]
                    })
                &&& forall|g: Holder, t: TokenIdentifier|
                    #[trigger] final(self).operator_index_has(g, t) <==> (if old(
                        self,
                    ).tokens@.contains_key(t) && old(self).tokens@[t].owner == Some(caller) {
                        is_approved && g == operator
                    } else {
                        old(self).operator_index_has(g, t)
                    })
            }),
    {
        if operator == caller {
            return Err(NftError::SelfApprove);
        }
        let new_operator: Option<Holder> = if is_approved {
            Some(operator)
        } else {
            None
        };
        let ghost init = *old(self);
        let snapshot: Vec<TokenIdentifier> = match self.owner_token_identifiers(&caller) {
            Ok(v) => ids_clone(v),
            Err(_) => Vec::new(),
        };
        let ghost snap = snapshot@;
        proof {
            if init.owners@.contains_key(caller) {
                assert(snap == init.owners@[caller]@);
            }
            assert(snap.no_duplicates());
            assert forall|t: TokenIdentifier| #[trigger] snap.contains(t) <==> (
                init.tokens@.contains_key(t) && init.tokens@[t].owner == Some(caller)) by {
                if snap.contains(t) {
                    assert(init.owner_index_has(caller, t));
                }
                if init.tokens@.contains_key(t) && init.tokens@[t].owner == Some(caller) {
                    assert(init.owner_index_has(caller, t));
                }
            }
        }
        // success is decided here: the whole batch counts as one transaction
        let n = self.inc_tx();
        proof {
            assert forall|g: Holder, t: TokenIdentifier| #[trigger] self.owner_index_has(g, t)
                <==> init.owner_index_has(g, t) by {}
            assert forall|g: Holder, t: TokenIdentifier| #[trigger] self.operator_index_has(g, t)
                <==> init.operator_index_has(g, t) by {}
            assert(self.tokens_wf());
            assert(self.owner_index_coherent());
            assert(self.owner_index_shape());
            assert(self.operator_index_coherent());
            assert(self.operator_index_shape());
        }
        let mut i: usize = 0;
        while i < snapshot.len()
            invariant
                snapshot@ == snap,
                i <= snap.len(),
                snap.no_duplicates(),
                forall|t: TokenIdentifier| #[trigger] snap.contains(t) <==> (
                    init.tokens@.contains_key(t) && init.tokens@[t].owner == Some(caller)),
                init.wf(),
                self.wf(),
                self.metadata == init.metadata,
                self.owners == init.owners,
                self.tx_count == init.tx_count + 1,
                n == init.tx_count + 1,
                new_operator == (if is_approved { Some(operator) } else { None::<Holder> }),
                forall|t: TokenIdentifier| self.tokens@.contains_key(t) <==> init.tokens@.contains_key(t),
                forall|t: TokenIdentifier| #[trigger] init.tokens@.contains_key(t)
                    ==> self.tokens@[t] == (if snap.take(i as int).contains(t) {
                        init.tokens@[t].approved(new_operator, caller, now)
                    } else {
                        init.tokens@[t]
                    }),
                forall|g: Holder, t: TokenIdentifier| #[trigger] self.operator_index_has(g, t)
                    <==> (if snap.take(i as int).contains(t) {
                        is_approved && g == operator
                    } else {
                        init.operator_index_has(g, t)
                    }),
            decreases snap.len() - i,
        {
            let tid = snapshot[i];
            proof {
                assert(snap[i as int] == tid);
                assert(snap.contains(tid));
                if snap.take(i as int).contains(tid) {
                    let k = choose|k: int|
                        0 <= k < i && #[trigger] snap.take(i as int)[k] == tid;
                    assert(snap[k] == snap[i as int]);
                    assert(false);
                }
                assert(self.tokens@[tid] == init.tokens@[tid]);
            }
            let old_operator = match self.operator_of(&tid) {
                Ok(o) => o,
                Err(_) => {
                    proof { assert(false); }
                    return Err(NftError::TokenNotFound);
                },
            };
            let ghost s1 = *self;
            let ghost rec = init.tokens@[tid].approved(new_operator, caller, now);
            self.update_operator_cache(&tid, old_operator, new_operator);
            let ghost s2 = *self;
            self.approve(caller, &tid, new_operator, now);
            proof {
                let post = *self;
                assert(post.tokens@ == s1.tokens@.insert(tid, rec));
                assert forall|g: Holder, t: TokenIdentifier| #[trigger] post.owner_index_has(g, t)
                    <==> s1.owner_index_has(g, t) by {}
                assert forall|g: Holder| #[trigger] post.owner_index_has(g, tid)
                    <==> rec.owner == Some(g) by {
                    assert(post.owner_index_has(g, tid) <==> s1.owner_index_has(g, tid));
                }
                assert forall|g: Holder, t: TokenIdentifier| t != tid implies (
                    #[trigger] post.operator_index_has(g, t) <==> s1.operator_index_has(g, t)) by {
                    assert(s2.operator_index_has(g, t) <==> s1.operator_index_has(g, t));
                }
                assert forall|g: Holder| #[trigger] post.operator_index_has(g, tid)
                    <==> rec.operator == Some(g) by {
                    assert(s2.operator_index_has(g, tid) <==> new_operator == Some(g));
                }
                Ledger::lemma_wf_after_token_update(s1, post, tid, rec);
                assert(snap.take(i + 1) =~= snap.take(i as int).push(tid));
                assert forall|t: TokenIdentifier| #[trigger] init.tokens@.contains_key(t)
                    implies post.tokens@[t] == (if snap.take(i + 1).contains(t) {
                        init.tokens@[t].approved(new_operator, caller, now)
                    } else {
                        init.tokens@[t]
                    }) by {
                    if t != tid {
                        assert(post.tokens@[t] == s1.tokens@[t]);
                    }
                }
                assert forall|g: Holder, t: TokenIdentifier|
                    #[trigger] post.operator_index_has(g, t) <==> (if snap.take(i + 1).contains(
                        t,
                    ) {
                        is_approved && g == operator
                    } else {
                        init.operator_index_has(g, t)
                    }) by {
                    assert(snap.take(i + 1).contains(t) <==> snap.take(i as int).contains(t) || t
                        == tid);
                    if t != tid {
                        assert(post.operator_index_has(g, t) <==> s1.operator_index_has(g, t));
                        assert(s1.operator_index_has(g, t) <==> (if snap.take(i as int).contains(
                            t,
                        ) {
                            is_approved && g == operator
                        } else {
                            init.operator_index_has(g, t)
                        }));
                    } else {
                        assert(post.operator_index_has(g, tid) <==> rec.operator == Some(g));
                        assert(rec.operator == new_operator);
                        assert(snap.take(i + 1).contains(tid));
                    }
                }
            }
            i = i + 1;
        }
        proof {
            assert(snap.take(snap.len() as int) =~= snap);
        }
        Ok(n)
    }

    /// How many tokens `owner` currently owns, or `OwnerNotFound` for a
    /// holder owning none.
    pub fn dip721_balance_of(&self, owner: &Holder) -> (r: Result<u64, NftError>)
        ensures
            match r {
                Ok(n) => self.owners@.contains_key(*owner) && n == self.owners@[*owner]@.len(),
                Err(e) => !self.owners@.contains_key(*owner) && e == NftError::OwnerNotFound,
            },
    {
        match self.owner_token_identifiers(owner) {
            Ok(ids) => Ok(ids.len() as u64),
            Err(e) => Err(e),
        }
    }
}

} // verus!
