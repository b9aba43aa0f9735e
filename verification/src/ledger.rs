//! The ledger state: the authoritative token table, the owner and operator
//! secondary indices kept in agreement with it, the metadata singleton, and
//! the transaction counter.

use std::collections::HashMap;
use vstd::prelude::*;

use crate::types::{Holder, Metadata, NftError, TokenIdentifier, TokenMetadata};

verus! {

broadcast use vstd::std_specs::hash::group_hash_axioms, vstd::seq_lib::group_seq_properties;

/// Whether `v` lists the identifier `x`.
fn ids_contain(v: &Vec<TokenIdentifier>, x: TokenIdentifier) -> (b: bool)
    ensures
        b == v@.contains(x),
{
    let mut i: usize = 0;
    while i < v.len()
        invariant
            i <= v@.len(),
            forall|j: int| 0 <= j < i ==> v@[j] != x,
        decreases v@.len() - i,
    {
        if v[i] == x {
            return true;
        }
        i = i + 1;
    }
    false
}

/// A copy of `v` with every occurrence of `x` removed.
fn ids_remove(v: &Vec<TokenIdentifier>, x: TokenIdentifier) -> (r: Vec<TokenIdentifier>)
    requires
        v@.no_duplicates(),
    ensures
        r@.no_duplicates(),
        forall|y: TokenIdentifier| #[trigger] r@.contains(y) <==> v@.contains(y) && y != x,
        v@.contains(x) ==> r@.len() == v@.len() - 1,
        !v@.contains(x) ==> r@ == v@,
{
    let mut r: Vec<TokenIdentifier> = Vec::new();
    let mut i: usize = 0;
    while i < v.len()
        invariant
            i <= v@.len(),
            v@.no_duplicates(),
            r@.no_duplicates(),
            forall|y: TokenIdentifier| #[trigger] r@.contains(y) <==> v@.take(i as int).contains(
                y,
            ) && y != x,
            v@.take(i as int).contains(x) ==> r@.len() == i - 1,
            !v@.take(i as int).contains(x) ==> r@ == v@.take(i as int),
        decreases v@.len() - i,
    {
        let ghost prefix = v@.take(i as int);
        let ghost r0 = r@;
        let e = v[i];
        proof {
            assert(v@.take(i + 1) =~= prefix.push(e));
            // `e` cannot already be listed in the prefix
            if prefix.contains(e) {
                let k = choose|k: int| 0 <= k < prefix.len() && prefix[k] == e;
                assert(v@[k] == v@[i as int]);
                assert(false);
            }
        }
        if e != x {
            r.push(e);
            proof {
                assert(r@ == r0.push(e));
                assert(!r0.contains(e));
                assert forall|a: int, b: int|
                    0 <= a < r@.len() && 0 <= b < r@.len() && a != b implies r@[a] != r@[b] by {
                    if a == r0.len() && b < r0.len() && r@[b] == e {
                        assert(r0[b] == e);
                        assert(r0.contains(e));
                    }
                    if b == r0.len() && a < r0.len() && r@[a] == e {
                        assert(r0[a] == e);
                        assert(r0.contains(e));
                    }
                }
            }
        }
        i = i + 1;
    }
    proof {
        assert(v@.take(v@.len() as int) =~= v@);
        if !v@.contains(x) {
            assert(r@ =~= v@);
        }
    }
    r
}

/// A copy of `v` with `x` appended unless it is already listed.
fn ids_insert(v: Vec<TokenIdentifier>, x: TokenIdentifier) -> (r: Vec<TokenIdentifier>)
    requires
        v@.no_duplicates(),
    ensures
        r@.no_duplicates(),
        forall|y: TokenIdentifier| #[trigger] r@.contains(y) <==> v@.contains(y) || y == x,
        r@.len() > 0,
{
    let mut r = v;
    if !ids_contain(&r, x) {
        let ghost r0 = r@;
        r.push(x);
        proof {
            assert(r@ == r0.push(x));
            assert forall|a: int, b: int|
                0 <= a < r@.len() && 0 <= b < r@.len() && a != b implies r@[a] != r@[b] by {
                if a == r0.len() && b < r0.len() && r@[b] == x {
                    assert(r0[b] == x);
                    assert(r0.contains(x));
                }
                if b == r0.len() && a < r0.len() && r@[a] == x {
                    assert(r0[a] == x);
                    assert(r0.contains(x));
                }
            }
        }
    } else {
        proof {
            assert(r@.contains(x));
        }
    }
    r
}

/// An element-wise copy of an identifier list.
pub(crate) fn ids_clone(v: &Vec<TokenIdentifier>) -> (r: Vec<TokenIdentifier>)
    ensures
        r@ == v@,
{
    let mut r: Vec<TokenIdentifier> = Vec::new();
    let mut i: usize = 0;
    while i < v.len()
        invariant
            i <= v@.len(),
            r@ == v@.take(i as int),
        decreases v@.len() - i,
    {
        r.push(v[i]);
        proof {
            assert(r@ =~= v@.take(i + 1));
        }
        i = i + 1;
    }
    proof {
        assert(v@.take(v@.len() as int) =~= v@);
    }
    r
}

/// The whole state of the token ledger.
///
/// `tokens` is the authoritative record of every token ever minted (burn is
/// a state, not a removal). `owners` and `operators` are caches mapping a
/// holder to the identifiers of the tokens it currently owns / is approved
/// to manage; they must always agree with the `owner` / `operator` fields of
/// the token table, and an entry is deleted as soon as it becomes empty.
/// `tx_count` increases by exactly one per successful mutating call.
pub struct Ledger {
    pub metadata: Metadata,
    pub tokens: HashMap<TokenIdentifier, TokenMetadata>,
    pub owners: HashMap<Holder, Vec<TokenIdentifier>>,
    pub operators: HashMap<Holder, Vec<TokenIdentifier>>,
    pub tx_count: u64,
}

impl Ledger {
    /// The owner index has an entry for `h` that lists `t`.
    pub open spec fn owner_index_has(self, h: Holder, t: TokenIdentifier) -> bool {
        self.owners@.contains_key(h) && self.owners@[h]@.contains(t)
    }

    /// The operator index has an entry for `h` that lists `t`.
    pub open spec fn operator_index_has(self, h: Holder, t: TokenIdentifier) -> bool {
        self.operators@.contains_key(h) && self.operators@[h]@.contains(t)
    }

    /// Every stored record carries its own key, and a burned token holds
    /// neither owner nor operator.
    pub open spec fn tokens_wf(self) -> bool {
        forall|t: TokenIdentifier| #[trigger] self.tokens@.contains_key(t) ==> {
            &&& self.tokens@[t].token_identifier == t
            &&& (self.tokens@[t].is_burned ==> self.tokens@[t].owner is None
                && self.tokens@[t].operator is None)
        }
    }

    /// Owner-index agreement with the token table: every owned token is
    /// listed under its owner, and everything listed is a stored token owned
    /// by exactly that holder.
    pub open spec fn owner_index_coherent(self) -> bool {
        &&& forall|t: TokenIdentifier| #[trigger] self.tokens@.contains_key(t)
            ==> match self.tokens@[t].owner {
                Some(h) => self.owner_index_has(h, t),
                None => true,
            }
        &&& forall|h: Holder, t: TokenIdentifier| #[trigger] self.owner_index_has(h, t)
            ==> self.tokens@.contains_key(t) && self.tokens@[t].owner == Some(h)
    }

    /// Operator-index agreement with the token table, symmetric to
    /// `owner_index_coherent`.
    pub open spec fn operator_index_coherent(self) -> bool {
        &&& forall|t: TokenIdentifier| #[trigger] self.tokens@.contains_key(t)
            ==> match self.tokens@[t].operator {
                Some(h) => self.operator_index_has(h, t),
                None => true,
            }
        &&& forall|h: Holder, t: TokenIdentifier| #[trigger] self.operator_index_has(h, t)
            ==> self.tokens@.contains_key(t) && self.tokens@[t].operator == Some(h)
    }

    /// Index entries list each token at most once and are deleted on empty.
    pub open spec fn owner_index_shape(self) -> bool {
        forall|h: Holder| #[trigger] self.owners@.contains_key(h)
            ==> self.owners@[h]@.len() > 0 && self.owners@[h]@.no_duplicates()
    }

    /// Shape of the operator index, symmetric to `owner_index_shape`.
    pub open spec fn operator_index_shape(self) -> bool {
        forall|h: Holder| #[trigger] self.operators@.contains_key(h)
            ==> self.operators@[h]@.len() > 0 && self.operators@[h]@.no_duplicates()
    }

    /// The ledger invariant: the token table is self-consistent and both
    /// secondary indices agree with it.
    pub open spec fn wf(self) -> bool {
        &&& self.tokens_wf()
        &&& self.owner_index_coherent()
        &&& self.owner_index_shape()
        &&& self.operator_index_coherent()
        &&& self.operator_index_shape()
    }

    /// An empty ledger: no tokens, no index entries, counter at zero.
    pub fn new() -> (l: Ledger)
        ensures
            l.wf(),
            l.is_empty_ledger(),
    {
        Ledger {
            metadata: Metadata {
                name: None,
                logo: None,
                symbol: None,
                custodians: Vec::new(),
                created_at: 0,
                upgraded_at: 0,
            },
            tokens: HashMap::new(),
            owners: HashMap::new(),
            operators: HashMap::new(),
            tx_count: 0,
        }
    }

    /// Spells out what an empty ledger looks like; `new` and `default`
    /// both build one.
    pub open spec fn is_empty_ledger(self) -> bool {
        &&& self.tokens@ == Map::<TokenIdentifier, TokenMetadata>::empty()
        &&& self.owners@ == Map::<Holder, Vec<TokenIdentifier>>::empty()
        &&& self.operators@ == Map::<Holder, Vec<TokenIdentifier>>::empty()
        &&& self.tx_count == 0
        &&& self.metadata.name is None
        &&& self.metadata.logo is None
        &&& self.metadata.symbol is None
        &&& self.metadata.custodians@.len() == 0
        &&& self.metadata.created_at == 0
        &&& self.metadata.upgraded_at == 0
    }

    /// A read-only view of the metadata singleton.
    pub fn metadata(&self) -> (m: &Metadata)
        ensures
            m == self.metadata,
    {
        &self.metadata
    }

    /// Total supply: how many tokens were ever minted, burned ones included.
    pub fn tokens_count(&self) -> (n: usize)
        ensures
            n == self.tokens@.len(),
    {
        self.tokens.len()
    }

    /// The number of successful mutating calls so far.
    pub fn tx_count(&self) -> (n: u64)
        ensures
            n == self.tx_count,
    {
        self.tx_count
    }

    /// Whether a token with this identifier was ever minted.
    pub fn is_token_existed(&self, token_identifier: &TokenIdentifier) -> (b: bool)
        ensures
            b == self.tokens@.contains_key(*token_identifier),
    {
        self.tokens.contains_key(token_identifier)
    }

    /// The full record of one token, or `TokenNotFound`.
    pub fn token_metadata(&self, token_identifier: &TokenIdentifier) -> (r: Result<
        &TokenMetadata,
        NftError,
    >)
        ensures
            match r {
                Ok(m) => self.tokens@.contains_key(*token_identifier)
                    && *m == self.tokens@[*token_identifier],
                Err(e) => !self.tokens@.contains_key(*token_identifier)
                    && e == NftError::TokenNotFound,
            },
    {
        match self.tokens.get(token_identifier) {
            Some(m) => Ok(m),
            None => Err(NftError::TokenNotFound),
        }
    }

    /// The number of holders that currently own at least one token.
    pub fn owners_count(&self) -> (n: usize)
        ensures
            n == self.owners@.len(),
    {
        self.owners.len()
    }

    /// Identifiers of the tokens currently owned by `owner`, or
    /// `OwnerNotFound` when `owner` owns nothing.
    pub fn owner_token_identifiers(&self, owner: &Holder) -> (r: Result<
        &Vec<TokenIdentifier>,
        NftError,
    >)
        ensures
            match r {
                Ok(v) => self.owners@.contains_key(*owner) && *v == self.owners@[*owner],
                Err(e) => !self.owners@.contains_key(*owner) && e == NftError::OwnerNotFound,
            },
    {
        match self.owners.get(owner) {
            Some(v) => Ok(v),
            None => Err(NftError::OwnerNotFound),
        }
    }

    /// The current owner of a token (`None` once it is burned), or
    /// `TokenNotFound` for an identifier never minted.
    pub fn owner_of(&self, token_identifier: &TokenIdentifier) -> (r: Result<
        Option<Holder>,
        NftError,
    >)
        ensures
            match r {
                Ok(o) => self.tokens@.contains_key(*token_identifier)
                    && o == self.tokens@[*token_identifier].owner,
                Err(e) => !self.tokens@.contains_key(*token_identifier)
                    && e == NftError::TokenNotFound,
            },
    {
        match self.tokens.get(token_identifier) {
            Some(m) => Ok(m.owner),
            None => Err(NftError::TokenNotFound),
        }
    }

    /// The full records of the tokens currently owned by `owner`.
    pub fn owner_token_metadata<'a>(&'a self, owner: &Holder) -> (r: Result<
        Vec<&'a TokenMetadata>,
        NftError,
    >)
        requires
            self.wf(),
        ensures
            match r {
                Ok(v) => {
                    &&& self.owners@.contains_key(*owner)
                    &&& v@.len() == self.owners@[*owner]@.len()
                    &&& forall|j: int|
                        0 <= j < v@.len() ==> *(#[trigger] v@[j]) == self.tokens@[self.owners@[*owner]@[j]]
                },
                Err(e) => !self.owners@.contains_key(*owner) && e == NftError::OwnerNotFound,
            },
    {
        let ids = match self.owners.get(owner) {
            Some(v) => v,
            None => { return Err(NftError::OwnerNotFound); },
        };
        let mut out: Vec<&TokenMetadata> = Vec::new();
        let mut i: usize = 0;
        while i < ids.len()
            invariant
                self.wf(),
                self.owners@.contains_key(*owner),
                ids == &self.owners@[*owner],
                i <= ids@.len(),
                out@.len() == i,
                forall|j: int|
                    0 <= j < i ==> *(#[trigger] out@[j]) == self.tokens@[ids@[j]],
            decreases ids@.len() - i,
        {
            let id = ids[i];
            proof {
                assert(ids@.contains(id));
                assert(self.owner_index_has(*owner, id));
            }
            match self.tokens.get(&id) {
                Some(m) => { out.push(m); },
                None => { proof { assert(false); } },
            }
            i = i + 1;
        }
        Ok(out)
    }

    /// Identifiers of the tokens `operator` is currently approved to manage,
    /// or `OperatorNotFound` when there are none.
    pub fn operator_token_identifiers(&self, operator: &Holder) -> (r: Result<
        &Vec<TokenIdentifier>,
        NftError,
    >)
        ensures
            match r {
                Ok(v) => self.operators@.contains_key(*operator) && *v == self.operators@[*operator],
                Err(e) => !self.operators@.contains_key(*operator) && e
                    == NftError::OperatorNotFound,
            },
    {
        match self.operators.get(operator) {
            Some(v) => Ok(v),
            None => Err(NftError::OperatorNotFound),
        }
    }

    /// The current operator of a token (`None` when no approval stands), or
    /// `TokenNotFound` for an identifier never minted.
    pub fn operator_of(&self, token_identifier: &TokenIdentifier) -> (r: Result<
        Option<Holder>,
        NftError,
    >)
        ensures
            match r {
                Ok(o) => self.tokens@.contains_key(*token_identifier)
                    && o == self.tokens@[*token_identifier].operator,
                Err(e) => !self.tokens@.contains_key(*token_identifier)
                    && e == NftError::TokenNotFound,
            },
    {
        match self.tokens.get(token_identifier) {
            Some(m) => Ok(m.operator),
            None => Err(NftError::TokenNotFound),
        }
    }

    /// The full records of the tokens `operator` is approved to manage.
    pub fn operator_token_metadata<'a>(&'a self, operator: &Holder) -> (r: Result<
        Vec<&'a TokenMetadata>,
        NftError,
    >)
        requires
            self.wf(),
        ensures
            match r {
                Ok(v) => {
                    &&& self.operators@.contains_key(*operator)
                    &&& v@.len() == self.operators@[*operator]@.len()
                    &&& forall|j: int|
                        0 <= j < v@.len() ==> *(#[trigger] v@[j]) == self.tokens@[self.operators@[*operator]@[j]]
                },
                Err(e) => !self.operators@.contains_key(*operator) && e
                    == NftError::OperatorNotFound,
            },
    {
        let ids = match self.operators.get(operator) {
            Some(v) => v,
            None => { return Err(NftError::OperatorNotFound); },
        };
        let mut out: Vec<&TokenMetadata> = Vec::new();
        let mut i: usize = 0;
        while i < ids.len()
            invariant
                self.wf(),
                self.operators@.contains_key(*operator),
                ids == &self.operators@[*operator],
                i <= ids@.len(),
                out@.len() == i,
                forall|j: int|
                    0 <= j < i ==> *(#[trigger] out@[j]) == self.tokens@[ids@[j]],
            decreases ids@.len() - i,
        {
            let id = ids[i];
            proof {
                assert(ids@.contains(id));
                assert(self.operator_index_has(*operator, id));
            }
            match self.tokens.get(&id) {
                Some(m) => { out.push(m); },
                None => { proof { assert(false); } },
            }
            i = i + 1;
        }
        Ok(out)
    }

    /// Drops `tid` from `h`'s owner-index entry, deleting the entry when it
    /// becomes empty.
    fn owner_entry_remove(&mut self, h: Holder, tid: TokenIdentifier)
        requires
            old(self).owner_index_shape(),
            old(self).owner_index_has(h, tid),
        ensures
            final(self).owner_index_shape(),
            final(self).tokens == old(self).tokens,
            final(self).operators == old(self).operators,
            final(self).metadata == old(self).metadata,
            final(self).tx_count == old(self).tx_count,
            forall|g: Holder, t: TokenIdentifier| #[trigger] final(self).owner_index_has(g, t)
                <==> old(self).owner_index_has(g, t) && !(g == h && t == tid),
    {
        match self.owners.remove(&h) {
            Some(entry) => {
                let rest = ids_remove(&entry, tid);
                if rest.len() > 0 {
                    self.owners.insert(h, rest);
                }
            },
            None => { proof { assert(false); } },
        }
    }

    /// Adds `tid` to `h`'s owner-index entry, creating the entry on demand.
    fn owner_entry_add(&mut self, h: Holder, tid: TokenIdentifier)
        requires
            old(self).owner_index_shape(),
        ensures
            final(self).owner_index_shape(),
            final(self).tokens == old(self).tokens,
            final(self).operators == old(self).operators,
            final(self).metadata == old(self).metadata,
            final(self).tx_count == old(self).tx_count,
            forall|g: Holder, t: TokenIdentifier| #[trigger] final(self).owner_index_has(g, t)
                <==> old(self).owner_index_has(g, t) || (g == h && t == tid),
    {
        match self.owners.remove(&h) {
            Some(entry) => {
                let entry = ids_insert(entry, tid);
                self.owners.insert(h, entry);
            },
            None => {
                let mut entry: Vec<TokenIdentifier> = Vec::new();
                entry.push(tid);
                self.owners.insert(h, entry);
            },
        }
    }

    /// Moves a token between owner-index entries: after the call, `tid` is
    /// listed exactly under `new_owner` (under nobody when it is `None`),
    /// and no other listing changes.
    pub fn update_owner_cache(
        &mut self,
        token_identifier: &TokenIdentifier,
        old_owner: Option<Holder>,
        new_owner: Option<Holder>,
    )
        requires
            old(self).owner_index_shape(),
            (match old_owner {
                Some(h) => old(self).owner_index_has(h, *token_identifier),
                None => true,
            }),
            forall|g: Holder| old(self).owner_index_has(g, *token_identifier) ==> old_owner
                == Some(g),
        ensures
            final(self).owner_index_shape(),
            final(self).tokens == old(self).tokens,
            final(self).operators == old(self).operators,
            final(self).metadata == old(self).metadata,
            final(self).tx_count == old(self).tx_count,
            forall|g: Holder, t: TokenIdentifier| t != *token_identifier ==> (
                #[trigger] final(self).owner_index_has(g, t) <==> old(self).owner_index_has(g, t)),
            forall|g: Holder| #[trigger] final(self).owner_index_has(g, *token_identifier)
                <==> new_owner == Some(g),
    {
        match old_owner {
            Some(h) => self.owner_entry_remove(h, *token_identifier),
            None => {},
        }
        match new_owner {
            Some(h) => self.owner_entry_add(h, *token_identifier),
            None => {},
        }
    }

    /// Drops `tid` from `h`'s operator-index entry, deleting the entry when
    /// it becomes empty.
    fn operator_entry_remove(&mut self, h: Holder, tid: TokenIdentifier)
        requires
            old(self).operator_index_shape(),
            old(self).operator_index_has(h, tid),
        ensures
            final(self).operator_index_shape(),
            final(self).tokens == old(self).tokens,
            final(self).owners == old(self).owners,
            final(self).metadata == old(self).metadata,
            final(self).tx_count == old(self).tx_count,
            forall|g: Holder, t: TokenIdentifier| #[trigger] final(self).operator_index_has(g, t)
                <==> old(self).operator_index_has(g, t) && !(g == h && t == tid),
    {
        match self.operators.remove(&h) {
            Some(entry) => {
                let rest = ids_remove(&entry, tid);
                if rest.len() > 0 {
                    self.operators.insert(h, rest);
                }
            },
            None => { proof { assert(false); } },
        }
    }

    /// Adds `tid` to `h`'s operator-index entry, creating the entry on
    /// demand.
    fn operator_entry_add(&mut self, h: Holder, tid: TokenIdentifier)
        requires
            old(self).operator_index_shape(),
        ensures
            final(self).operator_index_shape(),
            final(self).tokens == old(self).tokens,
            final(self).owners == old(self).owners,
            final(self).metadata == old(self).metadata,
            final(self).tx_count == old(self).tx_count,
            forall|g: Holder, t: TokenIdentifier| #[trigger] final(self).operator_index_has(g, t)
                <==> old(self).operator_index_has(g, t) || (g == h && t == tid),
    {
        match self.operators.remove(&h) {
            Some(entry) => {
                let entry = ids_insert(entry, tid);
                self.operators.insert(h, entry);
            },
            None => {
                let mut entry: Vec<TokenIdentifier> = Vec::new();
                entry.push(tid);
                self.operators.insert(h, entry);
            },
        }
    }

    /// Moves a token between operator-index entries: after the call, `tid`
    /// is listed exactly under `new_operator` (under nobody when it is
    /// `None`), and no other listing changes.
    pub fn update_operator_cache(
        &mut self,
        token_identifier: &TokenIdentifier,
        old_operator: Option<Holder>,
        new_operator: Option<Holder>,
    )
        requires
            old(self).operator_index_shape(),
            (match old_operator {
                Some(h) => old(self).operator_index_has(h, *token_identifier),
                None => true,
            }),
            forall|g: Holder| old(self).operator_index_has(g, *token_identifier) ==> old_operator
                == Some(g),
        ensures
            final(self).operator_index_shape(),
            final(self).tokens == old(self).tokens,
            final(self).owners == old(self).owners,
            final(self).metadata == old(self).metadata,
            final(self).tx_count == old(self).tx_count,
            forall|g: Holder, t: TokenIdentifier| t != *token_identifier ==> (
                #[trigger] final(self).operator_index_has(g, t) <==> old(self).operator_index_has(
                g, t)),
            forall|g: Holder| #[trigger] final(self).operator_index_has(g, *token_identifier)
                <==> new_operator == Some(g),
    {
        match old_operator {
            Some(h) => self.operator_entry_remove(h, *token_identifier),
            None => {},
        }
        match new_operator {
            Some(h) => self.operator_entry_add(h, *token_identifier),
            None => {},
        }
    }

    /// Stores a fresh token record under its identifier.
    pub fn add_token_metadata(
        &mut self,
        token_identifier: TokenIdentifier,
        token_metadata: TokenMetadata,
    )
        ensures
            final(self).tokens@ == old(self).tokens@.insert(token_identifier, token_metadata),
            final(self).owners == old(self).owners,
            final(self).operators == old(self).operators,
            final(self).metadata == old(self).metadata,
            final(self).tx_count == old(self).tx_count,
    {
        self.tokens.insert(token_identifier, token_metadata);
    }

    /// Writes an approval into a token record: replaces the operator and
    /// sets the approval audit fields. Touches neither index.
    pub fn approve(
        &mut self,
        approved_by: Holder,
        token_identifier: &TokenIdentifier,
        new_operator: Option<Holder>,
        now: u64,
    )
        requires
            old(self).tokens@.contains_key(*token_identifier),
        ensures
            final(self).tokens@ == old(self).tokens@.insert(
                *token_identifier,
                old(self).tokens@[*token_identifier].approved(new_operator, approved_by, now),
            ),
            final(self).owners == old(self).owners,
            final(self).operators == old(self).operators,
            final(self).metadata == old(self).metadata,
            final(self).tx_count == old(self).tx_count,
    {
        match self.tokens.remove(token_identifier) {
            Some(mut m) => {
                m.operator = new_operator;
                m.approved_by = Some(approved_by);
                m.approved_at = Some(now);
                self.tokens.insert(*token_identifier, m);
                proof {
                    assert(final(self).tokens@ =~= old(self).tokens@.insert(
                        *token_identifier,
                        old(self).tokens@[*token_identifier].approved(
                            new_operator,
                            approved_by,
                            now,
                        ),
                    ));
                }
            },
            None => { proof { assert(false); } },
        }
    }

    /// Writes an ownership change into a token record: new owner, operator
    /// cleared, transfer audit fields set. Touches neither index.
    pub fn transfer(
        &mut self,
        transferred_by: Holder,
        token_identifier: &TokenIdentifier,
        new_owner: Option<Holder>,
        now: u64,
    )
        requires
            old(self).tokens@.contains_key(*token_identifier),
        ensures
            final(self).tokens@ == old(self).tokens@.insert(
                *token_identifier,
                old(self).tokens@[*token_identifier].transferred(new_owner, transferred_by, now),
            ),
            final(self).owners == old(self).owners,
            final(self).operators == old(self).operators,
            final(self).metadata == old(self).metadata,
            final(self).tx_count == old(self).tx_count,
    {
        match self.tokens.remove(token_identifier) {
            Some(mut m) => {
                m.owner = new_owner;
                m.transferred_by = Some(transferred_by);
                m.transferred_at = Some(now);
                m.operator = None;
                self.tokens.insert(*token_identifier, m);
                proof {
                    assert(final(self).tokens@ =~= old(self).tokens@.insert(
                        *token_identifier,
                        old(self).tokens@[*token_identifier].transferred(
                            new_owner,
                            transferred_by,
                            now,
                        ),
                    ));
                }
            },
            None => { proof { assert(false); } },
        }
    }

    /// Writes a burn into a token record: owner and operator gone, terminal
    /// flag set, burn audit fields set. Touches neither index.
    pub fn burn(&mut self, burned_by: Holder, token_identifier: &TokenIdentifier, now: u64)
        requires
            old(self).tokens@.contains_key(*token_identifier),
        ensures
            final(self).tokens@ == old(self).tokens@.insert(
                *token_identifier,
                old(self).tokens@[*token_identifier].burned(burned_by, now),
            ),
            final(self).owners == old(self).owners,
            final(self).operators == old(self).operators,
            final(self).metadata == old(self).metadata,
            final(self).tx_count == old(self).tx_count,
    {
        match self.tokens.remove(token_identifier) {
            Some(mut m) => {
                m.owner = None;
                m.operator = None;
                m.is_burned = true;
                m.burned_by = Some(burned_by);
                m.burned_at = Some(now);
                self.tokens.insert(*token_identifier, m);
                proof {
                    assert(final(self).tokens@ =~= old(self).tokens@.insert(
                        *token_identifier,
                        old(self).tokens@[*token_identifier].burned(burned_by, now),
                    ));
                }
            },
            None => { proof { assert(false); } },
        }
    }

    /// Every mutating token operation rewrites one record and relists that
    /// one token in the two indices; this lemma rebuilds the whole invariant
    /// from those per-token facts.
    pub(crate) proof fn lemma_wf_after_token_update(
        pre: Ledger,
        post: Ledger,
        tid: TokenIdentifier,
        rec: TokenMetadata,
    )
        requires
            pre.tokens_wf(),
            pre.owner_index_coherent(),
            pre.operator_index_coherent(),
            post.tokens@ == pre.tokens@.insert(tid, rec),
            rec.token_identifier == tid,
            rec.is_burned ==> rec.owner is None && rec.operator is None,
            post.owner_index_shape(),
            post.operator_index_shape(),
            forall|g: Holder, t: TokenIdentifier| t != tid ==> (
                #[trigger] post.owner_index_has(g, t) <==> pre.owner_index_has(g, t)),
            forall|g: Holder| #[trigger] post.owner_index_has(g, tid) <==> rec.owner == Some(g),
            forall|g: Holder, t: TokenIdentifier| t != tid ==> (
                #[trigger] post.operator_index_has(g, t) <==> pre.operator_index_has(g, t)),
            forall|g: Holder| #[trigger] post.operator_index_has(g, tid) <==> rec.operator
                == Some(g),
        ensures
            post.wf(),
    {
        assert forall|t: TokenIdentifier| #[trigger] post.tokens@.contains_key(t) implies {
            &&& post.tokens@[t].token_identifier == t
            &&& (post.tokens@[t].is_burned ==> post.tokens@[t].owner is None
                && post.tokens@[t].operator is None)
        } by {
            if t != tid {
                assert(pre.tokens@.contains_key(t));
            }
        }
        assert forall|t: TokenIdentifier| #[trigger] post.tokens@.contains_key(t) implies
            match post.tokens@[t].owner {
                Some(h) => post.owner_index_has(h, t),
                None => true,
            } by {
            if t != tid {
                assert(pre.tokens@.contains_key(t));
                match pre.tokens@[t].owner {
                    Some(h) => {
                        assert(pre.owner_index_has(h, t));
                    },
                    None => {},
                }
            }
        }
        assert forall|h: Holder, t: TokenIdentifier| #[trigger] post.owner_index_has(h, t) implies
            post.tokens@.contains_key(t) && post.tokens@[t].owner == Some(h) by {
            if t != tid {
                assert(pre.owner_index_has(h, t));
            }
        }
        assert forall|t: TokenIdentifier| #[trigger] post.tokens@.contains_key(t) implies
            match post.tokens@[t].operator {
                Some(h) => post.operator_index_has(h, t),
                None => true,
            } by {
            if t != tid {
                assert(pre.tokens@.contains_key(t));
                match pre.tokens@[t].operator {
                    Some(h) => {
                        assert(pre.operator_index_has(h, t));
                    },
                    None => {},
                }
            }
        }
        assert forall|h: Holder, t: TokenIdentifier| #[trigger] post.operator_index_has(h, t)
            implies post.tokens@.contains_key(t) && post.tokens@[t].operator == Some(h) by {
            if t != tid {
                assert(pre.operator_index_has(h, t));
            }
        }
    }

    /// Increments the transaction counter for one successful mutating call
    /// and returns the new receipt number.
    pub fn inc_tx(&mut self) -> (n: u64)
        requires
            old(self).tx_count < u64::MAX,
        ensures
            final(self).tx_count == old(self).tx_count + 1,
            n == final(self).tx_count,
            final(self).tokens == old(self).tokens,
            final(self).owners == old(self).owners,
            final(self).operators == old(self).operators,
            final(self).metadata == old(self).metadata,
    {
        self.tx_count = self.tx_count + 1;
        self.tx_count
    }
}

impl Default for Ledger {
    /// The state a ledger starts from before `init_metadata` runs.
    fn default() -> (l: Ledger)
        ensures
            l.wf(),
            l.is_empty_ledger(),
    {
        Ledger::new()
    }
}

} // verus!
