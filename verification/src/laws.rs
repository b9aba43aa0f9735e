//! Ledger-wide laws, stated once over the well-formedness invariant that
//! every mutating operation preserves.

use vstd::prelude::*;

use crate::ledger::Ledger;
use crate::types::{Holder, TokenIdentifier};

verus! {

/// Index agreement: in a well-formed ledger, a token whose record names
/// owner `h` is listed under `h` in the owner index and under no other
/// holder, an unowned token is listed under nobody, and the operator index
/// agrees with the `operator` field in the same way. Since every mutating
/// operation takes a well-formed ledger to a well-formed ledger, this holds
/// after every operation of every call sequence.
pub proof fn lemma_index_agreement(l: Ledger, t: TokenIdentifier)
    requires
        l.wf(),
        l.tokens@.contains_key(t),
    ensures
        forall|h: Holder| #[trigger] l.owner_index_has(h, t) <==> l.tokens@[t].owner == Some(h),
        forall|h: Holder| #[trigger] l.operator_index_has(h, t) <==> l.tokens@[t].operator
            == Some(h),
{
    assert forall|h: Holder| #[trigger] l.owner_index_has(h, t) <==> l.tokens@[t].owner == Some(
        h,
    ) by {
        match l.tokens@[t].owner {
            Some(g) => {
                assert(l.owner_index_has(g, t));
            },
            None => {},
        }
    }
    assert forall|h: Holder| #[trigger] l.operator_index_has(h, t) <==> l.tokens@[t].operator
        == Some(h) by {
        match l.tokens@[t].operator {
            Some(g) => {
                assert(l.operator_index_has(g, t));
            },
            None => {},
        }
    }
}

/// A token listed in neither table row nor index: an identifier absent from
/// the token table is listed in no index entry of a well-formed ledger.
pub proof fn lemma_absent_token_unlisted(l: Ledger, t: TokenIdentifier)
    requires
        l.wf(),
        !l.tokens@.contains_key(t),
    ensures
        forall|h: Holder| !(#[trigger] l.owner_index_has(h, t)),
        forall|h: Holder| !(#[trigger] l.operator_index_has(h, t)),
{
}

/// Burn terminality: in a well-formed ledger a burned token holds neither
/// owner nor operator, so its owner can never again equal any caller; a
/// repeated burn (or any owner-gated operation) must take the
/// `UnauthorizedOwner` branch, and owner/operator queries yield `None`.
pub proof fn lemma_burn_terminal(l: Ledger, t: TokenIdentifier, caller: Holder)
    requires
        l.wf(),
        l.tokens@.contains_key(t),
        l.tokens@[t].is_burned,
    ensures
        l.tokens@[t].owner is None,
        l.tokens@[t].operator is None,
        l.tokens@[t].owner != Some(caller),
        forall|h: Holder| !(#[trigger] l.owner_index_has(h, t)),
        forall|h: Holder| !(#[trigger] l.operator_index_has(h, t)),
{
}

} // verus!
