//! Data model of the ledger: holder identities, per-token records, the
//! canister-level metadata singleton, and the error taxonomy.

use vstd::prelude::*;

verus! {

/// Identity of an account that can own or operate tokens.
///
/// The ledger only ever compares identities for equality and uses them as
/// index keys, so a numeric id suffices; the surrounding application maps
/// its own account identifiers onto these.
pub type Holder = u64;

/// Unique identifier of a token, assigned by the caller of `mint` (in this
/// system, by a process-local monotonically increasing counter external to
/// the ledger).
pub type TokenIdentifier = u64;

/// A typed property value attached to a token at mint time.
#[derive(Debug, PartialEq, Eq)]
pub enum GenericValue {
    BoolContent(bool),
    TextContent(String),
    BlobContent(Vec<u8>),
    Principal(Holder),
    Nat8Content(u8),
    Nat16Content(u16),
    Nat32Content(u32),
    Nat64Content(u64),
    Int8Content(i8),
    Int16Content(i16),
    Int32Content(i32),
    Int64Content(i64),
    NestedContent(Vec<(String, GenericValue)>),
}

/// The authoritative record of one token: its current owner and operator,
/// its burn state, its immutable property list, and one audit field pair per
/// state transition.
#[derive(Debug, PartialEq, Eq)]
pub struct TokenMetadata {
    pub token_identifier: TokenIdentifier,
    pub owner: Option<Holder>,
    pub operator: Option<Holder>,
    pub is_burned: bool,
    pub properties: Vec<(String, GenericValue)>,
    pub minted_at: u64,
    pub minted_by: Holder,
    pub transferred_at: Option<u64>,
    pub transferred_by: Option<Holder>,
    pub approved_at: Option<u64>,
    pub approved_by: Option<Holder>,
    pub burned_at: Option<u64>,
    pub burned_by: Option<Holder>,
}

impl TokenMetadata {
    /// The record as a fresh mint leaves it: owned by `owner`, no operator,
    /// not burned, only the mint audit fields set.
    pub open spec fn minted(
        token_identifier: TokenIdentifier,
        owner: Holder,
        properties: Vec<(String, GenericValue)>,
        by: Holder,
        at: u64,
    ) -> TokenMetadata {
        TokenMetadata {
            token_identifier,
            owner: Some(owner),
            operator: None,
            is_burned: false,
            properties,
            minted_at: at,
            minted_by: by,
            transferred_at: None,
            transferred_by: None,
            approved_at: None,
            approved_by: None,
            burned_at: None,
            burned_by: None,
        }
    }

    /// The record as an approval leaves it: the operator replaced and the
    /// approval audit fields set, everything else untouched.
    pub open spec fn approved(self, operator: Option<Holder>, by: Holder, at: u64) -> TokenMetadata {
        TokenMetadata {
            operator,
            approved_by: Some(by),
            approved_at: Some(at),
            ..self
        }
    }

    /// The record as an ownership change leaves it: new owner, operator
    /// cleared, transfer audit fields set.
    pub open spec fn transferred(self, new_owner: Option<Holder>, by: Holder, at: u64) -> TokenMetadata {
        TokenMetadata {
            owner: new_owner,
            operator: None,
            transferred_by: Some(by),
            transferred_at: Some(at),
            ..self
        }
    }

    /// The record as a burn leaves it: permanently inert, owner and operator
    /// gone, burn audit fields set.
    pub open spec fn burned(self, by: Holder, at: u64) -> TokenMetadata {
        TokenMetadata {
            owner: None,
            operator: None,
            is_burned: true,
            burned_by: Some(by),
            burned_at: Some(at),
            ..self
        }
    }
}

/// Arguments accepted when the ledger is first initialized.
#[derive(Clone, Debug, PartialEq, Eq)]
pub struct InitArgs {
    pub name: Option<String>,
    pub logo: Option<String>,
    pub symbol: Option<String>,
    pub custodians: Option<Vec<Holder>>,
    pub cap: Option<Holder>,
}

/// Canister-level descriptive metadata and the custodian set (the holders
/// permitted to perform administrative mutations).
#[derive(Clone, Debug, PartialEq, Eq)]
pub struct Metadata {
    pub name: Option<String>,
    pub logo: Option<String>,
    pub symbol: Option<String>,
    pub custodians: Vec<Holder>,
    pub created_at: u64,
    pub upgraded_at: u64,
}

/// A snapshot of the ledger-wide counters.
#[derive(Clone, Copy, Debug, PartialEq, Eq, Structural)]
pub struct Stats {
    pub total_transactions: u64,
    pub total_supply: u64,
    pub cycles: u128,
    pub total_unique_holders: u64,
}

/// The interface families this ledger implements.
#[derive(Clone, Copy, Debug, PartialEq, Eq, Structural)]
pub enum SupportedInterface {
    Approval,
    Mint,
    Burn,
}

/// Every way a ledger call can fail. All outcomes are terminal for the call;
/// nothing is transient, and no error path leaves a partial mutation behind.
#[derive(Clone, Copy, Debug, PartialEq, Eq, Structural)]
pub enum NftError {
    UnauthorizedOwner,
    UnauthorizedOperator,
    OwnerNotFound,
    OperatorNotFound,
    TokenNotFound,
    ExistedNFT,
    SelfApprove,
    SelfTransfer,
}

} // verus!
