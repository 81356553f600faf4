//! The data model: transaction records and client accounts.
//!
//! Amounts are signed fixed-point integers (minor units). A record's
//! `amount` is meaningful for deposits and withdrawals; dispute, resolve
//! and chargeback records reference a prior transaction by id and carry
//! no amount of their own (it is ignored, treated as zero).

use vstd::prelude::*;

verus! {

/// The closed set of record kinds the ledger understands.
#[derive(Clone, Copy, Debug, PartialEq, Eq, Structural)]
pub enum TransactionKind {
    Deposit,
    Withdrawal,
    Dispute,
    Resolve,
    Chargeback,
}

/// Lifecycle of an accepted deposit or withdrawal:
/// `Undisputed -> Disputed -> {Resolved, ChargedBack}`, with the last two
/// terminal. `Undisputed` is entered once, at creation, and never again.
#[derive(Clone, Copy, Debug, PartialEq, Eq, Structural)]
pub enum DisputeState {
    Undisputed,
    Disputed,
    Resolved,
    ChargedBack,
}

impl Default for DisputeState {
    /// A freshly parsed record has not been disputed.
    fn default() -> (result: Self)
        ensures
            result == DisputeState::Undisputed,
    {
        DisputeState::Undisputed
    }
}

/// One input record. `tx` identifies a deposit or withdrawal; dispute,
/// resolve and chargeback records reuse the id of the transaction they
/// reference.
#[derive(Clone, Copy, Debug, PartialEq, Eq, Structural)]
pub struct Transaction {
    pub kind: TransactionKind,
    pub client: u16,
    pub tx: u32,
    /// Fixed-point minor units; must be non-negative to be applied.
    pub amount: i64,
    /// Meaningful only once the record is stored in the accepted history.
    pub state: DisputeState,
}

/// One client's balances. `available` and `held` are not floored at zero:
/// disputing a withdrawal legitimately drives `available` negative.
#[derive(Clone, Copy, Debug, PartialEq, Eq, Structural)]
pub struct Client {
    pub client: u16,
    pub available: i64,
    pub held: i64,
    pub total: i64,
    pub locked: bool,
}

impl Client {
    /// The account a client starts with on first reference: all balances
    /// zero, unlocked.
    pub open spec fn blank(client: u16) -> Client {
        Client { client, available: 0, held: 0, total: 0, locked: false }
    }

    /// An empty account for a newly referenced client id.
    pub fn new(client: u16) -> (result: Client)
        ensures
            result == Client::blank(client),
    {
        Client { client, available: 0, held: 0, total: 0, locked: false }
    }
}

} // verus!
