//! The mathematical model of the ledger and its transition function.
//!
//! `LedgerModel` is the ghost view of the engine: a map from client id to
//! account and a map from transaction id to accepted record. `apply_model`
//! says exactly what applying one record does, for every input: every
//! rejection is a silent no-op (though the referenced client's account is
//! created if it did not exist yet), and every acceptance moves balances
//! and the dispute lifecycle as the business rules dictate.

use vstd::prelude::*;

use crate::record::{Client, DisputeState, Transaction, TransactionKind};

verus! {

/// Does a mathematical amount fit the fixed-point representation? A balance
/// update whose result would not fit is rejected like any other invalid
/// record: nothing changes.
pub open spec fn fits_i64(x: int) -> bool {
    i64::MIN <= x <= i64::MAX
}

/// Ghost state of the whole ledger.
#[verifier::ext_equal]
pub struct LedgerModel {
    /// Per-client accounts, created lazily on first reference.
    pub clients: Map<u16, Client>,
    /// Accepted deposits and withdrawals, keyed by transaction id; the
    /// referenceable set for disputes, resolves and chargebacks.
    pub executed: Map<u32, Transaction>,
}

/// The account of `client`, or a blank one if the ledger has none yet.
pub open spec fn account_of(clients: Map<u16, Client>, client: u16) -> Client {
    if clients.contains_key(client) {
        clients[client]
    } else {
        Client::blank(client)
    }
}

impl LedgerModel {
    /// The ledger before any record was applied.
    pub open spec fn empty() -> LedgerModel {
        LedgerModel { clients: Map::empty(), executed: Map::empty() }
    }

    /// Every account balances: `total == available + held`.
    pub open spec fn balanced(self) -> bool {
        forall|c: u16| #[trigger]
            self.clients.contains_key(c) ==> self.clients[c].total == self.clients[c].available
                + self.clients[c].held
    }

    /// Accounts are keyed by their own client id.
    pub open spec fn accounts_keyed(self) -> bool {
        forall|c: u16| #[trigger] self.clients.contains_key(c) ==> self.clients[c].client == c
    }

    /// The accepted history holds only deposits and withdrawals, keyed by
    /// their own transaction id, with non-negative amounts.
    pub open spec fn history_wf(self) -> bool {
        forall|x: u32| #[trigger]
            self.executed.contains_key(x) ==> {
                let r = self.executed[x];
                &&& r.tx == x
                &&& r.amount >= 0
                &&& (r.kind is Deposit || r.kind is Withdrawal)
            }
    }

    /// The ledger's invariant, established empty and preserved by every apply.
    pub open spec fn wf(self) -> bool {
        &&& self.balanced()
        &&& self.accounts_keyed()
        &&& self.history_wf()
    }
}

/// The state after a record is dropped: no balance or history change, but
/// the referenced client's account now exists (blank if it did not).
pub open spec fn rejected(pre: LedgerModel, t: Transaction) -> LedgerModel {
    LedgerModel {
        clients: pre.clients.insert(t.client, account_of(pre.clients, t.client)),
        executed: pre.executed,
    }
}

/// A deposit is applied whenever the updated balances fit the representation.
pub open spec fn deposit_applies(a: Client, t: Transaction) -> bool {
    &&& fits_i64(a.available + t.amount)
    &&& fits_i64(a.total + t.amount)
}

pub open spec fn apply_deposit(pre: LedgerModel, a: Client, t: Transaction) -> LedgerModel {
    if deposit_applies(a, t) {
        LedgerModel {
            clients: pre.clients.insert(
                t.client,
                Client {
                    client: a.client,
                    available: (a.available + t.amount) as i64,
                    held: a.held,
                    total: (a.total + t.amount) as i64,
                    locked: a.locked,
                },
            ),
            executed: pre.executed.insert(
                t.tx,
                Transaction {
                    kind: t.kind,
                    client: t.client,
                    tx: t.tx,
                    amount: t.amount,
                    state: DisputeState::Undisputed,
                },
            ),
        }
    } else {
        rejected(pre, t)
    }
}

/// A withdrawal is applied only when the funds are available (and the new
/// total fits the representation).
pub open spec fn withdrawal_applies(a: Client, t: Transaction) -> bool {
    &&& a.available >= t.amount
    &&& fits_i64(a.total - t.amount)
}

pub open spec fn apply_withdrawal(pre: LedgerModel, a: Client, t: Transaction) -> LedgerModel {
    if withdrawal_applies(a, t) {
        LedgerModel {
            clients: pre.clients.insert(
                t.client,
                Client {
                    client: a.client,
                    available: (a.available - t.amount) as i64,
                    held: a.held,
                    total: (a.total - t.amount) as i64,
                    locked: a.locked,
                },
            ),
            executed: pre.executed.insert(
                t.tx,
                Transaction {
                    kind: t.kind,
                    client: t.client,
                    tx: t.tx,
                    amount: t.amount,
                    state: DisputeState::Undisputed,
                },
            ),
        }
    } else {
        rejected(pre, t)
    }
}

/// A dispute is applied only against a known transaction of the same
/// client that has never been disputed before.
pub open spec fn dispute_applies(pre: LedgerModel, a: Client, t: Transaction) -> bool {
    &&& pre.executed.contains_key(t.tx)
    &&& pre.executed[t.tx].client == t.client
    &&& pre.executed[t.tx].state is Undisputed
    &&& fits_i64(a.held + pre.executed[t.tx].amount)
    &&& fits_i64(a.available - pre.executed[t.tx].amount)
}

/// Holding moves the referenced amount from `available` to `held`; `total`
/// is unchanged. Disputing a withdrawal can drive `available` negative.
pub open spec fn apply_dispute(pre: LedgerModel, a: Client, t: Transaction) -> LedgerModel {
    if dispute_applies(pre, a, t) {
        let r = pre.executed[t.tx];
        LedgerModel {
            clients: pre.clients.insert(
                t.client,
                Client {
                    client: a.client,
                    available: (a.available - r.amount) as i64,
                    held: (a.held + r.amount) as i64,
                    total: a.total,
                    locked: a.locked,
                },
            ),
            executed: pre.executed.insert(
                t.tx,
                Transaction {
                    kind: r.kind,
                    client: r.client,
                    tx: r.tx,
                    amount: r.amount,
                    state: DisputeState::Disputed,
                },
            ),
        }
    } else {
        rejected(pre, t)
    }
}

/// A resolve is applied only against a currently disputed transaction.
pub open spec fn resolve_applies(pre: LedgerModel, a: Client, t: Transaction) -> bool {
    &&& pre.executed.contains_key(t.tx)
    &&& pre.executed[t.tx].state is Disputed
    &&& fits_i64(a.held - pre.executed[t.tx].amount)
    &&& fits_i64(a.available + pre.executed[t.tx].amount)
}

/// Resolving releases the held amount back to `available`; `total` is
/// unchanged; the lifecycle ends in `Resolved`.
pub open spec fn apply_resolve(pre: LedgerModel, a: Client, t: Transaction) -> LedgerModel {
    if resolve_applies(pre, a, t) {
        let r = pre.executed[t.tx];
        LedgerModel {
            clients: pre.clients.insert(
                t.client,
                Client {
                    client: a.client,
                    available: (a.available + r.amount) as i64,
                    held: (a.held - r.amount) as i64,
                    total: a.total,
                    locked: a.locked,
                },
            ),
            executed: pre.executed.insert(
                t.tx,
                Transaction {
                    kind: r.kind,
                    client: r.client,
                    tx: r.tx,
                    amount: r.amount,
                    state: DisputeState::Resolved,
                },
            ),
        }
    } else {
        rejected(pre, t)
    }
}

/// A chargeback is applied only against a currently disputed transaction.
pub open spec fn chargeback_applies(pre: LedgerModel, a: Client, t: Transaction) -> bool {
    &&& pre.executed.contains_key(t.tx)
    &&& pre.executed[t.tx].state is Disputed
    &&& fits_i64(a.held - pre.executed[t.tx].amount)
    &&& fits_i64(a.total - pre.executed[t.tx].amount)
}

/// A chargeback withdraws the held amount for good: `held` and `total`
/// drop, `available` is unchanged, the account is locked permanently, and
/// the lifecycle ends in `ChargedBack`.
pub open spec fn apply_chargeback(pre: LedgerModel, a: Client, t: Transaction) -> LedgerModel {
    if chargeback_applies(pre, a, t) {
        let r = pre.executed[t.tx];
        LedgerModel {
            clients: pre.clients.insert(
                t.client,
                Client {
                    client: a.client,
                    available: a.available,
                    held: (a.held - r.amount) as i64,
                    total: (a.total - r.amount) as i64,
                    locked: true,
                },
            ),
            executed: pre.executed.insert(
                t.tx,
                Transaction {
                    kind: r.kind,
                    client: r.client,
                    tx: r.tx,
                    amount: r.amount,
                    state: DisputeState::ChargedBack,
                },
            ),
        }
    } else {
        rejected(pre, t)
    }
}

/// What applying one record does to the ledger. Checked first, for every
/// kind: a locked account of the record's client, or a negative amount,
/// drops the record outright.
pub open spec fn apply_model(pre: LedgerModel, t: Transaction) -> LedgerModel {
    let a = account_of(pre.clients, t.client);
    if a.locked || t.amount < 0 {
        rejected(pre, t)
    } else {
        match t.kind {
            TransactionKind::Deposit => apply_deposit(pre, a, t),
            TransactionKind::Withdrawal => apply_withdrawal(pre, a, t),
            TransactionKind::Dispute => apply_dispute(pre, a, t),
            TransactionKind::Resolve => apply_resolve(pre, a, t),
            TransactionKind::Chargeback => apply_chargeback(pre, a, t),
        }
    }
}

/// What applying a whole sequence of records, in order, does: the fold of
/// `apply_model` from the left.
pub open spec fn apply_seq(pre: LedgerModel, records: Seq<Transaction>) -> LedgerModel
    decreases records.len(),
{
    if records.len() == 0 {
        pre
    } else {
        apply_model(apply_seq(pre, records.drop_last()), records.last())
    }
}

/// Applying any record preserves the ledger invariant: accounts stay
/// balanced and keyed by their id, and the history keeps only deposits and
/// withdrawals with non-negative amounts.
pub proof fn lemma_apply_preserves_wf(pre: LedgerModel, t: Transaction)
    requires
        pre.wf(),
    ensures
        apply_model(pre, t).wf(),
{
    let post = apply_model(pre, t);
    let a = account_of(pre.clients, t.client);
    assert(a.total == a.available + a.held);
    assert(a.client == t.client);
    assert forall|c: u16| #[trigger] post.clients.contains_key(c) implies post.clients[c].total
        == post.clients[c].available + post.clients[c].held && post.clients[c].client == c by {
        if c != t.client {
            assert(pre.clients.contains_key(c));
            assert(post.clients[c] == pre.clients[c]);
        }
    }
    assert forall|x: u32| #[trigger] post.executed.contains_key(x) implies {
        let r = post.executed[x];
        &&& r.tx == x
        &&& r.amount >= 0
        &&& (r.kind is Deposit || r.kind is Withdrawal)
    } by {
        if pre.executed.contains_key(x) && post.executed[x] != pre.executed[x] {
            assert(x == t.tx);
        }
    }
}

/// Applying any sequence of records preserves the ledger invariant.
pub proof fn lemma_apply_seq_preserves_wf(pre: LedgerModel, records: Seq<Transaction>)
    requires
        pre.wf(),
    ensures
        apply_seq(pre, records).wf(),
    decreases records.len(),
{
    if records.len() > 0 {
        lemma_apply_seq_preserves_wf(pre, records.drop_last());
        lemma_apply_preserves_wf(apply_seq(pre, records.drop_last()), records.last());
    }
}

} // verus!
