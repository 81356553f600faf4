//! The ledger's laws: what holds of every run, proved once and for all.
//!
//! Balance preservation (`total == available + held` after every apply) is
//! part of the invariant `LedgerModel::wf`, ensured by
//! `PaymentEngine::process_transaction` and by `lemma_apply_preserves_wf`.
//! The laws here relate whole runs and rejected records to the state.

use vstd::prelude::*;

use crate::model::{
    account_of, apply_model, apply_seq, deposit_applies, withdrawal_applies, LedgerModel,
};
use crate::record::{DisputeState, Transaction, TransactionKind};

verus! {

/// Applying any record to a client whose account is locked changes
/// nothing at all: no account's balances move, no accepted record's
/// lifecycle moves. The lock is checked before any kind-specific logic,
/// so even a resolve of a dispute opened before the lock is dropped.
pub proof fn lemma_locked_account_unchanged(pre: LedgerModel, t: Transaction)
    requires
        pre.clients.contains_key(t.client),
        pre.clients[t.client].locked,
    ensures
        apply_model(pre, t).clients == pre.clients,
        apply_model(pre, t).executed == pre.executed,
{
    assert(apply_model(pre, t).clients =~= pre.clients);
}

/// A dispute, resolve or chargeback that references a transaction id
/// absent from the accepted history mutates no account: every client's
/// account (blank if never seen) is exactly what it was, and the history
/// is untouched.
pub proof fn lemma_unknown_reference_unchanged(pre: LedgerModel, t: Transaction)
    requires
        t.kind is Dispute || t.kind is Resolve || t.kind is Chargeback,
        !pre.executed.contains_key(t.tx),
    ensures
        apply_model(pre, t).executed == pre.executed,
        forall|c: u16|
            account_of(#[trigger] apply_model(pre, t).clients, c) == account_of(pre.clients, c),
{
}

/// One legal move of the dispute lifecycle: stay put, open a dispute on an
/// undisputed record, or close a disputed one as resolved or charged back.
pub open spec fn lifecycle_step_ok(before: DisputeState, after: DisputeState) -> bool {
    ||| after == before
    ||| (before is Undisputed && after is Disputed)
    ||| (before is Disputed && (after is Resolved || after is ChargedBack))
}

/// The dispute lifecycle of an accepted record only ever walks forward
/// along `Undisputed -> Disputed -> {Resolved, ChargedBack}`; it never
/// rewinds, and no accepted record is ever dropped from the history. The
/// hypothesis is the input discipline the ledger is specified for: a
/// deposit or withdrawal never reuses the id of an already accepted
/// transaction.
pub proof fn lemma_lifecycle_monotonic(pre: LedgerModel, t: Transaction)
    requires
        (t.kind is Deposit || t.kind is Withdrawal) ==> !pre.executed.contains_key(t.tx),
    ensures
        forall|x: u32| #[trigger]
            pre.executed.contains_key(x) ==> {
                &&& apply_model(pre, t).executed.contains_key(x)
                &&& lifecycle_step_ok(
                    pre.executed[x].state,
                    apply_model(pre, t).executed[x].state,
                )
            },
{
}

/// Would this deposit or withdrawal be applied in state `m`? (For any
/// other kind of record: no.)
pub open spec fn movement_applies(m: LedgerModel, t: Transaction) -> bool {
    let a = account_of(m.clients, t.client);
    &&& !a.locked
    &&& t.amount >= 0
    &&& match t.kind {
        TransactionKind::Deposit => deposit_applies(a, t),
        TransactionKind::Withdrawal => withdrawal_applies(a, t),
        _ => false,
    }
}

/// The signed contribution of record `t` to client `c`'s balance when the
/// ledger is in state `m`: positive for an applied deposit, negative for
/// an applied withdrawal, zero for everything else.
pub open spec fn movement_delta(m: LedgerModel, t: Transaction, c: u16) -> int {
    if t.client == c && movement_applies(m, t) {
        if t.kind is Deposit {
            t.amount as int
        } else {
            -(t.amount as int)
        }
    } else {
        0
    }
}

/// The sum of the amounts actually applied for client `c` over a run of
/// `records` starting from `pre`, deposits counted positive and
/// withdrawals negative; records that are dropped contribute nothing.
pub open spec fn applied_sum(pre: LedgerModel, records: Seq<Transaction>, c: u16) -> int
    decreases records.len(),
{
    if records.len() == 0 {
        0
    } else {
        applied_sum(pre, records.drop_last(), c) + movement_delta(
            apply_seq(pre, records.drop_last()),
            records.last(),
            c,
        )
    }
}

/// Does the sequence hold only deposits and withdrawals?
pub open spec fn only_movements(records: Seq<Transaction>) -> bool {
    forall|i: int|
        0 <= i < records.len() ==> (#[trigger] records[i].kind is Deposit
            || records[i].kind is Withdrawal)
}

/// A run of nothing but deposits and withdrawals, from the empty ledger,
/// leaves every client with `held == 0` and
/// `available == total == ` the signed sum of the amounts actually applied
/// for that client.
pub proof fn lemma_movements_sum(records: Seq<Transaction>, c: u16)
    requires
        only_movements(records),
    ensures
        ({
            let a = account_of(apply_seq(LedgerModel::empty(), records).clients, c);
            &&& a.held == 0
            &&& a.available == a.total
            &&& a.available == applied_sum(LedgerModel::empty(), records, c)
        }),
    decreases records.len(),
{
    if records.len() > 0 {
        let butlast = records.drop_last();
        let t = records.last();
        assert(forall|i: int|
            0 <= i < butlast.len() ==> (#[trigger] butlast[i].kind is Deposit
                || butlast[i].kind is Withdrawal));
        lemma_movements_sum(butlast, c);
        let mid = apply_seq(LedgerModel::empty(), butlast);
        assert(apply_seq(LedgerModel::empty(), records) == apply_model(mid, t));
    }
}

} // verus!
