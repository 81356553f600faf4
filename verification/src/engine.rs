//! The ledger engine: owns every client account and the history of
//! accepted deposits and withdrawals, and applies records strictly in the
//! order they are handed to it.
//!
//! `process_transaction` implements the full business-rule state machine;
//! its contract pins the new state down exactly, as `apply_model` of the
//! old one. Every rejection is a silent no-op by design: the only
//! observable effect of a rejected record is that nothing changed.

use vstd::prelude::*;

use std::collections::HashMap;

use crate::model::{apply_model, apply_seq, lemma_apply_preserves_wf, LedgerModel};
use crate::record::{Client, DisputeState, Transaction, TransactionKind};

verus! {

broadcast use vstd::std_specs::hash::group_hash_axioms;

/// The ledger engine. The maps are created empty and only ever grow; no
/// account and no accepted record is ever deleted.
pub struct PaymentEngine {
    /// Per-client accounts, created lazily on first reference.
    pub clients: HashMap<u16, Client>,
    /// Accepted deposits and withdrawals, keyed by transaction id.
    pub executed_transactions: HashMap<u32, Transaction>,
}

impl View for PaymentEngine {
    type V = LedgerModel;

    open spec fn view(&self) -> LedgerModel {
        LedgerModel { clients: self.clients@, executed: self.executed_transactions@ }
    }
}

impl Default for PaymentEngine {
    /// An engine with no accounts and no history.
    fn default() -> (result: Self)
        ensures
            result@ == LedgerModel::empty(),
            result@.wf(),
    {
        let result = PaymentEngine {
            clients: HashMap::new(),
            executed_transactions: HashMap::new(),
        };
        proof {
            assert(result@ =~= LedgerModel::empty());
        }
        result
    }
}

impl PaymentEngine {
    /// The engine's invariant: see `LedgerModel::wf`.
    pub open spec fn wf(self) -> bool {
        self@.wf()
    }

    /// Apply one record. Rejections (locked account, negative amount,
    /// insufficient funds, unknown or wrong-state or wrong-client
    /// reference, a balance that would not fit the representation) change
    /// nothing, except that the record's client gets a blank account if it
    /// had none; acceptances move balances and the dispute lifecycle
    /// exactly as `apply_model` states.
    pub fn process_transaction(&mut self, transaction: Transaction)
        requires
            old(self).wf(),
        ensures
            final(self)@ == apply_model(old(self)@, transaction),
            final(self).wf(),
    {
        proof {
            lemma_apply_preserves_wf(old(self)@, transaction);
        }
        let account = match self.clients.get(&transaction.client) {
            Some(a) => *a,
            None => Client::new(transaction.client),
        };

        if account.locked || transaction.amount < 0 {
            self.clients.insert(transaction.client, account);
            return ;
        }

        match transaction.kind {
            TransactionKind::Deposit => {
                if account.available <= i64::MAX - transaction.amount && account.total <= i64::MAX
                    - transaction.amount {
                    self.clients.insert(
                        transaction.client,
                        Client {
                            client: account.client,
                            available: account.available + transaction.amount,
                            held: account.held,
                            total: account.total + transaction.amount,
                            locked: account.locked,
                        },
                    );
                    self.executed_transactions.insert(
                        transaction.tx,
                        Transaction { state: DisputeState::Undisputed, ..transaction },
                    );
                } else {
                    self.clients.insert(transaction.client, account);
                }
            },
            TransactionKind::Withdrawal => {
                if account.available >= transaction.amount && account.total >= i64::MIN
                    + transaction.amount {
                    self.clients.insert(
                        transaction.client,
                        Client {
                            client: account.client,
                            available: account.available - transaction.amount,
                            held: account.held,
                            total: account.total - transaction.amount,
                            locked: account.locked,
                        },
                    );
                    self.executed_transactions.insert(
                        transaction.tx,
                        Transaction { state: DisputeState::Undisputed, ..transaction },
                    );
                } else {
                    self.clients.insert(transaction.client, account);
                }
            },
            TransactionKind::Dispute => {
                match self.executed_transactions.get(&transaction.tx) {
                    Some(reference) if reference.client == transaction.client && matches!(
                        reference.state,
                        DisputeState::Undisputed,
                    ) && account.held <= i64::MAX - reference.amount && account.available
                        >= i64::MIN + reference.amount => {
                        let reference = *reference;
                        self.clients.insert(
                            transaction.client,
                            Client {
                                client: account.client,
                                available: account.available - reference.amount,
                                held: account.held + reference.amount,
                                total: account.total,
                                locked: account.locked,
                            },
                        );
                        self.executed_transactions.insert(
                            transaction.tx,
                            Transaction { state: DisputeState::Disputed, ..reference },
                        );
                    },
                    _ => {
                        self.clients.insert(transaction.client, account);
                    },
                }
            },
            TransactionKind::Resolve => {
                match self.executed_transactions.get(&transaction.tx) {
                    Some(reference) if matches!(reference.state, DisputeState::Disputed)
                        && account.held >= i64::MIN + reference.amount && account.available
                        <= i64::MAX - reference.amount => {
                        let reference = *reference;
                        self.clients.insert(
                            transaction.client,
                            Client {
                                client: account.client,
                                available: account.available + reference.amount,
                                held: account.held - reference.amount,
                                total: account.total,
                                locked: account.locked,
                            },
                        );
                        self.executed_transactions.insert(
                            transaction.tx,
                            Transaction { state: DisputeState::Resolved, ..reference },
                        );
                    },
                    _ => {
                        self.clients.insert(transaction.client, account);
                    },
                }
            },
            TransactionKind::Chargeback => {
                match self.executed_transactions.get(&transaction.tx) {
                    Some(reference) if matches!(reference.state, DisputeState::Disputed)
                        && account.held >= i64::MIN + reference.amount && account.total >= i64::MIN
                        + reference.amount => {
                        let reference = *reference;
                        self.clients.insert(
                            transaction.client,
                            Client {
                                client: account.client,
                                available: account.available,
                                held: account.held - reference.amount,
                                total: account.total - reference.amount,
                                locked: true,
                            },
                        );
                        self.executed_transactions.insert(
                            transaction.tx,
                            Transaction { state: DisputeState::ChargedBack, ..reference },
                        );
                    },
                    _ => {
                        self.clients.insert(transaction.client, account);
                    },
                }
            },
        }
    }

    /// The snapshot a reporter reads once the input is exhausted: one row
    /// per known client, in unspecified order — exactly the accounts the
    /// ledger holds, no more and no fewer.
    pub fn snapshot(&self) -> (result: Vec<Client>)
        ensures
            result@.len() == self.clients@.dom().len(),
            result@.to_set() == self.clients@.values(),
    {
        let mut result: Vec<Client> = Vec::new();
        if self.clients.len() == 0 {
            proof {
                self.clients@.dom().lemma_len0_is_empty();
                assert(self.clients@.values() =~= Set::<Client>::empty());
                assert(result@.to_set() =~= self.clients@.values());
            }
            return result;
        }
        for account in it: self.clients.values()
            invariant
                result@ == it.seq().subrange(0, it.index()).unref(),
                it.seq().unref().to_set() == self.clients@.values(),
                it.seq().len() == self.clients@.dom().len(),
                it.seq().len() > 0,
                it.index() >= it.seq().len() ==> result@.to_set() == self.clients@.values(),
        {
            result.push(*account);
            proof {
                assert(it.seq().subrange(0, it.seq().len() as int) =~= it.seq());
                assert(result@ == it.seq().subrange(0, it.index() + 1).unref());
            }
        }
        result
    }

    /// Apply a whole batch of records, strictly in order. The result is the
    /// left fold of `apply_model` over the batch.
    pub fn process_transactions(&mut self, records: &Vec<Transaction>)
        requires
            old(self).wf(),
        ensures
            final(self)@ == apply_seq(old(self)@, records@),
            final(self).wf(),
    {
        let n: usize = records.len();
        for i in 0..n
            invariant
                n == records@.len(),
                self.wf(),
                self@ == apply_seq(old(self)@, records@.subrange(0, i as int)),
        {
            proof {
                assert(records@.subrange(0, i + 1).drop_last() =~= records@.subrange(0, i as int));
                assert(records@.subrange(0, i + 1).last() == records@[i as int]);
            }
            self.process_transaction(records[i]);
        }
        proof {
            assert(records@.subrange(0, n as int) =~= records@);
        }
    }
}

} // verus!
