use payments::engine::PaymentEngine;
use payments::record::{Client, DisputeState, Transaction, TransactionKind};
use std::collections::VecDeque;

/// Amounts are fixed-point: ten-thousandths of a currency unit.
fn amt(units: f64) -> i64 {
    (units * 10_000.0).round() as i64
}

#[test]
fn test_deposit() {
    let mut payment_engine = PaymentEngine::default();

    let tx = Transaction {
        kind: TransactionKind::Deposit,
        client: 1,
        tx: 1,
        amount: amt(5.0),
        state: DisputeState::Undisputed,
    };

    assert_eq!(payment_engine.clients.contains_key(&tx.client), false);

    payment_engine.process_transaction(tx);

    let client = payment_engine.clients.get(&1).expect("Client not found");

    assert_eq!(client.available, amt(5.0));
    assert_eq!(client.total, amt(5.0));
}

#[test]
fn test_withdraw() {
    let mut payment_engine = PaymentEngine::default();
    payment_engine.clients.insert(
        1,
        Client {
            client: 1,
            available: amt(5.0),
            held: amt(0.0),
            total: amt(5.0),
            locked: false,
        },
    );

    let tx = Transaction {
        kind: TransactionKind::Withdrawal,
        client: 1,
        tx: 1,
        amount: amt(5.0),
        state: DisputeState::Undisputed,
    };

    let client = payment_engine.clients.get(&1).expect("Client not found");
    assert_eq!(client.available, amt(5.0));
    assert_eq!(client.total, amt(5.0));

    payment_engine.process_transaction(tx);

    let client = payment_engine.clients.get(&1).expect("Client not found");
    assert_eq!(client.available, amt(0.0));
    assert_eq!(client.total, amt(0.0));
}

#[test]
fn test_withdraw_negative() {
    let mut payment_engine = PaymentEngine::default();
    payment_engine.clients.insert(
        1,
        Client {
            client: 1,
            available: amt(5.0),
            held: amt(0.0),
            total: amt(5.0),
            locked: false,
        },
    );

    let tx = Transaction {
        kind: TransactionKind::Withdrawal,
        client: 1,
        tx: 1,
        amount: amt(10.0),
        state: DisputeState::Undisputed,
    };

    let client = payment_engine.clients.get(&1).expect("Client not found");
    assert_eq!(client.available, amt(5.0));
    assert_eq!(client.total, amt(5.0));

    payment_engine.process_transaction(tx);

    let client = payment_engine.clients.get(&1).expect("Client not found");
    assert_eq!(client.available, amt(5.0));
    assert_eq!(client.total, amt(5.0));
}

#[test]
fn test_withdraw_locked() {
    let mut payment_engine = PaymentEngine::default();
    payment_engine.clients.insert(
        1,
        Client {
            client: 1,
            available: amt(5.0),
            held: amt(0.0),
            total: amt(5.0),
            locked: true,
        },
    );

    let tx = Transaction {
        kind: TransactionKind::Withdrawal,
        client: 1,
        tx: 1,
        amount: amt(5.0),
        state: DisputeState::Undisputed,
    };

    let client = payment_engine.clients.get(&1).expect("Client not found");
    assert_eq!(client.available, amt(5.0));
    assert_eq!(client.total, amt(5.0));

    payment_engine.process_transaction(tx);

    let client = payment_engine.clients.get(&1).expect("Client not found");
    assert_eq!(client.available, amt(5.0));
    assert_eq!(client.total, amt(5.0));
}

#[test]
fn test_chargeback() {
    let mut payment_engine = PaymentEngine::default();

    let mut transactions = VecDeque::from(vec![
        Transaction {
            kind: TransactionKind::Deposit,
            client: 1,
            tx: 1,
            amount: amt(5.0),
            state: DisputeState::Undisputed,
        },
        Transaction {
            kind: TransactionKind::Withdrawal,
            client: 1,
            tx: 2,
            amount: amt(5.0),
            state: DisputeState::Undisputed,
        },
        Transaction {
            kind: TransactionKind::Dispute,
            client: 1,
            tx: 1,
            amount: amt(0.0),
            state: DisputeState::Undisputed,
        },
        Transaction {
            kind: TransactionKind::Chargeback,
            client: 1,
            tx: 1,
            amount: amt(0.0),
            state: DisputeState::Undisputed,
        },
    ]);

    payment_engine.process_transaction(transactions.pop_front().unwrap());

    let client = payment_engine.clients.get(&1).expect("Client not found");
    assert_eq!(client.available, amt(5.0));
    assert_eq!(client.total, amt(5.0));

    payment_engine.process_transaction(transactions.pop_front().unwrap());
    let client = payment_engine.clients.get(&1).expect("Client not found");
    assert_eq!(client.available, amt(0.0));
    assert_eq!(client.total, amt(0.0));

    payment_engine.process_transaction(transactions.pop_front().unwrap());
    let client = payment_engine.clients.get(&1).expect("Client not found");
    assert_eq!(client.available, amt(-5.0));
    assert_eq!(client.held, amt(5.0));
    assert_eq!(client.total, amt(0.0));
    assert_eq!(
        payment_engine
            .executed_transactions
            .get(&1)
            .expect("must be available")
            .state,
        DisputeState::Disputed
    );

    payment_engine.process_transaction(transactions.pop_front().unwrap());
    let client = payment_engine.clients.get(&1).expect("Client not found");
    assert_eq!(client.available, amt(-5.0));
    assert_eq!(client.held, amt(0.0));
    assert_eq!(client.total, amt(-5.0));
    assert_eq!(client.locked, true);
    assert_eq!(
        payment_engine
            .executed_transactions
            .get(&1)
            .expect("must be available")
            .state,
        DisputeState::ChargedBack
    );
}

#[test]
fn test_transaction_invalid_dispute_state() {
    let mut payment_engine = PaymentEngine::default();

    let mut transactions = VecDeque::from(vec![
        Transaction {
            kind: TransactionKind::Deposit,
            client: 1,
            tx: 1,
            amount: amt(5.0),
            state: DisputeState::Undisputed,
        },
        Transaction {
            kind: TransactionKind::Resolve,
            client: 1,
            tx: 1,
            amount: amt(0.0),
            state: DisputeState::Undisputed,
        },
        Transaction {
            kind: TransactionKind::Dispute,
            client: 1,
            tx: 1,
            amount: amt(0.0),
            state: DisputeState::Undisputed,
        },
        Transaction {
            kind: TransactionKind::Resolve,
            client: 1,
            tx: 1,
            amount: amt(0.0),
            state: DisputeState::Undisputed,
        },
        Transaction {
            kind: TransactionKind::Dispute,
            client: 1,
            tx: 1,
            amount: amt(0.0),
            state: DisputeState::Undisputed,
        },
    ]);

    payment_engine.process_transaction(transactions.pop_front().unwrap());
    payment_engine.process_transaction(transactions.pop_front().unwrap());
    assert_eq!(
        payment_engine
            .executed_transactions
            .get(&1)
            .expect("must been executed")
            .state,
        DisputeState::Undisputed
    );

    payment_engine.process_transaction(transactions.pop_front().unwrap());
    assert_eq!(
        payment_engine
            .executed_transactions
            .get(&1)
            .expect("must been executed")
            .state,
        DisputeState::Disputed
    );

    payment_engine.process_transaction(transactions.pop_front().unwrap());
    assert_eq!(
        payment_engine
            .executed_transactions
            .get(&1)
            .expect("must been executed")
            .state,
        DisputeState::Resolved
    );

    payment_engine.process_transaction(transactions.pop_front().unwrap());
    assert_eq!(
        payment_engine
            .executed_transactions
            .get(&1)
            .expect("must been executed")
            .state,
        DisputeState::Resolved
    );
}

#[test]
fn test_dispute_invalid() {
    let mut payment_engine = PaymentEngine::default();

    let mut transactions = VecDeque::from(vec![
        Transaction {
            kind: TransactionKind::Deposit,
            client: 1,
            tx: 1,
            amount: amt(5.0),
            state: DisputeState::Undisputed,
        },
        Transaction {
            kind: TransactionKind::Dispute,
            client: 2,
            tx: 1,
            amount: amt(0.0),
            state: DisputeState::Undisputed,
        },
    ]);

    payment_engine.process_transaction(transactions.pop_front().unwrap());
    payment_engine.process_transaction(transactions.pop_front().unwrap());
    let client = payment_engine.clients.get(&1).expect("Client not found");
    assert_eq!(client.available, amt(5.0));
    assert_eq!(client.held, amt(0.0));
    assert_eq!(client.total, amt(5.0));
    assert_eq!(client.locked, false);
    assert_eq!(
        payment_engine
            .executed_transactions
            .get(&1)
            .expect("must be available")
            .state,
        DisputeState::Undisputed
    );
}
