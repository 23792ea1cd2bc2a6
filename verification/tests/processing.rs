//! The stream processor end to end, and the rendered report.

use payments::Amount;
use payments::Client;
use payments::Error;
use payments::Registry;
use payments::Transaction;
use payments::TransactionType;
use payments::output::client_csv_row;
use payments::output::render_report;
use payments::process_transactions;

fn deposit(client: u16, tx: u32, amount: Amount) -> Transaction {
    Transaction::new(TransactionType::Deposit, client, tx, Some(amount))
}

fn withdrawal(client: u16, tx: u32, amount: Amount) -> Transaction {
    Transaction::new(TransactionType::Withdrawal, client, tx, Some(amount))
}

fn dispute(client: u16, tx: u32) -> Transaction {
    Transaction::new(TransactionType::Dispute, client, tx, None)
}

fn resolve(client: u16, tx: u32) -> Transaction {
    Transaction::new(TransactionType::Resolve, client, tx, None)
}

fn chargeback(client: u16, tx: u32) -> Transaction {
    Transaction::new(TransactionType::Chargeback, client, tx, None)
}

#[test]
fn serialize_client() {
    let clients = vec![
        Client {
            client: 1,
            available: Amount::new(15, 1),
            held: Amount::new(0, 0),
            total: Amount::new(15, 1),
            locked: false,
            transactions: Vec::new(),
        },
        Client {
            client: 2,
            available: Amount::new(2, 0),
            held: Amount::new(0, 0),
            total: Amount::new(2, 0),
            locked: false,
            transactions: Vec::new(),
        },
    ];

    let reg = Registry { clients };
    let data = render_report(&reg);
    assert_eq!(
        data,
        "\
client,available,held,total,locked
1,1.5,0,1.5,false
2,2,0,2,false
"
    )
}

#[test]
fn single_deposit_row() {
    let reg = process_transactions(vec![deposit(1, 1, Amount::new(15, 1))])
        .expect("Expected the run to succeed");
    assert_eq!(
        render_report(&reg),
        "client,available,held,total,locked\n1,1.5,0,1.5,false\n"
    );
}

#[test]
fn deposit_then_withdrawal_row() {
    let reg = process_transactions(vec![
        deposit(1, 1, Amount::new(20, 1)),
        withdrawal(1, 2, Amount::new(5, 1)),
    ])
    .expect("Expected the run to succeed");
    assert_eq!(
        render_report(&reg),
        "client,available,held,total,locked\n1,1.5,0,1.5,false\n"
    );
}

#[test]
fn dispute_then_resolve_balances() {
    let reg = process_transactions(vec![deposit(1, 1, Amount::new(25, 1)), dispute(1, 1)])
        .expect("Expected the run to succeed");
    let c = &reg.clients[0];
    assert_eq!(c.available, Amount::new(0, 0));
    assert_eq!(c.held, Amount::new(25, 1));
    assert_eq!(c.total, Amount::new(25, 1));
    assert!(!c.locked);

    let reg = process_transactions(vec![
        deposit(1, 1, Amount::new(25, 1)),
        dispute(1, 1),
        resolve(1, 1),
    ])
    .expect("Expected the run to succeed");
    let c = &reg.clients[0];
    assert_eq!(c.available, Amount::new(25, 1));
    assert_eq!(c.held, Amount::new(0, 0));
    assert_eq!(c.total, Amount::new(25, 1));
    assert!(!c.locked);
}

#[test]
fn dispute_then_chargeback_locks() {
    let reg = process_transactions(vec![
        deposit(1, 1, Amount::new(25, 1)),
        dispute(1, 1),
        chargeback(1, 1),
    ])
    .expect("Expected the run to succeed");
    let c = &reg.clients[0];
    assert_eq!(c.available, Amount::new(0, 0));
    assert_eq!(c.held, Amount::new(0, 0));
    assert_eq!(c.total, Amount::new(0, 0));
    assert!(c.locked);

    // A subsequent deposit on the locked account aborts the run.
    let err = process_transactions(vec![
        deposit(1, 1, Amount::new(25, 1)),
        dispute(1, 1),
        chargeback(1, 1),
        deposit(1, 2, Amount::new(1, 0)),
    ])
    .expect_err("Expected a deposit on a locked account to abort the run");
    assert!(matches!(err, Error::ClientLocked));
}

#[test]
fn overdraw_without_deposit_is_recoverable() {
    let reg = process_transactions(vec![withdrawal(1, 1, Amount::new(10, 0))])
        .expect("Expected the run to continue past an overdraw");
    let c = &reg.clients[0];
    assert_eq!(c.available, Amount::new(0, 0));
    assert_eq!(c.held, Amount::new(0, 0));
    assert_eq!(c.total, Amount::new(0, 0));
    assert!(!c.locked);
}

#[test]
fn unknown_reference_is_recoverable() {
    // Dispute, resolve and chargeback on tx ids nobody has seen: the run
    // continues and the ledgers are untouched.
    let reg = process_transactions(vec![
        deposit(1, 1, Amount::new(30, 1)),
        dispute(1, 7),
        resolve(1, 7),
        chargeback(1, 7),
        deposit(1, 2, Amount::new(10, 1)),
    ])
    .expect("Expected the run to continue past unknown references");
    let c = &reg.clients[0];
    assert_eq!(c.available, Amount::new(40, 1));
    assert_eq!(c.total, Amount::new(40, 1));
    assert!(!c.locked);
}

#[test]
fn non_referrable_reference_is_fatal() {
    // Only deposits and withdrawals may be referred to; disputing a stored
    // record of another kind is the non-referrable failure.
    let mut c = Client::new(1);
    c.save_tx(Transaction::new(TransactionType::Dispute, 1, 3, None));
    let err = c.dispute(3).expect_err("Expected a non-referrable reference to fail");
    assert!(matches!(err, Error::InvalidTxType(TransactionType::Dispute)));
}

#[test]
fn error_variants() {
    let mut c = Client::new(1);

    let err = c.withdraw(Amount::new(1, 0)).unwrap_err();
    assert!(matches!(err, Error::NoFunds { client: 1, .. }));

    let err = c.dispute(9).unwrap_err();
    assert!(matches!(err, Error::TransactionNotFound(9)));

    c.deposit(Amount::new(5, 0)).expect("Failed to deposit");
    c.save_tx(deposit(1, 1, Amount::new(5, 0)));

    let err = c.resolve(1).unwrap_err();
    assert!(matches!(err, Error::TxNotDisputed(1)));

    let err = c
        .make_tx(Transaction::new(TransactionType::Deposit, 1, 2, None))
        .unwrap_err();
    assert!(matches!(err, Error::WithoutAmount));

    let err = c
        .make_tx(Transaction::new(
            TransactionType::Dispute,
            1,
            1,
            Some(Amount::new(5, 0)),
        ))
        .unwrap_err();
    assert!(matches!(err, Error::WithAmount));

    c.locked = true;
    let err = c.deposit(Amount::new(1, 0)).unwrap_err();
    assert!(matches!(err, Error::ClientLocked));
}

#[test]
fn empty_run_prints_nothing() {
    let reg = process_transactions(Vec::new()).expect("Expected the empty run to succeed");
    assert_eq!(render_report(&reg), "");
}

#[test]
fn multi_digit_client_id_row() {
    let c = Client {
        client: 1234,
        available: Amount::new(5, 1),
        held: Amount::new(0, 0),
        total: Amount::new(5, 1),
        locked: true,
        transactions: Vec::new(),
    };
    assert_eq!(client_csv_row(&c), "1234,0.5,0,0.5,true\n");
}

#[test]
fn resolve_undisputed_is_recoverable() {
    let reg = process_transactions(vec![
        deposit(1, 1, Amount::new(25, 1)),
        resolve(1, 1),
        chargeback(1, 1),
        deposit(1, 2, Amount::new(5, 1)),
    ])
    .expect("Expected resolve/chargeback of an undisputed tx to be recoverable");
    let c = &reg.clients[0];
    assert_eq!(c.available, Amount::new(30, 1));
    assert!(!c.locked);
}

#[test]
fn deposit_overflow_is_fatal() {
    // The largest representable value is 10^14 in units of 10^-14; two
    // deposits just under the cap exceed it, and the exact result is not
    // representable.
    let big = Amount::new(99999999999999, 0);
    let err = process_transactions(vec![deposit(1, 1, big), deposit(1, 2, big)])
        .expect_err("Expected unrepresentable arithmetic to abort the run");
    assert!(matches!(err, Error::AmountOutOfRange));
}

#[test]
fn first_seen_order_kept() {
    let reg = process_transactions(vec![
        deposit(7, 1, Amount::new(1, 0)),
        deposit(3, 2, Amount::new(2, 0)),
        deposit(7, 3, Amount::new(3, 0)),
    ])
    .expect("Expected the run to succeed");
    assert_eq!(
        render_report(&reg),
        "client,available,held,total,locked\n7,4,0,4,false\n3,2,0,2,false\n"
    );
}

#[test]
fn scale_follows_the_larger_operand() {
    // 2.0 deposited, then disputed and resolved: held goes 0 -> 2.0 -> 0.0,
    // so its printed form keeps one decimal place.
    let reg = process_transactions(vec![
        deposit(1, 1, Amount::new(20, 1)),
        dispute(1, 1),
        resolve(1, 1),
    ])
    .expect("Expected the run to succeed");
    assert_eq!(
        render_report(&reg),
        "client,available,held,total,locked\n1,2.0,0.0,2.0,false\n"
    );
}

#[test]
fn withdrawal_chargeback_subtracts() {
    // Charging back a disputed withdrawal subtracts the held amount, the
    // same as for a deposit: the account ends empty and locked.
    let reg = process_transactions(vec![
        deposit(3, 1, Amount::new(5, 0)),
        withdrawal(3, 2, Amount::new(25, 1)),
        dispute(3, 2),
        chargeback(3, 2),
    ])
    .expect("Expected the run to succeed");
    let c = &reg.clients[0];
    assert_eq!(c.available, Amount::new(0, 0));
    assert_eq!(c.held, Amount::new(0, 0));
    assert_eq!(c.total, Amount::new(0, 0));
    assert!(c.locked);
}

#[test]
fn redispute_after_resolve_restores_balances() {
    // Dispute, resolve, dispute again, resolve again: the balances come
    // back to where the first resolve left them.
    let reg = process_transactions(vec![
        deposit(1, 1, Amount::new(25, 1)),
        dispute(1, 1),
        resolve(1, 1),
        dispute(1, 1),
        resolve(1, 1),
    ])
    .expect("Expected the run to succeed");
    let c = &reg.clients[0];
    assert_eq!(c.available, Amount::new(25, 1));
    assert_eq!(c.held, Amount::new(0, 0));
    assert_eq!(c.total, Amount::new(25, 1));
}
