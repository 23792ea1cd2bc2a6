//! Parsing of record fields and rendering of amounts.

use payments::Amount;
use payments::Transaction;
use payments::TransactionType;
use payments::output::amount_text;
use payments::transaction::parse_tx_type;

#[test]
fn deserialize_tx_type() {
    let data = "\
type
withdrawal
deposit
resolve
chargeback
dispute
";
    let expected = vec![
        TransactionType::Withdrawal,
        TransactionType::Deposit,
        TransactionType::Resolve,
        TransactionType::Chargeback,
        TransactionType::Dispute,
    ];

    let tokens = data.lines().skip(1);
    let testcase_iter = tokens.zip(expected.iter());

    for (token, exp_record) in testcase_iter {
        let record: TransactionType =
            parse_tx_type(token).expect("Failed to retrieve a transaction type record");
        assert_eq!(record, *exp_record);
    }
}

#[test]
fn deserialize_tx() {
    let data = "\
type,       client, tx, amount
deposit,         1,  1,    1.0
deposit,         2,  2,    2.0
deposit,         1,  3,    2.0
withdrawal,      1,  4,    1.5
withdrawal,      2,  5,    3.0
dispute,         1,  4,
resolve,         1,  4,
dispute,         2,  5,
chargeback,      2,  5,
";
    let expected = vec![
        Transaction::new(TransactionType::Deposit, 1, 1, Some(Amount::new(1, 0))),
        Transaction::new(TransactionType::Deposit, 2, 2, Some(Amount::new(2, 0))),
        Transaction::new(TransactionType::Deposit, 1, 3, Some(Amount::new(2, 0))),
        Transaction::new(TransactionType::Withdrawal, 1, 4, Some(Amount::new(15, 1))),
        Transaction::new(TransactionType::Withdrawal, 2, 5, Some(Amount::new(3, 0))),
        Transaction::new(TransactionType::Dispute, 1, 4, None),
        Transaction::new(TransactionType::Resolve, 1, 4, None),
        Transaction::new(TransactionType::Dispute, 2, 5, None),
        Transaction::new(TransactionType::Chargeback, 2, 5, None),
    ];

    let rows = data.lines().skip(1);
    let testcase_iter = rows.zip(expected.iter());

    for (row, exp_record) in testcase_iter {
        let fields: Vec<&str> = row.split(',').map(str::trim).collect();
        let tx_type =
            parse_tx_type(fields[0]).expect("Failed to retrieve a transaction record");
        let client: u16 = fields[1].parse().expect("Failed to retrieve a transaction record");
        let tx: u32 = fields[2].parse().expect("Failed to retrieve a transaction record");
        let amount = Amount::parse(fields[3]);
        let record = Transaction::new(tx_type, client, tx, amount);
        assert_eq!(record, *exp_record);
    }
}

#[test]
fn parse_tx_type_tokens() {
    assert_eq!(parse_tx_type("deposit"), Some(TransactionType::Deposit));
    assert_eq!(parse_tx_type("withdrawal"), Some(TransactionType::Withdrawal));
    assert_eq!(parse_tx_type("dispute"), Some(TransactionType::Dispute));
    assert_eq!(parse_tx_type("resolve"), Some(TransactionType::Resolve));
    assert_eq!(parse_tx_type("chargeback"), Some(TransactionType::Chargeback));
}

#[test]
fn parse_tx_type_ignores_case() {
    assert_eq!(parse_tx_type("Deposit"), Some(TransactionType::Deposit));
    assert_eq!(parse_tx_type("WITHDRAWAL"), Some(TransactionType::Withdrawal));
    assert_eq!(parse_tx_type("ChargeBack"), Some(TransactionType::Chargeback));
}

#[test]
fn parse_tx_type_rejects_unknown() {
    assert_eq!(parse_tx_type(""), None);
    assert_eq!(parse_tx_type("transfer"), None);
    assert_eq!(parse_tx_type("deposits"), None);
}

#[test]
fn parse_amount_values() {
    assert_eq!(Amount::parse("1.5"), Some(Amount::new(15, 1)));
    assert_eq!(Amount::parse("0"), Some(Amount::new(0, 0)));
    assert_eq!(Amount::parse("2.0"), Some(Amount::new(20, 1)));
    assert_eq!(Amount::parse("-3.25"), Some(Amount::new(-325, 2)));
    assert_eq!(Amount::parse("5.8432"), Some(Amount::new(58432, 4)));
}

#[test]
fn parse_amount_absent_or_malformed() {
    assert_eq!(Amount::parse(""), None);
    assert_eq!(Amount::parse("abc"), None);
    assert_eq!(Amount::parse("1.2.3"), None);
}

#[test]
fn parse_amount_scale_matters() {
    // "2.0" and "2" are the same value at different scales, and both differ
    // in representation.
    let a = Amount::parse("2.0").expect("Expected the amount to parse");
    let b = Amount::parse("2").expect("Expected the amount to parse");
    assert_eq!(a, b);
    assert_eq!(a.mantissa(), 20);
    assert_eq!(a.scale(), 1);
    assert_eq!(b.mantissa(), 2);
    assert_eq!(b.scale(), 0);
}

#[test]
fn amount_equality_is_by_value() {
    assert_eq!(Amount::new(15, 1), Amount::new(150, 2));
    assert_eq!(Amount::new(0, 0), Amount::new(0, 4));
    assert_ne!(Amount::new(15, 1), Amount::new(151, 2));
}

#[test]
fn amount_text_exact() {
    assert_eq!(amount_text(Amount::new(15, 1)), "1.5");
    assert_eq!(amount_text(Amount::new(0, 0)), "0");
    assert_eq!(amount_text(Amount::new(0, 1)), "0.0");
    assert_eq!(amount_text(Amount::new(2, 0)), "2");
    assert_eq!(amount_text(Amount::new(-325, 2)), "-3.25");
    assert_eq!(amount_text(Amount::new(102832, 4)), "10.2832");
}

#[test]
fn checked_arithmetic_is_exact() {
    let a = Amount::new(25, 1);
    let b = Amount::new(194, 2);
    let sum = a.checked_add(b).expect("Expected the sum to be representable");
    assert_eq!(sum, Amount::new(444, 2));
    assert_eq!(sum.scale(), 2);

    let diff = sum.checked_sub(a).expect("Expected the difference to be representable");
    assert_eq!(diff, Amount::new(194, 2));

    // Just under the cap is fine; doubling it is not.
    let big = Amount::new(99999999999999, 0);
    assert!(big.checked_add(Amount::new(1, 14)).is_some());
    assert!(big.checked_add(big).is_none());
}

#[test]
fn amount_comparison_is_by_value() {
    assert!(Amount::new(5, 1).lt(Amount::new(2, 0)));
    assert!(!Amount::new(20, 1).lt(Amount::new(2, 0)));
    assert!(Amount::new(-1, 0).lt(Amount::new(0, 4)));
}
