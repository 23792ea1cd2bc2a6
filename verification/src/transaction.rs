//! Transaction records: the five kinds, the referencing key, and the
//! dispute flag that the ledger's dispute lifecycle toggles.

use vstd::prelude::*;
use vstd::string::StrSliceExecFns;

use crate::amount::Amount;
use crate::error::Error;

verus! {

/// Kind of transaction.
#[derive(Clone, Copy, Debug, PartialEq, Eq, Structural)]
pub enum TransactionType {
    /// Credit to the client's account.
    Deposit,
    /// Debit to the client's account.
    Withdrawal,
    /// Claim that an earlier transaction was erroneous and should be reversed.
    Dispute,
    /// Resolution of a dispute, releasing the associated held funds.
    Resolve,
    /// Final state of a dispute: the transaction is reversed and the account
    /// locked.
    Chargeback,
}

impl TransactionType {
    /// Only deposits and withdrawals may be referenced by a dispute, resolve
    /// or chargeback.
    pub open spec fn spec_referrable(self) -> bool {
        self is Deposit || self is Withdrawal
    }
}

/// Whether `a` matches `b` up to ASCII case, for a lowercase `b`: the same
/// character, or its uppercase form.
pub open spec fn char_matches_ci(a: char, b: char) -> bool {
    a == b || ('a' <= b && b <= 'z' && a as int + 32 == b as int)
}

/// Case-insensitive equality of a string against a lowercase keyword.
pub open spec fn eq_ignore_case(s: Seq<char>, kw: Seq<char>) -> bool {
    s.len() == kw.len() && forall|i: int| 0 <= i < s.len() ==> char_matches_ci(#[trigger] s[i], kw[i])
}

fn str_eq_ignore_case(s: &str, kw: &str) -> (r: bool)
    ensures
        r == eq_ignore_case(s@, kw@),
{
    let n = s.unicode_len();
    if n != kw.unicode_len() {
        return false;
    }
    let mut i: usize = 0;
    while i < n
        invariant
            i <= n,
            n == s@.len(),
            n == kw@.len(),
            forall|j: int| 0 <= j < i ==> char_matches_ci(#[trigger] s@[j], kw@[j]),
        decreases n - i,
    {
        let a = s.get_char(i);
        let b = kw.get_char(i);
        let same = a == b || ('a' <= b && b <= 'z' && (a as u32) + 32 == (b as u32));
        if !same {
            return false;
        }
        i = i + 1;
    }
    true
}

/// The transaction kind a record's `type` field names: one of the five
/// tokens, matched without regard to ASCII case.
pub open spec fn spec_parse_tx_type(s: Seq<char>) -> Option<TransactionType> {
    if eq_ignore_case(s, "deposit"@) {
        Some(TransactionType::Deposit)
    } else if eq_ignore_case(s, "withdrawal"@) {
        Some(TransactionType::Withdrawal)
    } else if eq_ignore_case(s, "dispute"@) {
        Some(TransactionType::Dispute)
    } else if eq_ignore_case(s, "resolve"@) {
        Some(TransactionType::Resolve)
    } else if eq_ignore_case(s, "chargeback"@) {
        Some(TransactionType::Chargeback)
    } else {
        None
    }
}

/// Parses a record's `type` field.
pub fn parse_tx_type(s: &str) -> (r: Option<TransactionType>)
    ensures
        r == spec_parse_tx_type(s@),
{
    if str_eq_ignore_case(s, "deposit") {
        Some(TransactionType::Deposit)
    } else if str_eq_ignore_case(s, "withdrawal") {
        Some(TransactionType::Withdrawal)
    } else if str_eq_ignore_case(s, "dispute") {
        Some(TransactionType::Dispute)
    } else if str_eq_ignore_case(s, "resolve") {
        Some(TransactionType::Resolve)
    } else if str_eq_ignore_case(s, "chargeback") {
        Some(TransactionType::Chargeback)
    } else {
        None
    }
}

/// One record of the transaction log.  `tx` is the referencing key: a
/// dispute, resolve or chargeback carries the `tx` of the deposit or
/// withdrawal it targets.
#[derive(Clone, Copy, Debug, PartialEq)]
pub struct Transaction {
    pub tx_type: TransactionType,
    pub client: u16,
    pub tx: u32,
    pub amount: Option<Amount>,
    pub disputed: bool,
}

impl Transaction {
    pub open spec fn spec_disputed(self) -> bool {
        self.disputed
    }

    /// A fresh record: not disputed.
    pub fn new(tx_type: TransactionType, client: u16, tx: u32, amount: Option<Amount>) -> (r:
        Transaction)
        ensures
            r.tx_type == tx_type,
            r.client == client,
            r.tx == tx,
            r.amount == amount,
            !r.spec_disputed(),
    {
        Transaction { tx_type, client, tx, amount, disputed: false }
    }

    /// The same record with the dispute flag set.
    pub open spec fn spec_dispute(self) -> Transaction {
        Transaction { disputed: true, ..self }
    }

    /// Claim that the transaction was erroneous and should be reversed.
    pub fn dispute(&mut self)
        ensures
            *final(self) == old(self).spec_dispute(),
    {
        self.disputed = true;
    }

    pub fn is_disputed(&self) -> (r: bool)
        ensures
            r == self.spec_disputed(),
    {
        self.disputed
    }

    /// The transaction's amount, or the error for a record that must carry
    /// one and does not.
    pub fn get_amount_or_err(&self) -> (r: Result<Amount, Error>)
        ensures
            match r {
                Ok(a) => self.amount == Some(a),
                Err(e) => self.amount is None && e == Error::WithoutAmount,
            },
    {
        match self.amount {
            Some(a) => Ok(a),
            None => Err(Error::WithoutAmount),
        }
    }
}

} // verus!
