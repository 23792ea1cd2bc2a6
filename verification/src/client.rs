//! One client's account ledger: balances, the lock, and the transaction
//! history that disputes, resolves and chargebacks refer back to.  The
//! executable operations are each mirrored by a spec-level transition on
//! `ClientView`, and their contracts say the two agree exactly.

use vstd::prelude::*;

use crate::amount::Amount;
use crate::amount::in_amount_range;
use crate::error::Error;
use crate::error::res_err;
use crate::transaction::Transaction;
use crate::transaction::TransactionType;

verus! {

/// Map view of a transaction history sequence, keyed by `tx` id (a later
/// entry with the same id replaces an earlier one).
pub open spec fn history_map(s: Seq<Transaction>) -> Map<u32, Transaction>
    decreases s.len(),
{
    if s.len() == 0 {
        Map::empty()
    } else {
        history_map(s.drop_last()).insert(s.last().tx, s.last())
    }
}

/// No two entries share a `tx` id.
pub open spec fn unique_tx_ids(s: Seq<Transaction>) -> bool {
    forall|i: int, j: int| 0 <= i < j < s.len() ==> s[i].tx != s[j].tx
}

/// Abstract state of one client's ledger.
pub struct ClientView {
    pub client: u16,
    pub available: Amount,
    pub held: Amount,
    pub total: Amount,
    pub locked: bool,
    pub transactions: Map<u32, Transaction>,
}

impl ClientView {
    /// Well-formedness: the balances are in range, the balance equation
    /// `total == available + held` holds, and every recorded amount is in
    /// range.
    pub open spec fn wf(self) -> bool {
        &&& self.available.wf()
        &&& self.held.wf()
        &&& self.total.wf()
        &&& self.total.val() == self.available.val() + self.held.val()
        &&& forall|k: u32|
            #[trigger] self.transactions.contains_key(k) ==> (self.transactions[k].amount is Some
                ==> self.transactions[k].amount->0.wf())
    }
}

impl ClientView {
    /// Deposit: credit the amount to the account.
    pub open spec fn deposit_spec(self, amount: Amount) -> (ClientView, Option<Error>) {
        if self.locked {
            (self, Some(Error::ClientLocked))
        } else if in_amount_range(self.available.val() + amount.val()) && in_amount_range(
            self.total.val() + amount.val(),
        ) {
            (
                ClientView {
                    available: self.available.spec_add(amount),
                    total: self.total.spec_add(amount),
                    ..self
                },
                None,
            )
        } else {
            (self, Some(Error::AmountOutOfRange))
        }
    }

    /// Withdrawal: debit the amount, failing with `NoFunds` when more is
    /// asked for than is available.
    pub open spec fn withdraw_spec(self, amount: Amount) -> (ClientView, Option<Error>) {
        if self.locked {
            (self, Some(Error::ClientLocked))
        } else if self.available.val() < amount.val() {
            (
                self,
                Some(
                    Error::NoFunds {
                        client: self.client,
                        available: self.available,
                        requested: amount,
                    },
                ),
            )
        } else if in_amount_range(self.available.val() - amount.val()) && in_amount_range(
            self.total.val() - amount.val(),
        ) {
            (
                ClientView {
                    available: self.available.spec_sub(amount),
                    total: self.total.spec_sub(amount),
                    ..self
                },
                None,
            )
        } else {
            (self, Some(Error::AmountOutOfRange))
        }
    }

    /// Dispute: hold the referenced transaction's amount and mark it
    /// disputed.  The total is unchanged: the funds are only reclassified.
    pub open spec fn dispute_spec(self, tx_id: u32) -> (ClientView, Option<Error>) {
        if self.locked {
            (self, Some(Error::ClientLocked))
        } else if !self.transactions.contains_key(tx_id) {
            (self, Some(Error::TransactionNotFound(tx_id)))
        } else {
            let t = self.transactions[tx_id];
            if !t.tx_type.spec_referrable() {
                (self, Some(Error::InvalidTxType(t.tx_type)))
            } else {
                match t.amount {
                    None => (self, Some(Error::WithoutAmount)),
                    Some(a) => if in_amount_range(self.available.val() - a.val())
                        && in_amount_range(self.held.val() + a.val()) {
                        (
                            ClientView {
                                available: self.available.spec_sub(a),
                                held: self.held.spec_add(a),
                                transactions: self.transactions.insert(tx_id, t.spec_dispute()),
                                ..self
                            },
                            None,
                        )
                    } else {
                        (self, Some(Error::AmountOutOfRange))
                    },
                }
            }
        }
    }

    /// Resolve: release the held funds of a disputed transaction.  The
    /// dispute flag is left set, so the transaction may be disputed again.
    pub open spec fn resolve_spec(self, tx_id: u32) -> (ClientView, Option<Error>) {
        if self.locked {
            (self, Some(Error::ClientLocked))
        } else if !self.transactions.contains_key(tx_id) {
            (self, Some(Error::TransactionNotFound(tx_id)))
        } else {
            let t = self.transactions[tx_id];
            if !t.tx_type.spec_referrable() {
                (self, Some(Error::InvalidTxType(t.tx_type)))
            } else if !t.spec_disputed() {
                (self, Some(Error::TxNotDisputed(tx_id)))
            } else {
                match t.amount {
                    None => (self, Some(Error::WithoutAmount)),
                    Some(a) => if in_amount_range(self.available.val() + a.val())
                        && in_amount_range(self.held.val() - a.val()) {
                        (
                            ClientView {
                                available: self.available.spec_add(a),
                                held: self.held.spec_sub(a),
                                ..self
                            },
                            None,
                        )
                    } else {
                        (self, Some(Error::AmountOutOfRange))
                    },
                }
            }
        }
    }

    /// Chargeback: reverse a disputed transaction, remove its amount from
    /// held and total, and lock the account.  Unlike the other operations
    /// it is not gated by the lock: it is the operation that sets it.
    pub open spec fn chargeback_spec(self, tx_id: u32) -> (ClientView, Option<Error>) {
        if !self.transactions.contains_key(tx_id) {
            (self, Some(Error::TransactionNotFound(tx_id)))
        } else {
            let t = self.transactions[tx_id];
            if !t.tx_type.spec_referrable() {
                (self, Some(Error::InvalidTxType(t.tx_type)))
            } else if !t.spec_disputed() {
                (self, Some(Error::TxNotDisputed(tx_id)))
            } else {
                match t.amount {
                    None => (self, Some(Error::WithoutAmount)),
                    Some(a) => if in_amount_range(self.held.val() - a.val()) && in_amount_range(
                        self.total.val() - a.val(),
                    ) {
                        (
                            ClientView {
                                held: self.held.spec_sub(a),
                                total: self.total.spec_sub(a),
                                locked: true,
                                ..self
                            },
                            None,
                        )
                    } else {
                        (self, Some(Error::AmountOutOfRange))
                    },
                }
            }
        }
    }

    /// The single entry point: validates the amount-presence rule, then
    /// dispatches by kind.  A successful deposit or withdrawal is recorded
    /// in the history under its `tx` id.
    pub open spec fn make_tx_spec(self, tx: Transaction) -> (ClientView, Option<Error>) {
        match tx.tx_type {
            TransactionType::Deposit => match tx.amount {
                None => (self, Some(Error::WithoutAmount)),
                Some(a) => {
                    let (c, e) = self.deposit_spec(a);
                    if e is None {
                        (
                            ClientView { transactions: c.transactions.insert(tx.tx, tx), ..c },
                            None,
                        )
                    } else {
                        (c, e)
                    }
                },
            },
            TransactionType::Withdrawal => match tx.amount {
                None => (self, Some(Error::WithoutAmount)),
                Some(a) => {
                    let (c, e) = self.withdraw_spec(a);
                    if e is None {
                        (
                            ClientView { transactions: c.transactions.insert(tx.tx, tx), ..c },
                            None,
                        )
                    } else {
                        (c, e)
                    }
                },
            },
            TransactionType::Dispute => if tx.amount is Some {
                (self, Some(Error::WithAmount))
            } else {
                self.dispute_spec(tx.tx)
            },
            TransactionType::Resolve => if tx.amount is Some {
                (self, Some(Error::WithAmount))
            } else {
                self.resolve_spec(tx.tx)
            },
            TransactionType::Chargeback => if tx.amount is Some {
                (self, Some(Error::WithAmount))
            } else {
                self.chargeback_spec(tx.tx)
            },
        }
    }
}

/// The zero-balance, unlocked, empty-history state a ledger starts in.
pub open spec fn new_client_view(id: u16) -> ClientView {
    ClientView {
        client: id,
        available: Amount::spec_zero(),
        held: Amount::spec_zero(),
        total: Amount::spec_zero(),
        locked: false,
        transactions: Map::empty(),
    }
}

/// Account balance of a client.
#[derive(Debug)]
pub struct Client {
    /// Client id.
    pub client: u16,
    /// Available funds.
    pub available: Amount,
    /// Funds held due to a dispute.
    pub held: Amount,
    /// Total funds (available and held).
    pub total: Amount,
    /// If true, the client cannot make any transaction except a chargeback.
    pub locked: bool,
    /// History of deposits and withdrawals, the records disputes refer to.
    pub transactions: Vec<Transaction>,
}

impl View for Client {
    type V = ClientView;

    open spec fn view(&self) -> ClientView {
        ClientView {
            client: self.client,
            available: self.available,
            held: self.held,
            total: self.total,
            locked: self.locked,
            transactions: history_map(self.transactions@),
        }
    }
}

proof fn lemma_unique_drop_last(s: Seq<Transaction>)
    requires
        unique_tx_ids(s),
        s.len() > 0,
    ensures
        unique_tx_ids(s.drop_last()),
{
    assert forall|i: int, j: int| 0 <= i < j < s.drop_last().len() implies s.drop_last()[i].tx
        != s.drop_last()[j].tx by {
        assert(s.drop_last()[i] == s[i]);
        assert(s.drop_last()[j] == s[j]);
    }
}

proof fn lemma_history_map_absent(s: Seq<Transaction>, k: u32)
    requires
        forall|i: int| 0 <= i < s.len() ==> s[i].tx != k,
    ensures
        !history_map(s).contains_key(k),
    decreases s.len(),
{
    if s.len() > 0 {
        lemma_history_map_absent(s.drop_last(), k);
    }
}

proof fn lemma_history_map_at(s: Seq<Transaction>, i: int)
    requires
        unique_tx_ids(s),
        0 <= i < s.len(),
    ensures
        history_map(s).contains_key(s[i].tx),
        history_map(s)[s[i].tx] == s[i],
    decreases s.len(),
{
    if i < s.len() - 1 {
        lemma_unique_drop_last(s);
        lemma_history_map_at(s.drop_last(), i);
        assert(s.last().tx != s[i].tx);
    }
}

proof fn lemma_history_map_update(s: Seq<Transaction>, i: int, tx: Transaction)
    requires
        unique_tx_ids(s),
        0 <= i < s.len(),
        s[i].tx == tx.tx,
    ensures
        history_map(s.update(i, tx)) == history_map(s).insert(tx.tx, tx),
    decreases s.len(),
{
    let s2 = s.update(i, tx);
    if i == s.len() - 1 {
        assert(s2.drop_last() =~= s.drop_last());
        assert(history_map(s2) =~= history_map(s).insert(tx.tx, tx));
    } else {
        lemma_unique_drop_last(s);
        assert(s2.drop_last() =~= s.drop_last().update(i, tx));
        lemma_history_map_update(s.drop_last(), i, tx);
        assert(s.last().tx != tx.tx);
        assert(history_map(s2) =~= history_map(s).insert(tx.tx, tx));
    }
}

proof fn lemma_history_map_push(s: Seq<Transaction>, tx: Transaction)
    ensures
        history_map(s.push(tx)) == history_map(s).insert(tx.tx, tx),
{
    assert(s.push(tx).drop_last() =~= s);
    assert(s.push(tx).last() == tx);
}

impl Client {
    /// Representation well-formedness: the abstract state is well-formed and
    /// the stored history has one entry per `tx` id.
    pub open spec fn wf(self) -> bool {
        self@.wf() && unique_tx_ids(self.transactions@)
    }

    /// A new client account: zero balances, unlocked, empty history.
    pub fn new(id: u16) -> (r: Client)
        ensures
            r.wf(),
            r@ == new_client_view(id),
            r@.available.val() == 0,
            r@.held.val() == 0,
            r@.total.val() == 0,
    {
        Client {
            client: id,
            available: Amount::zero(),
            held: Amount::zero(),
            total: Amount::zero(),
            locked: false,
            transactions: Vec::new(),
        }
    }

    /// Ensures that the client may make a lock-gated transaction: fails with
    /// `ClientLocked` exactly when the account is locked.
    pub fn can_make_tx(&self) -> (r: Result<(), Error>)
        ensures
            match r {
                Ok(_) => !self.locked,
                Err(e) => self.locked && e == Error::ClientLocked,
            },
    {
        if self.locked {
            return Err(Error::ClientLocked);
        }
        Ok(())
    }

    /// Index of the history entry with the given `tx` id, if any.
    fn find_tx_index(&self, tx_id: u32) -> (r: Option<usize>)
        requires
            unique_tx_ids(self.transactions@),
        ensures
            match r {
                Some(i) => i < self.transactions@.len() && self.transactions@[i as int].tx == tx_id
                    && history_map(self.transactions@).contains_key(tx_id) && history_map(
                    self.transactions@,
                )[tx_id] == self.transactions@[i as int],
                None => !history_map(self.transactions@).contains_key(tx_id),
            },
    {
        let n = self.transactions.len();
        let mut i: usize = 0;
        while i < n
            invariant
                n == self.transactions@.len(),
                i <= n,
                unique_tx_ids(self.transactions@),
                forall|j: int| 0 <= j < i ==> self.transactions@[j].tx != tx_id,
            decreases n - i,
        {
            if self.transactions[i].tx == tx_id {
                proof {
                    lemma_history_map_at(self.transactions@, i as int);
                }
                return Some(i);
            }
            i = i + 1;
        }
        proof {
            lemma_history_map_absent(self.transactions@, tx_id);
        }
        None
    }

    /// Looks up the referenced transaction, or fails with
    /// `TransactionNotFound`.
    pub fn get_tx(&self, tx_id: u32) -> (r: Result<Transaction, Error>)
        requires
            self.wf(),
        ensures
            match r {
                Ok(t) => self@.transactions.contains_key(tx_id) && t
                    == self@.transactions[tx_id],
                Err(e) => !self@.transactions.contains_key(tx_id) && e
                    == Error::TransactionNotFound(tx_id),
            },
    {
        match self.find_tx_index(tx_id) {
            Some(i) => Ok(self.transactions[i]),
            None => Err(Error::TransactionNotFound(tx_id)),
        }
    }

    /// Saves a transaction to the client's history, replacing any earlier
    /// entry with the same `tx` id.
    pub fn save_tx(&mut self, tx: Transaction)
        requires
            old(self).wf(),
        ensures
            final(self).wf(),
            final(self)@ == (ClientView {
                transactions: old(self)@.transactions.insert(tx.tx, tx),
                ..old(self)@
            }),
    {
        match &tx.amount {
            Some(a) => {
                proof {
                    use_type_invariant(*a);
                }
            },
            None => {},
        }
        match self.find_tx_index(tx.tx) {
            Some(i) => {
                proof {
                    lemma_history_map_update(self.transactions@, i as int, tx);
                }
                self.transactions[i] = tx;
                proof {
                    let s = old(self).transactions@;
                    let s2 = self.transactions@;
                    assert forall|a: int, b: int| 0 <= a < b < s2.len() implies s2[a].tx
                        != s2[b].tx by {
                        assert(s[a].tx == s2[a].tx);
                        assert(s[b].tx == s2[b].tx);
                    }
                }
            },
            None => {
                proof {
                    lemma_history_map_push(self.transactions@, tx);
                }
                self.transactions.push(tx);
                proof {
                    let s = old(self).transactions@;
                    let s2 = self.transactions@;
                    assert forall|a: int, b: int| 0 <= a < b < s2.len() implies s2[a].tx
                        != s2[b].tx by {
                        if b < s2.len() - 1 {
                            assert(s[a].tx == s2[a].tx);
                            assert(s[b].tx == s2[b].tx);
                        } else {
                            assert(s2[b] == tx);
                            assert(s[a].tx == s2[a].tx);
                            if s[a].tx == tx.tx {
                                lemma_history_map_at(s, a);
                            }
                        }
                    }
                }
            },
        }
    }

    /// Checks that the referenced transaction exists and may be referred to
    /// by a dispute, resolve or chargeback: only deposits and withdrawals
    /// may.
    pub fn tx_is_referrable(&self, tx_id: u32) -> (r: Result<(), Error>)
        requires
            self.wf(),
        ensures
            match r {
                Ok(_) => self@.transactions.contains_key(tx_id)
                    && self@.transactions[tx_id].tx_type.spec_referrable(),
                Err(e) => match e {
                    Error::TransactionNotFound(id) => id == tx_id
                        && !self@.transactions.contains_key(tx_id),
                    Error::InvalidTxType(t) => self@.transactions.contains_key(tx_id) && t
                        == self@.transactions[tx_id].tx_type && !t.spec_referrable(),
                    _ => false,
                },
            },
    {
        let tx = match self.get_tx(tx_id) {
            Ok(t) => t,
            Err(e) => {
                return Err(e);
            },
        };
        match tx.tx_type {
            TransactionType::Deposit | TransactionType::Withdrawal => Ok(()),
            _ => Err(Error::InvalidTxType(tx.tx_type)),
        }
    }

    /// Credits the given amount to the client's account.
    pub fn deposit(&mut self, amount: Amount) -> (r: Result<(), Error>)
        requires
            old(self).wf(),
        ensures
            final(self).wf(),
            final(self)@ == old(self)@.deposit_spec(amount).0,
            res_err(r) == old(self)@.deposit_spec(amount).1,
    {
        if let Err(e) = self.can_make_tx() {
            return Err(e);
        }
        let new_avail = match self.available.checked_add(amount) {
            Some(x) => x,
            None => {
                return Err(Error::AmountOutOfRange);
            },
        };
        let new_total = match self.total.checked_add(amount) {
            Some(x) => x,
            None => {
                return Err(Error::AmountOutOfRange);
            },
        };
        self.available = new_avail;
        self.total = new_total;
        Ok(())
    }

    /// Debits the given amount from the client's account.
    pub fn withdraw(&mut self, amount: Amount) -> (r: Result<(), Error>)
        requires
            old(self).wf(),
        ensures
            final(self).wf(),
            final(self)@ == old(self)@.withdraw_spec(amount).0,
            res_err(r) == old(self)@.withdraw_spec(amount).1,
    {
        if let Err(e) = self.can_make_tx() {
            return Err(e);
        }
        if self.available.lt(amount) {
            return Err(
                Error::NoFunds {
                    client: self.client,
                    available: self.available,
                    requested: amount,
                },
            );
        }
        let new_avail = match self.available.checked_sub(amount) {
            Some(x) => x,
            None => {
                return Err(Error::AmountOutOfRange);
            },
        };
        let new_total = match self.total.checked_sub(amount) {
            Some(x) => x,
            None => {
                return Err(Error::AmountOutOfRange);
            },
        };
        self.available = new_avail;
        self.total = new_total;
        Ok(())
    }

    /// Claim that the referenced transaction was erroneous and should be
    /// reversed: its amount moves from available to held.
    pub fn dispute(&mut self, tx_id: u32) -> (r: Result<(), Error>)
        requires
            old(self).wf(),
        ensures
            final(self).wf(),
            final(self)@ == old(self)@.dispute_spec(tx_id).0,
            res_err(r) == old(self)@.dispute_spec(tx_id).1,
    {
        if let Err(e) = self.can_make_tx() {
            return Err(e);
        }
        if let Err(e) = self.tx_is_referrable(tx_id) {
            return Err(e);
        }
        let tx = match self.get_tx(tx_id) {
            Ok(t) => t,
            Err(e) => {
                return Err(e);
            },
        };
        let amount = match tx.amount {
            Some(a) => a,
            None => {
                return Err(Error::WithoutAmount);
            },
        };
        let new_avail = match self.available.checked_sub(amount) {
            Some(x) => x,
            None => {
                return Err(Error::AmountOutOfRange);
            },
        };
        let new_held = match self.held.checked_add(amount) {
            Some(x) => x,
            None => {
                return Err(Error::AmountOutOfRange);
            },
        };
        proof {
            lemma_history_map_key(self.transactions@, tx_id);
        }
        let mut marked = tx;
        marked.dispute();
        self.save_tx(marked);
        self.available = new_avail;
        self.held = new_held;
        Ok(())
    }

    /// Resolve a dispute, releasing the associated held funds.
    pub fn resolve(&mut self, tx_id: u32) -> (r: Result<(), Error>)
        requires
            old(self).wf(),
        ensures
            final(self).wf(),
            final(self)@ == old(self)@.resolve_spec(tx_id).0,
            res_err(r) == old(self)@.resolve_spec(tx_id).1,
    {
        if let Err(e) = self.can_make_tx() {
            return Err(e);
        }
        if let Err(e) = self.tx_is_referrable(tx_id) {
            return Err(e);
        }
        let tx = match self.get_tx(tx_id) {
            Ok(t) => t,
            Err(e) => {
                return Err(e);
            },
        };
        if !tx.is_disputed() {
            return Err(Error::TxNotDisputed(tx_id));
        }
        let amount = match tx.get_amount_or_err() {
            Ok(a) => a,
            Err(e) => {
                return Err(e);
            },
        };
        let new_avail = match self.available.checked_add(amount) {
            Some(x) => x,
            None => {
                return Err(Error::AmountOutOfRange);
            },
        };
        let new_held = match self.held.checked_sub(amount) {
            Some(x) => x,
            None => {
                return Err(Error::AmountOutOfRange);
            },
        };
        self.available = new_avail;
        self.held = new_held;
        Ok(())
    }

    /// Reverse a disputed transaction and lock the account: the terminal
    /// adverse ruling of a dispute.  Not gated by the lock itself.
    pub fn chargeback(&mut self, tx_id: u32) -> (r: Result<(), Error>)
        requires
            old(self).wf(),
        ensures
            final(self).wf(),
            final(self)@ == old(self)@.chargeback_spec(tx_id).0,
            res_err(r) == old(self)@.chargeback_spec(tx_id).1,
    {
        if let Err(e) = self.tx_is_referrable(tx_id) {
            return Err(e);
        }
        let tx = match self.get_tx(tx_id) {
            Ok(t) => t,
            Err(e) => {
                return Err(e);
            },
        };
        if !tx.is_disputed() {
            return Err(Error::TxNotDisputed(tx_id));
        }
        let amount = match tx.get_amount_or_err() {
            Ok(a) => a,
            Err(e) => {
                return Err(e);
            },
        };
        let new_held = match self.held.checked_sub(amount) {
            Some(x) => x,
            None => {
                return Err(Error::AmountOutOfRange);
            },
        };
        let new_total = match self.total.checked_sub(amount) {
            Some(x) => x,
            None => {
                return Err(Error::AmountOutOfRange);
            },
        };
        self.held = new_held;
        self.total = new_total;
        self.locked = true;
        Ok(())
    }

    /// Makes a transaction on the given client account: validates the
    /// amount-presence rule, dispatches by kind, and records successful
    /// deposits and withdrawals in the history.
    pub fn make_tx(&mut self, tx: Transaction) -> (r: Result<(), Error>)
        requires
            old(self).wf(),
        ensures
            final(self).wf(),
            final(self)@ == old(self)@.make_tx_spec(tx).0,
            res_err(r) == old(self)@.make_tx_spec(tx).1,
    {
        match tx.tx_type {
            TransactionType::Deposit => {
                let a = match tx.amount {
                    Some(a) => a,
                    None => {
                        return Err(Error::WithoutAmount);
                    },
                };
                if let Err(e) = self.deposit(a) {
                    return Err(e);
                }
                self.save_tx(tx);
                Ok(())
            },
            TransactionType::Withdrawal => {
                let a = match tx.amount {
                    Some(a) => a,
                    None => {
                        return Err(Error::WithoutAmount);
                    },
                };
                if let Err(e) = self.withdraw(a) {
                    return Err(e);
                }
                self.save_tx(tx);
                Ok(())
            },
            TransactionType::Dispute => {
                if let Some(_) = tx.amount {
                    return Err(Error::WithAmount);
                }
                self.dispute(tx.tx)
            },
            TransactionType::Resolve => {
                if let Some(_) = tx.amount {
                    return Err(Error::WithAmount);
                }
                self.resolve(tx.tx)
            },
            TransactionType::Chargeback => {
                if let Some(_) = tx.amount {
                    return Err(Error::WithAmount);
                }
                self.chargeback(tx.tx)
            },
        }
    }
}

/// Applying a record never changes whose ledger it is.
pub proof fn lemma_client_field(c: ClientView, tx: Transaction)
    ensures
        c.make_tx_spec(tx).0.client == c.client,
{
}

/// A history map's entry carries the id it is keyed under.
proof fn lemma_history_map_key(s: Seq<Transaction>, k: u32)
    requires
        history_map(s).contains_key(k),
    ensures
        history_map(s)[k].tx == k,
    decreases s.len(),
{
    if s.len() > 0 {
        if s.last().tx != k {
            lemma_history_map_key(s.drop_last(), k);
        }
    }
}

} // verus!
