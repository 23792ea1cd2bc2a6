//! The ledger's general laws, each proved once and for all over the
//! spec-level transitions that the executable operations are proved to
//! follow exactly.

use vstd::prelude::*;

use crate::amount::in_amount_range;
use crate::amount::lemma_add_val;
use crate::amount::lemma_sub_val;
use crate::amount::lemma_zero_props;
use crate::client::ClientView;
use crate::client::lemma_client_field;
use crate::client::new_client_view;
use crate::error::Error;
use crate::error::spec_recoverable;
use crate::processor::run_from;
use crate::processor::step_spec;
use crate::registry::client_index;
use crate::registry::has_client;
use crate::registry::registry_view_wf;
use crate::transaction::Transaction;
use crate::transaction::TransactionType;

verus! {

/// Applying any record to a well-formed ledger yields a well-formed ledger;
/// in particular the balance equation `total == available + held` holds at
/// every point in time.
pub proof fn lemma_balance_invariant(c: ClientView, tx: Transaction)
    requires
        c.wf(),
        tx.amount is Some ==> tx.amount->0.wf(),
    ensures
        c.make_tx_spec(tx).0.wf(),
        c.make_tx_spec(tx).0.total.val() == c.make_tx_spec(tx).0.available.val()
            + c.make_tx_spec(tx).0.held.val(),
{
    let (c2, e) = c.make_tx_spec(tx);
    match tx.tx_type {
        TransactionType::Deposit => {
            if tx.amount is Some {
                let a = tx.amount->0;
                if !c.locked && in_amount_range(c.available.val() + a.val())
                    && in_amount_range(c.total.val() + a.val()) {
                    lemma_add_val(c.available, a);
                    lemma_add_val(c.total, a);
                    assert forall|k: u32| #[trigger] c2.transactions.contains_key(k) implies (
                    c2.transactions[k].amount is Some ==> c2.transactions[k].amount->0.wf()) by {
                        if k != tx.tx {
                            assert(c.transactions.contains_key(k));
                        }
                    }
                }
            }
        },
        TransactionType::Withdrawal => {
            if tx.amount is Some {
                let a = tx.amount->0;
                if !c.locked && c.available.val() >= a.val() && in_amount_range(
                    c.available.val() - a.val(),
                ) && in_amount_range(c.total.val() - a.val()) {
                    lemma_sub_val(c.available, a);
                    lemma_sub_val(c.total, a);
                    assert forall|k: u32| #[trigger] c2.transactions.contains_key(k) implies (
                    c2.transactions[k].amount is Some ==> c2.transactions[k].amount->0.wf()) by {
                        if k != tx.tx {
                            assert(c.transactions.contains_key(k));
                        }
                    }
                }
            }
        },
        TransactionType::Dispute => {
            if tx.amount is None && !c.locked && c.transactions.contains_key(tx.tx) {
                let t = c.transactions[tx.tx];
                if t.tx_type.spec_referrable() && t.amount is Some {
                    let a = t.amount->0;
                    if in_amount_range(c.available.val() - a.val())
                        && in_amount_range(c.held.val() + a.val()) {
                        lemma_sub_val(c.available, a);
                        lemma_add_val(c.held, a);
                        assert forall|k: u32| #[trigger] c2.transactions.contains_key(k) implies (
                        c2.transactions[k].amount is Some
                            ==> c2.transactions[k].amount->0.wf()) by {
                            if k != tx.tx {
                                assert(c.transactions.contains_key(k));
                            }
                        }
                    }
                }
            }
        },
        TransactionType::Resolve => {
            if tx.amount is None && !c.locked && c.transactions.contains_key(tx.tx) {
                let t = c.transactions[tx.tx];
                if t.tx_type.spec_referrable() && t.spec_disputed() && t.amount is Some {
                    let a = t.amount->0;
                    if in_amount_range(c.available.val() + a.val())
                        && in_amount_range(c.held.val() - a.val()) {
                        lemma_add_val(c.available, a);
                        lemma_sub_val(c.held, a);
                    }
                }
            }
        },
        TransactionType::Chargeback => {
            if tx.amount is None && c.transactions.contains_key(tx.tx) {
                let t = c.transactions[tx.tx];
                if t.tx_type.spec_referrable() && t.spec_disputed() && t.amount is Some {
                    let a = t.amount->0;
                    if in_amount_range(c.held.val() - a.val())
                        && in_amount_range(c.total.val() - a.val()) {
                        lemma_sub_val(c.held, a);
                        lemma_sub_val(c.total, a);
                    }
                }
            }
        },
    }
}

/// The lock is monotonic: once an account is locked, no record ever
/// unlocks it.
pub proof fn lemma_locked_monotonic(c: ClientView, tx: Transaction)
    ensures
        c.locked ==> c.make_tx_spec(tx).0.locked,
{
}

/// Disputing a transaction, resolving it, then disputing and resolving it
/// again is legal (resolve leaves the dispute flag set) and returns the
/// balances exactly to where the first resolve left them.
pub proof fn lemma_dispute_resolve_cycle(c: ClientView, tx_id: u32)
    requires
        c.wf(),
        c.dispute_spec(tx_id).1 is None,
    ensures
        ({
            let c1 = c.dispute_spec(tx_id).0;
            let c2 = c1.resolve_spec(tx_id).0;
            let c3 = c2.dispute_spec(tx_id).0;
            let c4 = c3.resolve_spec(tx_id).0;
            &&& c1.resolve_spec(tx_id).1 is None
            &&& c2.dispute_spec(tx_id).1 is None
            &&& c3.resolve_spec(tx_id).1 is None
            &&& c4.available.val() == c2.available.val()
            &&& c4.held.val() == c2.held.val()
            &&& c4.total.val() == c2.total.val()
        }),
{
    let t = c.transactions[tx_id];
    let a = t.amount->0;
    assert(c.transactions.contains_key(tx_id));
    assert(a.wf());
    let c1 = c.dispute_spec(tx_id).0;
    lemma_sub_val(c.available, a);
    lemma_add_val(c.held, a);
    assert(c1.transactions[tx_id] == t.spec_dispute());
    let c2 = c1.resolve_spec(tx_id).0;
    lemma_add_val(c1.available, a);
    lemma_sub_val(c1.held, a);
    assert(c2.available.val() == c.available.val());
    assert(c2.held.val() == c.held.val());
    let c3 = c2.dispute_spec(tx_id).0;
    lemma_sub_val(c2.available, a);
    lemma_add_val(c2.held, a);
    assert(c3.transactions[tx_id] == t.spec_dispute());
    let c4 = c3.resolve_spec(tx_id).0;
    lemma_add_val(c3.available, a);
    lemma_sub_val(c3.held, a);
}

/// A withdrawal of more than is available leaves the ledger unchanged and
/// its failure is recoverable: the run continues with the next record.
pub proof fn lemma_overdraw_rejected(c: ClientView, tx: Transaction)
    requires
        !c.locked,
        tx.tx_type is Withdrawal,
        tx.amount is Some,
        tx.amount->0.val() > c.available.val(),
    ensures
        c.make_tx_spec(tx).0 == c,
        c.make_tx_spec(tx).1 is Some,
        spec_recoverable(c.make_tx_spec(tx).1->0),
{
}

/// A dispute, resolve or chargeback referencing a `tx` id that is not in
/// the account's history leaves the ledger unchanged and its failure is
/// recoverable: the run continues with the next record.
pub proof fn lemma_unknown_reference_rejected(c: ClientView, tx: Transaction)
    requires
        !c.locked,
        tx.tx_type is Dispute || tx.tx_type is Resolve || tx.tx_type is Chargeback,
        tx.amount is None,
        !c.transactions.contains_key(tx.tx),
    ensures
        c.make_tx_spec(tx).0 == c,
        c.make_tx_spec(tx).1 == Some(Error::TransactionNotFound(tx.tx)),
        spec_recoverable(c.make_tx_spec(tx).1->0),
{
}

/// A ledger starts well-formed: zero balances balance, and the history is
/// empty.
pub proof fn lemma_new_client_view_wf(id: u16)
    ensures
        new_client_view(id).wf(),
{
    lemma_zero_props();
}

/// The balance invariant holds of every ledger at every point of a run:
/// stepping well-formed ledgers with a record whose amount is in range
/// keeps them all well-formed, and so does a whole run.
pub proof fn lemma_run_preserves_wf(s: Seq<ClientView>, txs: Seq<Transaction>)
    requires
        registry_view_wf(s),
        forall|i: int|
            0 <= i < txs.len() ==> ((#[trigger] txs[i]).amount is Some ==> txs[i].amount->0.wf()),
    ensures
        run_from(s, txs) matches Ok(s2) ==> registry_view_wf(s2),
    decreases txs.len(),
{
    if txs.len() > 0 {
        let tx = txs[0];
        let s1 = if has_client(s, tx.client) {
            s
        } else {
            s.push(new_client_view(tx.client))
        };
        let i = if has_client(s, tx.client) {
            client_index(s, tx.client)
        } else {
            s.len() as int
        };
        if !has_client(s, tx.client) {
            lemma_new_client_view_wf(tx.client);
            assert forall|a: int, b: int| 0 <= a < b < s1.len() implies s1[a].client
                != s1[b].client by {
                if b == s1.len() - 1 {
                    assert(!(0 <= a < s.len() && s[a].client == tx.client));
                }
            }
        }
        assert(registry_view_wf(s1));
        assert(0 <= i < s1.len() && s1[i].client == tx.client);
        let c2 = s1[i].make_tx_spec(tx).0;
        lemma_balance_invariant(s1[i], tx);
        lemma_client_field(s1[i], tx);
        let s2 = s1.update(i, c2);
        assert forall|j: int| 0 <= j < s2.len() implies (#[trigger] s2[j]).wf() by {
            if j != i {
                assert(s2[j] == s1[j]);
            }
        }
        assert forall|a: int, b: int| 0 <= a < b < s2.len() implies s2[a].client
            != s2[b].client by {
            assert(s2[a].client == s1[a].client);
            assert(s2[b].client == s1[b].client);
        }
        assert(registry_view_wf(s2));
        assert(forall|j: int|
            0 <= j < txs.skip(1).len() ==> ((#[trigger] txs.skip(1)[j]).amount is Some ==> txs.skip(
                1,
            )[j].amount->0.wf()));
        lemma_run_preserves_wf(s2, txs.skip(1));
    }
}

/// A step whose failure is recoverable does not abort the run: the fold
/// goes on with the remaining records from the stepped state.
pub proof fn lemma_recoverable_step_continues(s: Seq<ClientView>, txs: Seq<Transaction>)
    requires
        txs.len() > 0,
        step_spec(s, txs[0]).1 matches Some(e) ==> spec_recoverable(e),
    ensures
        run_from(s, txs) == run_from(step_spec(s, txs[0]).0, txs.skip(1)),
{
}

} // verus!
