//! The stream processor: folds an ordered, finite sequence of transaction
//! records into the ledger registry in a single forward pass, swallowing
//! recoverable failures and aborting on any other.

use vstd::prelude::*;

use crate::client::ClientView;
use crate::client::lemma_client_field;
use crate::client::new_client_view;
use crate::error::Error;
use crate::error::res_err;
use crate::error::spec_recoverable;
use crate::registry::Registry;
use crate::registry::client_index;
use crate::registry::has_client;
use crate::transaction::Transaction;

verus! {

/// One step of the fold: resolve the record's ledger (creating it on first
/// reference), apply the record, and give back the new state and any
/// failure.  The ledger is created even when the record then fails.
pub open spec fn step_spec(s: Seq<ClientView>, tx: Transaction) -> (Seq<ClientView>, Option<
    Error,
>) {
    let s1 = if has_client(s, tx.client) {
        s
    } else {
        s.push(new_client_view(tx.client))
    };
    let i = if has_client(s, tx.client) {
        client_index(s, tx.client)
    } else {
        s.len() as int
    };
    let (c, e) = s1[i].make_tx_spec(tx);
    (s1.update(i, c), e)
}

/// Folds the remaining records over a registry state, in order: a
/// recoverable failure is swallowed and processing continues with the next
/// record; any other failure aborts the whole run.
pub open spec fn run_from(s: Seq<ClientView>, txs: Seq<Transaction>) -> Result<
    Seq<ClientView>,
    Error,
>
    decreases txs.len(),
{
    if txs.len() == 0 {
        Ok(s)
    } else {
        let (s2, e) = step_spec(s, txs[0]);
        match e {
            Some(err) => if spec_recoverable(err) {
                run_from(s2, txs.skip(1))
            } else {
                Err(err)
            },
            None => run_from(s2, txs.skip(1)),
        }
    }
}

/// The whole run over an empty starting registry.
pub open spec fn run_spec(txs: Seq<Transaction>) -> Result<Seq<ClientView>, Error> {
    run_from(Seq::empty(), txs)
}

/// Consumes the transactions strictly in input order, resolving each
/// record's ledger through the registry and applying it; produces the final
/// registry, or the first fatal failure.
pub fn process_transactions(txs: Vec<Transaction>) -> (r: Result<Registry, Error>)
    ensures
        match r {
            Ok(reg) => reg.wf() && run_spec(txs@) == Ok::<Seq<ClientView>, Error>(reg@),
            Err(e) => run_spec(txs@) == Err::<Seq<ClientView>, Error>(e),
        },
{
    let mut reg = Registry::new();
    proof {
        assert(txs@.skip(0) =~= txs@);
    }
    let n = txs.len();
    let mut i: usize = 0;
    while i < n
        invariant
            reg.wf(),
            n == txs@.len(),
            i <= n,
            run_from(reg@, txs@.skip(i as int)) == run_spec(txs@),
        decreases n - i,
    {
        let ghost s = reg@;
        let tx = txs[i];
        let idx = reg.get_or_create(tx.client);
        let ghost s1 = reg@;
        let ghost cs = reg.clients@;
        let mut c = reg.clients.remove(idx);
        let ghost cv = c@;
        let res = c.make_tx(tx);
        reg.clients.insert(idx, c);
        proof {
            assert(cv == s1[idx as int]);
            assert(reg.clients@ =~= cs.update(idx as int, c));
            assert(reg@ =~= s1.update(idx as int, c@));
            lemma_client_field(cv, tx);
            assert forall|j: int| 0 <= j < reg@.len() implies (#[trigger] reg@[j]).wf() by {
                if j != idx as int {
                    assert(reg@[j] == s1[j]);
                }
            }
            assert forall|a: int, b: int| 0 <= a < b < reg@.len() implies reg@[a].client
                != reg@[b].client by {
                assert(reg@[a].client == s1[a].client);
                assert(reg@[b].client == s1[b].client);
            }
            assert forall|j: int|
                0 <= j < reg.clients@.len() implies crate::client::unique_tx_ids(
                (#[trigger] reg.clients@[j]).transactions@,
            ) by {
                if j != idx as int {
                    assert(reg.clients@[j] == cs[j]);
                }
            }
            assert(step_spec(s, tx) == (reg@, res_err(res)));
            assert(txs@.skip(i as int).skip(1) =~= txs@.skip(i as int + 1));
            assert(txs@.skip(i as int)[0] == txs@[i as int]);
        }
        if let Err(e) = res {
            if !e.is_recoverable() {
                return Err(e);
            }
        }
        i = i + 1;
    }
    Ok(reg)
}

} // verus!
