//! The ledger registry: one account ledger per client, created lazily on
//! first reference, kept in first-seen order for deterministic reporting.

use vstd::prelude::*;

use crate::client::Client;
use crate::client::ClientView;
use crate::client::new_client_view;
use crate::client::unique_tx_ids;

verus! {

/// Whether some ledger in the sequence belongs to the given client.
pub open spec fn has_client(s: Seq<ClientView>, id: u16) -> bool {
    exists|i: int| 0 <= i < s.len() && s[i].client == id
}

/// The index of the given client's ledger; meaningful when `has_client`
/// holds and the ids are distinct.
pub open spec fn client_index(s: Seq<ClientView>, id: u16) -> int {
    choose|i: int| 0 <= i < s.len() && s[i].client == id
}

/// Abstract well-formedness of a registry state: each ledger is well-formed
/// and no two ledgers belong to the same client.
pub open spec fn registry_view_wf(s: Seq<ClientView>) -> bool {
    &&& forall|i: int| 0 <= i < s.len() ==> (#[trigger] s[i]).wf()
    &&& forall|i: int, j: int| 0 <= i < j < s.len() ==> s[i].client != s[j].client
}

/// Mapping from client id to account ledger, in first-seen order.
#[derive(Debug)]
pub struct Registry {
    pub clients: Vec<Client>,
}

impl View for Registry {
    type V = Seq<ClientView>;

    open spec fn view(&self) -> Seq<ClientView> {
        self.clients@.map_values(|c: Client| c@)
    }
}

impl Registry {
    pub open spec fn wf(self) -> bool {
        &&& registry_view_wf(self@)
        &&& forall|i: int|
            0 <= i < self.clients@.len() ==> unique_tx_ids(
                (#[trigger] self.clients@[i]).transactions@,
            )
    }

    /// An empty registry.
    pub fn new() -> (r: Registry)
        ensures
            r.wf(),
            r@ == Seq::<ClientView>::empty(),
    {
        let r = Registry { clients: Vec::new() };
        proof {
            assert(r@ =~= Seq::<ClientView>::empty());
        }
        r
    }

    /// The position of the client's ledger, creating a zero-balance unlocked
    /// one at the end on first reference.  Never fails.
    pub fn get_or_create(&mut self, id: u16) -> (idx: usize)
        requires
            old(self).wf(),
        ensures
            final(self).wf(),
            idx < final(self)@.len(),
            final(self)@[idx as int].client == id,
            has_client(old(self)@, id) ==> final(self)@ == old(self)@ && idx as int
                == client_index(old(self)@, id),
            !has_client(old(self)@, id) ==> final(self)@ == old(self)@.push(new_client_view(id))
                && idx == old(self)@.len(),
    {
        let n = self.clients.len();
        let mut i: usize = 0;
        while i < n
            invariant
                self.clients@ == old(self).clients@,
                old(self).wf(),
                n == self.clients@.len(),
                i <= n,
                forall|j: int| 0 <= j < i ==> self.clients@[j].client != id,
            decreases n - i,
        {
            if self.clients[i].client == id {
                proof {
                    assert(self@[i as int] == self.clients@[i as int]@);
                    assert(self@[i as int].client == id);
                    assert(has_client(self@, id));
                    let w = client_index(self@, id);
                    assert(0 <= w < self@.len() && self@[w].client == id);
                    if w < i as int {
                        assert(self@[w].client != self@[i as int].client);
                    } else if w > i as int {
                        assert(self@[i as int].client != self@[w].client);
                    }
                }
                return i;
            }
            i = i + 1;
        }
        proof {
            assert forall|j: int| 0 <= j < self@.len() implies self@[j].client != id by {
                assert(self@[j] == self.clients@[j]@);
            }
        }
        let fresh = Client::new(id);
        self.clients.push(fresh);
        proof {
            assert(final(self)@ =~= old(self)@.push(new_client_view(id)));
        }
        n
    }

    /// The ledgers in first-seen client order, for deterministic reporting.
    pub fn snapshot(&self) -> (r: &Vec<Client>)
        ensures
            r == &self.clients,
    {
        &self.clients
    }
}

} // verus!
