//! The state of a store, as rows and as text.

use itertools::Itertools;
use vstd::prelude::*;
use vstd::std_specs::hash::*;
use vstd::std_specs::iter::IteratorSpec;

use crate::amount::{fits, Amount};
use crate::client::{place_of_key, Client, ClientStore, ClientView, StoreView};
use crate::error::ReportError;
use crate::render::{as_text, document, render};
use crate::ClientID;

verus! {

broadcast use group_hash_axioms;

/// One account as the report shows it: the balances, their total, and
/// whether the account is locked.
#[derive(Clone, Copy, Debug, PartialEq, Eq, Structural)]
pub struct ClientRow {
    /// Identifier of the client.
    pub client: ClientID,
    /// Funds that can be withdrawn.
    pub available: Amount,
    /// Funds frozen by disputes.
    pub held: Amount,
    /// Available and held funds together.
    pub total: Amount,
    /// Whether the account is locked.
    pub locked: bool,
}

impl ClientRow {
    /// Whether the row shows `account`: its identifier, its balances, their
    /// sum as the total, and its lock.
    pub open spec fn describes(self, account: ClientView) -> bool {
        &&& self.client == account.id
        &&& self.available@ == account.available
        &&& self.held@ == account.held
        &&& self.total@ == account.total()
        &&& self.locked == account.locked
    }
}

/// Whether `rows` lists the accounts of `store`: one row for each account,
/// which shows that account, and no other row.
pub open spec fn lists(rows: Seq<ClientRow>, store: StoreView) -> bool {
    &&& rows.len() == store.dom().len()
    &&& forall|i: int|
        0 <= i < rows.len() ==> store.contains_key((#[trigger] rows[i]).client)
            && rows[i].describes(store[rows[i].client])
    &&& forall|i: int, j: int|
        0 <= i < j < rows.len() ==> (#[trigger] rows[i]).client != (#[trigger] rows[j]).client
    &&& forall|id: ClientID| #[trigger]
        store.contains_key(id) ==> exists|i: int|
            0 <= i < rows.len() && (#[trigger] rows[i]).client == id
}

/// Whether the rows come in ascending order of their clients.
pub open spec fn ascending(rows: Seq<ClientRow>) -> bool {
    forall|i: int, j: int|
        0 <= i < j < rows.len() ==> (#[trigger] rows[i]).client < (#[trigger] rows[j]).client
}

impl Client {
    /// The row that shows this account.
    pub fn row(&self) -> (row: ClientRow)
        requires
            fits(self@.total()),
        ensures
            row.describes(self@),
    {
        ClientRow {
            client: self.id,
            available: self.available,
            held: self.held,
            total: self.total(),
            locked: self.locked,
        }
    }
}

impl ClientStore {
    /// The rows of all accounts, in the order in which the map hands out
    /// its keys.
    fn rows(&self) -> (rows: Vec<ClientRow>)
        requires
            self.wf(),
        ensures
            lists(rows@, self@),
    {
        let mut rows: Vec<ClientRow> = Vec::new();
        let ghost walk = self.clients.keys().remaining();
        for key in it: self.clients.keys()
            invariant
                self.wf(),
                it.seq() == walk,
                rows@.len() == it.index(),
                forall|j: int|
                    0 <= j < rows@.len() ==> (#[trigger] rows@[j]).client == *walk[j]
                        && self@.contains_key(rows@[j].client) && rows@[j].describes(
                        self@[rows@[j].client],
                    ),
        {
            match self.clients.get(key) {
                Some(client) => {
                    rows.push(client.row());
                },
                None => {},
            }
        }
        proof {
            assert(rows@.len() == walk.len());
            assert(self@.dom() =~= self.clients@.dom());
            assert forall|i: int, j: int| 0 <= i < j < rows@.len() implies (#[trigger] rows@[i]).client
                != (#[trigger] rows@[j]).client by {
                assert(walk[i] != walk[j]);
            }
            assert forall|id: ClientID| #[trigger] self@.contains_key(id) implies exists|i: int|
                0 <= i < rows@.len() && (#[trigger] rows@[i]).client == id by {
                let place = place_of_key(walk, self.clients@.dom(), id);
                assert(rows@[place].client == id);
            }
        }
        rows
    }
}

/// Sorts rows with `Itertools::sorted_by_key`, by their client.
///
/// Not proved: that the result holds the same rows, each as often as the
/// argument does, and that the clients never descend from one row to the
/// next.
#[verifier::external_body]
fn sorted_by_client(rows: Vec<ClientRow>) -> (sorted: Vec<ClientRow>)
    ensures
        sorted@.to_multiset() == rows@.to_multiset(),
        forall|i: int, j: int|
            0 <= i < j < sorted@.len() ==> (#[trigger] sorted@[i]).client <= (
            #[trigger] sorted@[j]).client,
{
    rows.into_iter().sorted_by_key(|row| row.client).collect()
}

/// A listing stays one when its rows are put into another order.
pub proof fn reordered_rows_list(rows: Seq<ClientRow>, reordered: Seq<ClientRow>, store: StoreView)
    requires
        lists(rows, store),
        reordered.to_multiset() == rows.to_multiset(),
    ensures
        lists(reordered, store),
{
    broadcast use vstd::seq_lib::group_to_multiset_ensures;

    assert(reordered.len() == rows.len()) by {
        rows.to_multiset_ensures();
        reordered.to_multiset_ensures();
    }
    assert forall|i: int| 0 <= i < reordered.len() implies store.contains_key(
        (#[trigger] reordered[i]).client,
    ) && reordered[i].describes(store[reordered[i].client]) by {
        assert(reordered.contains(reordered[i]));
        assert(rows.to_multiset().count(reordered[i]) > 0);
        assert(rows.contains(reordered[i]));
        let k = choose|k: int| 0 <= k < rows.len() && rows[k] == reordered[i];
        assert(rows[k].describes(store[rows[k].client]));
    }
    assert(rows.no_duplicates());
    rows.lemma_multiset_has_no_duplicates();
    reordered.lemma_multiset_has_no_duplicates_conv();
    assert forall|i: int, j: int| 0 <= i < j < reordered.len() implies (#[trigger] reordered[i]).client
        != (#[trigger] reordered[j]).client by {
        if reordered[i].client == reordered[j].client {
            assert(reordered[i].describes(store[reordered[i].client]));
            assert(reordered[j].describes(store[reordered[i].client]));
            assert(reordered[i] == reordered[j]);
        }
    }
    assert forall|id: ClientID| #[trigger] store.contains_key(id) implies exists|i: int|
        0 <= i < reordered.len() && (#[trigger] reordered[i]).client == id by {
        let k = choose|k: int| 0 <= k < rows.len() && (#[trigger] rows[k]).client == id;
        assert(rows.contains(rows[k]));
        assert(reordered.to_multiset().count(rows[k]) > 0);
        assert(reordered.contains(rows[k]));
        let i = choose|i: int| 0 <= i < reordered.len() && reordered[i] == rows[k];
        assert(reordered[i].client == id);
    }
}

/// Two listings of a store in ascending order have the same clients in
/// their first `count` rows.
proof fn ascending_listings_agree(
    first: Seq<ClientRow>,
    second: Seq<ClientRow>,
    store: StoreView,
    count: int,
)
    requires
        lists(first, store),
        ascending(first),
        lists(second, store),
        ascending(second),
        0 <= count <= first.len(),
    ensures
        forall|k: int| 0 <= k < count ==> (#[trigger] first[k]).client == second[k].client,
    decreases count,
{
    if count > 0 {
        ascending_listings_agree(first, second, store, count - 1);
        let i = count - 1;
        let mine = first[i].client;
        let other = second[i].client;
        if mine < other {
            assert(store.contains_key(mine));
            let j = choose|j: int| 0 <= j < second.len() && (#[trigger] second[j]).client == mine;
            if j < i {
                assert(first[j].client == second[j].client);
            }
        } else if other < mine {
            assert(store.contains_key(other));
            let j = choose|j: int| 0 <= j < first.len() && (#[trigger] first[j]).client == other;
            if j < i {
                assert(first[j].client == second[j].client);
            }
        }
    }
}

/// A store has only one listing in ascending order.
pub proof fn ascending_listing_is_unique(
    first: Seq<ClientRow>,
    second: Seq<ClientRow>,
    store: StoreView,
)
    requires
        lists(first, store),
        ascending(first),
        lists(second, store),
        ascending(second),
    ensures
        first == second,
{
    ascending_listings_agree(first, second, store, first.len() as int);
    assert forall|k: int| 0 <= k < first.len() implies first[k] == second[k] by {
        assert(first[k].client == second[k].client);
        assert(first[k].describes(store[first[k].client]));
        assert(second[k].describes(store[second[k].client]));
    }
    assert(first =~= second);
}

impl ClientStore {
    /// The rows of all accounts: in ascending order of the clients where
    /// `sort` is set, else in no particular order.
    pub fn snapshot(&self, sort: bool) -> (rows: Vec<ClientRow>)
        requires
            self.wf(),
        ensures
            lists(rows@, self@),
            sort ==> ascending(rows@),
    {
        let rows = self.rows();
        if sort {
            let sorted = sorted_by_client(rows);
            proof {
                reordered_rows_list(rows@, sorted@, self@);
            }
            sorted
        } else {
            rows
        }
    }

    /// Get the current state of all the clients in the store.
    ///
    /// Returns the report of all the clients, their funds and their locks,
    /// as text: the report of the rows of [`ClientStore::snapshot`], see
    /// [`document`]. The clients can be sorted by their identifier, and the
    /// text is then the only one that the store has, see
    /// [`ascending_listing_is_unique`].
    ///
    /// The state of a valid store is always given, and that of a store
    /// without clients is empty.
    pub fn get_current_state(&self, sort: bool) -> (state: Result<String, ReportError>)
        requires
            self.wf(),
        ensures
            state is Ok,
            state matches Ok(text) ==> exists|rows: Seq<ClientRow>|
                {
                    &&& lists(rows, self@)
                    &&& sort ==> ascending(rows)
                    &&& text@ == as_text(#[trigger] document(rows))
                },
    {
        let rows = self.snapshot(sort);
        render(&rows)
    }
}

} // verus!
