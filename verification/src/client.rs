//! Client accounts and the store that owns them.

use std::collections::HashMap;
use vstd::prelude::*;
use vstd::std_specs::hash::*;
use vstd::std_specs::iter::IteratorSpec;

use crate::amount::{fits, Amount};
use crate::error::TransactionError;
use crate::transaction::Transaction;
use crate::{ClientID, TransactionID};

verus! {

broadcast use group_hash_axioms;

/// A place at which a walk over the keys of a map meets a given key of the
/// map.
pub proof fn place_of_key<Key>(walk: Seq<&Key>, keys: Set<Key>, key: Key) -> (place: int)
    requires
        walk.unref().to_set() == keys,
        keys.contains(key),
    ensures
        0 <= place < walk.len(),
        *walk[place] == key,
{
    assert(walk.unref().to_set().contains(key));
    let place = choose|place: int| 0 <= place < walk.unref().len() && walk.unref()[place] == key;
    assert(*walk[place] == key);
    place
}

/// A recorded deposit or withdrawal.
#[derive(Clone, Copy, Debug, PartialEq, Eq, Structural)]
pub struct History {
    /// Amount of the transaction.
    pub amount: Amount,
    /// Whether the transaction is being disputed.
    pub dispute: bool,
}

impl History {
    /// The record of a transaction of `amount` that nobody disputes.
    pub fn new(amount: Amount) -> (record: History)
        ensures
            record == (History { amount, dispute: false }),
    {
        Self { amount, dispute: false }
    }
}

/// The mathematical value of an account: balances are unbounded integers,
/// counted in ten-thousandths.
pub struct ClientView {
    /// Identifier of the account.
    pub id: ClientID,
    /// Funds that can be withdrawn.
    pub available: int,
    /// Funds frozen by disputes.
    pub held: int,
    /// Whether the account takes no further operations.
    pub locked: bool,
    /// The deposits and withdrawals that were carried out, by transaction.
    pub history: Map<TransactionID, History>,
}

impl ClientView {
    /// The account that a client has before its first operation.
    pub open spec fn fresh(id: ClientID) -> ClientView {
        ClientView { id, available: 0, held: 0, locked: false, history: Map::empty() }
    }

    /// Available and held funds together.
    pub open spec fn total(self) -> int {
        self.available + self.held
    }

    /// Whether both balances and their total can be held by an [`Amount`].
    pub open spec fn in_range(self) -> bool {
        &&& fits(self.available)
        &&& fits(self.held)
        &&& fits(self.total())
    }

    /// Whether no recorded amount is negative.
    pub open spec fn records_non_negative(self) -> bool {
        forall|tx: TransactionID| #[trigger]
            self.history.contains_key(tx) ==> self.history[tx].amount@ >= 0
    }

    /// Validity of an account: it is in range and records no negative amount.
    pub open spec fn wf(self) -> bool {
        &&& self.in_range()
        &&& self.records_non_negative()
    }
}

/// Representation of a client's account.
pub struct Client {
    /// Client's unique identifier.
    pub id: ClientID,
    /// Amount of currently available funds.
    pub available: Amount,
    /// Amount of currently held funds.
    pub held: Amount,
    /// Whether the client is locked.
    pub locked: bool,
    /// All recorded transactions of the client.
    pub client_history: HashMap<TransactionID, History>,
}

impl View for Client {
    type V = ClientView;

    open spec fn view(&self) -> ClientView {
        ClientView {
            id: self.id,
            available: self.available@,
            held: self.held@,
            locked: self.locked,
            history: self.client_history@,
        }
    }
}

impl Client {
    /// Validity of an account, see [`ClientView::wf`].
    pub open spec fn wf(&self) -> bool {
        self@.wf()
    }

    /// A new account for the client `id`: no funds, not locked, no history.
    pub fn new(id: ClientID) -> (client: Client)
        ensures
            client@ == ClientView::fresh(id),
            client.wf(),
    {
        Client {
            id,
            available: Amount::zero(),
            held: Amount::zero(),
            locked: false,
            client_history: HashMap::new(),
        }
    }

    /// Whether the account is valid, see [`ClientView::wf`].
    pub fn is_valid(&self) -> (valid: bool)
        ensures
            valid == self.wf(),
    {
        if !self.available.can_add(self.held) {
            return false;
        }
        let ghost walk = self.client_history.keys().remaining();
        for tx in it: self.client_history.keys()
            invariant
                it.seq() == walk,
                forall|j: int|
                    0 <= j < it.index() ==> self.client_history@.contains_key(*walk[j])
                        && self.client_history@[*#[trigger] walk[j]].amount@ >= 0,
        {
            match self.client_history.get(tx) {
                Some(record) => {
                    if record.amount.units < 0 {
                        assert(self@.history.contains_key(*tx) && self@.history[*tx].amount@ < 0);
                        return false;
                    }
                },
                None => {},
            }
        }
        proof {
            assert forall|tx: TransactionID| #[trigger]
                self@.history.contains_key(tx) implies self@.history[tx].amount@ >= 0 by {
                let place = place_of_key(walk, self.client_history@.dom(), tx);
                assert(self.client_history@[*walk[place]].amount@ >= 0);
            }
        }
        true
    }

    /// The client's total funds: available and held together.
    pub fn total(&self) -> (total: Amount)
        requires
            fits(self@.total()),
        ensures
            total@ == self@.total(),
    {
        self.available.plus(self.held)
    }
}

/// The mathematical value of a store: the accounts by client.
pub type StoreView = Map<ClientID, ClientView>;

/// The account that an operation for the client `id` meets in a store: the
/// client's own, or a fresh one where the client has none yet.
pub open spec fn account_of(store: StoreView, id: ClientID) -> ClientView {
    if store.contains_key(id) {
        store[id]
    } else {
        ClientView::fresh(id)
    }
}

/// Collection of all clients.
///
/// Every client has a unique identifier.
pub struct ClientStore {
    /// Map of a client's unique identifier to the client.
    pub clients: HashMap<ClientID, Client>,
}

impl View for ClientStore {
    type V = StoreView;

    open spec fn view(&self) -> StoreView {
        self.clients@.map_values(|client: Client| client@)
    }
}

impl ClientStore {
    /// Validity of a store: every account is valid and is kept under its
    /// own identifier.
    pub open spec fn wf(&self) -> bool {
        forall|id: ClientID| #[trigger]
            self.clients@.contains_key(id) ==> self.clients@[id].wf() && self.clients@[id].id
                == id
    }

    /// Whether the store is valid, see [`ClientStore::wf`].
    pub fn is_valid(&self) -> (valid: bool)
        ensures
            valid == self.wf(),
    {
        let ghost walk = self.clients.keys().remaining();
        for id in it: self.clients.keys()
            invariant
                it.seq() == walk,
                forall|j: int|
                    0 <= j < it.index() ==> self.clients@.contains_key(*walk[j])
                        && self.clients@[*#[trigger] walk[j]].wf() && self.clients@[*walk[j]].id
                        == *walk[j],
        {
            match self.clients.get(id) {
                Some(client) => {
                    if client.id != *id || !client.is_valid() {
                        return false;
                    }
                },
                None => {},
            }
        }
        proof {
            assert forall|id: ClientID| #[trigger] self.clients@.contains_key(id) implies
                self.clients@[id].wf() && self.clients@[id].id == id by {
                let place = place_of_key(walk, self.clients@.dom(), id);
                assert(self.clients@[*walk[place]].wf());
            }
        }
        true
    }

    /// Create a new store, which holds no client yet.
    pub fn new() -> (store: ClientStore)
        ensures
            store@ == StoreView::empty(),
            store.wf(),
    {
        let store = Self { clients: HashMap::new() };
        assert(store@ =~= StoreView::empty());
        store
    }

    /// Execute the transaction on the store.
    ///
    /// The account of the transaction's client is looked up, or created if
    /// this is the client's first transaction, and the transaction is
    /// executed on it. An account that was created stays in the store even
    /// where the transaction is rejected.
    ///
    /// The account that the transaction leaves behind must be in range.
    pub fn execute<T>(&mut self, transaction: &T) -> (result: Result<(), TransactionError>) where
        T: Transaction + ?Sized,

        requires
            old(self).wf(),
            transaction.effect(
                account_of(old(self)@, transaction.client_id()),
            ).account.in_range(),
        ensures
            final(self)@ == old(self)@.insert(
                transaction.client_id(),
                transaction.effect(account_of(old(self)@, transaction.client_id())).account,
            ),
            result == transaction.effect(
                account_of(old(self)@, transaction.client_id()),
            ).result,
            final(self).wf(),
    {
        let id = transaction.requested_client_id();
        let client = self.clients.entry(id).or_insert(Client::new(id));
        let result = transaction.execute(client);
        assert(self@ =~= old(self)@.insert(
            id,
            transaction.effect(account_of(old(self)@, id)).account,
        ));
        result
    }
}

impl Default for ClientStore {
    fn default() -> (store: ClientStore)
        ensures
            store@ == StoreView::empty(),
            store.wf(),
    {
        Self::new()
    }
}

} // verus!
