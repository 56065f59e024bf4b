//! Replaying a sequence of input records against a store.

use vstd::prelude::*;
use vstd::std_specs::hash::*;

use crate::client::{account_of, ClientStore, ClientView, StoreView};
use crate::error::TransactionError;
use crate::record::CsvLine;
use crate::transaction::{Operation, Transaction};

verus! {

broadcast use group_hash_axioms;

/// The store after `operation` was executed on it: the account of the
/// operation's client, created first if need be, is what the operation left
/// of it, and every other account is as it was.
pub open spec fn apply(store: StoreView, operation: Operation) -> StoreView {
    store.insert(
        operation.client_id(),
        operation.effect(account_of(store, operation.client_id())).account,
    )
}

/// Whether `operation` is carried out on `store`, and if not, why.
pub open spec fn answer(store: StoreView, operation: Operation) -> Result<(), TransactionError> {
    operation.effect(account_of(store, operation.client_id())).result
}

/// Whether the account that `operation` leaves behind in `store` is in range.
pub open spec fn representable(store: StoreView, operation: Operation) -> bool {
    operation.effect(account_of(store, operation.client_id())).account.in_range()
}

/// The store after a sequence of operations was executed on it, first to
/// last.
pub open spec fn replay(store: StoreView, operations: Seq<Operation>) -> StoreView
    decreases operations.len(),
{
    if operations.len() == 0 {
        store
    } else {
        apply(replay(store, operations.drop_last()), operations.last())
    }
}

/// The operations that a sequence of records asks for.
pub open spec fn operations_of(records: Seq<CsvLine>) -> Seq<Operation> {
    records.map_values(|line: CsvLine| Operation::of_line(line))
}

impl ClientStore {
    /// Whether the account that `operation` would leave behind is in range,
    /// so that the operation can be executed on the store.
    pub fn can_execute(&self, operation: &Operation) -> (ok: bool)
        ensures
            ok == representable(self@, *operation),
    {
        let id = operation.requested_client_id();
        match self.clients.get(&id) {
            Some(client) => operation.can_execute(client),
            None => {
                assert(account_of(self@, id) == ClientView::fresh(id));
                proof {
                    if let Operation::Withdrawal(withdrawal) = operation {
                        use_type_invariant(withdrawal);
                    }
                }
                true
            },
        }
    }
}

/// Execute the operations that `records` ask for on the store, first to last.
///
/// A rejected operation leaves its account as it was, or new where the
/// client had none, and does not stop the run: the answer to each operation
/// is returned, in order. The run ends early, before the first operation
/// that would take an account out of range, and the answers then end there
/// too.
pub fn handle_transactions(records: &Vec<CsvLine>, store: &mut ClientStore) -> (answers: Vec<
    Result<(), TransactionError>,
>)
    requires
        old(store).wf(),
    ensures
        final(store).wf(),
        answers@.len() <= records@.len(),
        final(store)@ == replay(old(store)@, operations_of(records@.take(answers@.len() as int))),
        forall|i: int|
            #![trigger answers@[i]]
            0 <= i < answers@.len() ==> {
                let before = replay(old(store)@, operations_of(records@.take(i)));
                &&& representable(before, Operation::of_line(records@[i]))
                &&& answers@[i] == answer(before, Operation::of_line(records@[i]))
            },
        answers@.len() < records@.len() ==> !representable(
            final(store)@,
            Operation::of_line(records@[answers@.len() as int]),
        ),
{
    let mut answers: Vec<Result<(), TransactionError>> = Vec::new();
    let mut i: usize = 0;
    while i < records.len()
        invariant
            store.wf(),
            i == answers@.len(),
            i <= records@.len(),
            store@ == replay(old(store)@, operations_of(records@.take(i as int))),
            forall|j: int|
                #![trigger answers@[j]]
                0 <= j < answers@.len() ==> {
                    let before = replay(old(store)@, operations_of(records@.take(j)));
                    &&& representable(before, Operation::of_line(records@[j]))
                    &&& answers@[j] == answer(before, Operation::of_line(records@[j]))
                },
        decreases records@.len() - i,
    {
        let operation = Operation::from(records[i]);
        if !store.can_execute(&operation) {
            return answers;
        }
        let ghost before = store@;
        let result = store.execute(&operation);
        proof {
            let taken = operations_of(records@.take(i + 1));
            assert(taken.drop_last() =~= operations_of(records@.take(i as int)));
            assert(taken.last() == operation);
            assert(store@ == apply(before, operation));
        }
        answers.push(result);
        i = i + 1;
    }
    proof {
        assert(records@.take(i as int) =~= records@);
    }
    answers
}

} // verus!
