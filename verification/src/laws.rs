//! What holds of the operations, whatever the account and the input.

use vstd::prelude::*;

use crate::client::{account_of, ClientView, StoreView};
use crate::error::TransactionError;
use crate::amount::Amount;
use crate::client::History;
use crate::replay::{answer, apply, replay, representable};
use crate::transaction::{Operation, Transaction};
use crate::{ClientID, TransactionID};

verus! {

/// An operation on a locked account is rejected as such, and leaves the
/// account exactly as it was.
pub proof fn locked_account_is_untouched(account: ClientView, operation: Operation)
    requires
        account.locked,
    ensures
        operation.effect(account).account == account,
        operation.effect(account).result == Err::<(), _>(TransactionError::AccountLocked),
{
}

/// A rejected operation leaves the account exactly as it was.
pub proof fn rejection_leaves_account_untouched(account: ClientView, operation: Operation)
    requires
        operation.effect(account).result is Err,
    ensures
        operation.effect(account).account == account,
{
}

/// No operation unlocks an account, and none changes the identifier of one.
pub proof fn locked_stays_locked(account: ClientView, operation: Operation)
    ensures
        account.locked ==> operation.effect(account).account.locked,
        operation.effect(account).account.id == account.id,
{
}

/// A deposit on an account that is not locked is carried out. It adds its
/// amount to the available funds and records it as undisputed; it leaves
/// the held funds as they were and the account unlocked.
pub proof fn deposit_adds_to_available_only(account: ClientView, tx: TransactionID, amount: Amount)
    requires
        !account.locked,
    ensures
        account.deposit(tx, amount).result is Ok,
        account.deposit(tx, amount).account.available == account.available + amount@,
        account.deposit(tx, amount).account.held == account.held,
        !account.deposit(tx, amount).account.locked,
        account.deposit(tx, amount).account.history[tx] == (History { amount, dispute: false }),
{
}

/// A chargeback is carried out exactly on an unlocked account that records
/// the transaction as disputed. It then takes the amount of the transaction
/// from the held funds and from nothing else, ends the dispute, and locks
/// the account.
pub proof fn chargeback_takes_from_held_only(account: ClientView, tx: TransactionID)
    ensures
        account.chargeback(tx).result is Ok <==> !account.locked && account.history.contains_key(tx)
            && account.history[tx].dispute,
        account.chargeback(tx).result is Ok ==> {
            let charged = account.chargeback(tx).account;
            &&& charged.held == account.held - account.history[tx].amount@
            &&& charged.available == account.available
            &&& charged.locked
            &&& charged.history[tx] == (History {
                amount: account.history[tx].amount,
                dispute: false,
            })
        },
{
}

/// A dispute that is carried out, followed by a resolve of the same
/// transaction, gives back the account as it was before the dispute: the
/// same available and held funds, and the transaction undisputed again. The
/// dispute itself leaves the total of the account unchanged.
pub proof fn dispute_then_resolve_restores(account: ClientView, tx: TransactionID)
    requires
        account.dispute(tx).result is Ok,
    ensures
        account.dispute(tx).account.total() == account.total(),
        account.dispute(tx).account.resolve(tx).result is Ok,
        account.dispute(tx).account.resolve(tx).account == account,
        account.dispute(tx).account.resolve(tx).account.total() == account.total(),
        account.in_range() ==> account.dispute(tx).account.resolve(tx).account.in_range(),
{
    let disputed = account.dispute(tx).account;
    let resolved = disputed.resolve(tx).account;
    assert(resolved.history =~= account.history);
}

/// A dispute that is carried out, followed by a chargeback of the same
/// transaction: the chargeback is carried out, takes the disputed amount
/// from the held funds, leaves the available funds untouched, and locks the
/// account, which no later operation unlocks.
pub proof fn dispute_then_chargeback_locks(account: ClientView, tx: TransactionID)
    requires
        account.dispute(tx).result is Ok,
    ensures
        ({
            let disputed = account.dispute(tx).account;
            let charged = disputed.chargeback(tx);
            &&& charged.result is Ok
            &&& charged.account.held == disputed.held - account.history[tx].amount@
            &&& charged.account.held == account.held
            &&& charged.account.available == disputed.available
            &&& charged.account.total() == account.total() - account.history[tx].amount@
            &&& charged.account.locked
            &&& forall|later: Operation| #[trigger] later.effect(charged.account).account.locked
        }),
{
}

/// Only a deposit, a withdrawal or a chargeback changes the total of an
/// account: a dispute and a resolve leave it as it was.
pub proof fn dispute_and_resolve_keep_total(account: ClientView, tx: TransactionID)
    ensures
        account.dispute(tx).account.total() == account.total(),
        account.resolve(tx).account.total() == account.total(),
{
}

/// A withdrawal that is carried out leaves available funds that are not
/// negative, and no withdrawal takes the available funds of an account
/// below zero.
pub proof fn withdrawal_never_overdraws(account: ClientView, operation: Operation)
    requires
        operation is Withdrawal,
    ensures
        operation.effect(account).result is Ok ==> operation.effect(account).account.available
            >= 0,
        account.available >= 0 ==> operation.effect(account).account.available >= 0,
{
}

/// A valid account stays in range under every withdrawal and under every
/// operation that is rejected: these can always be executed.
pub proof fn withdrawals_and_rejections_stay_in_range(account: ClientView, operation: Operation)
    requires
        account.wf(),
        operation.wf(),
        operation is Withdrawal || operation.effect(account).result is Err,
    ensures
        operation.effect(account).account.in_range(),
{
}

/// After a dispute that left a valid account in range, the chargeback of
/// the same transaction leaves it in range too, where the held funds were
/// not negative before the dispute.
pub proof fn chargeback_after_dispute_stays_in_range(account: ClientView, tx: TransactionID)
    requires
        account.wf(),
        account.held >= 0,
        account.dispute(tx).result is Ok,
        account.dispute(tx).account.in_range(),
    ensures
        account.dispute(tx).account.chargeback(tx).account.in_range(),
{
}

/// Whether `operation` is a dispute that is carried out on `account` for
/// more than its available funds: the one way in which available funds
/// become negative.
pub open spec fn overdraws(account: ClientView, operation: Operation) -> bool {
    &&& operation is Dispute
    &&& operation.effect(account).result is Ok
    &&& account.available < account.history[operation.tx()].amount@
}

/// Available funds that are not negative stay so under every operation but
/// a dispute for more than the available funds. The record of amounts stays
/// free of negative ones under every operation.
pub proof fn available_stays_non_negative(account: ClientView, operation: Operation)
    requires
        account.records_non_negative(),
        operation.wf(),
        account.available >= 0,
        !overdraws(account, operation),
    ensures
        operation.effect(account).account.available >= 0,
        operation.effect(account).account.records_non_negative(),
{
}

/// Whether every account of a store has available funds that are not
/// negative and a record free of negative amounts.
pub open spec fn all_available_non_negative(store: StoreView) -> bool {
    forall|id: ClientID| #[trigger]
        store.contains_key(id) ==> store[id].available >= 0 && store[id].records_non_negative()
}

/// Whether no operation of the sequence, executed in turn from `store`, is a
/// dispute for more than the available funds of its account.
pub open spec fn never_overdrawn(store: StoreView, operations: Seq<Operation>) -> bool {
    forall|i: int|
        0 <= i < operations.len() ==> !overdraws(
            account_of(replay(store, operations.take(i)), (#[trigger] operations[i]).client_id()),
            operations[i],
        )
}

/// Where no account has negative available funds, none has after any
/// sequence of operations in which no dispute is for more than the
/// available funds of its account.
pub proof fn replay_keeps_available_non_negative(store: StoreView, operations: Seq<Operation>)
    requires
        all_available_non_negative(store),
        forall|i: int| 0 <= i < operations.len() ==> (#[trigger] operations[i]).wf(),
        never_overdrawn(store, operations),
    ensures
        all_available_non_negative(replay(store, operations)),
    decreases operations.len(),
{
    if operations.len() > 0 {
        let earlier = operations.drop_last();
        let last = operations.last();
        assert forall|i: int| 0 <= i < earlier.len() implies !overdraws(
            account_of(replay(store, earlier.take(i)), (#[trigger] earlier[i]).client_id()),
            earlier[i],
        ) by {
            assert(earlier.take(i) =~= operations.take(i));
            assert(earlier[i] == operations[i]);
        }
        replay_keeps_available_non_negative(store, earlier);
        let before = replay(store, earlier);
        assert(operations.take(operations.len() - 1) =~= earlier);
        assert(last == operations[operations.len() - 1]);
        available_stays_non_negative(account_of(before, last.client_id()), last);
    }
}

/// An operation touches the account of its own client only: every other
/// account of the store stays as it was, and no account leaves the store.
pub proof fn operation_touches_one_account(store: StoreView, operation: Operation, id: ClientID)
    ensures
        store.contains_key(id) ==> apply(store, operation).contains_key(id),
        apply(store, operation).contains_key(operation.client_id()),
        id != operation.client_id() ==> (apply(store, operation).contains_key(id)
            <==> store.contains_key(id)),
        id != operation.client_id() && store.contains_key(id) ==> apply(store, operation)[id]
            == store[id],
{
}

/// The sum of the amounts that the operations of a sequence carry for the
/// client `id`.
pub open spec fn carried_for(operations: Seq<Operation>, id: ClientID) -> int
    decreases operations.len(),
{
    if operations.len() == 0 {
        0
    } else {
        carried_for(operations.drop_last(), id) + if operations.last().client_id() == id {
            match operations.last().stated_amount() {
                Some(amount) => amount@,
                None => 0,
            }
        } else {
            0
        }
    }
}

/// Whether one of the operations of a sequence is meant for the client `id`.
pub open spec fn mentions(operations: Seq<Operation>, id: ClientID) -> bool {
    exists|i: int| 0 <= i < operations.len() && (#[trigger] operations[i]).client_id() == id
}

/// After a sequence of deposits on an empty store, the store holds an
/// account for exactly the clients that a deposit was meant for. Each has
/// the sum of its deposits as available funds, holds nothing, and is not
/// locked.
pub proof fn deposits_add_up(operations: Seq<Operation>)
    requires
        forall|i: int| 0 <= i < operations.len() ==> (#[trigger] operations[i]) is Deposit,
    ensures
        forall|id: ClientID|
            replay(StoreView::empty(), operations).contains_key(id) <==> mentions(operations, id),
        forall|id: ClientID| #[trigger]
            replay(StoreView::empty(), operations).contains_key(id) ==> {
                let account = replay(StoreView::empty(), operations)[id];
                &&& account.id == id
                &&& account.available == carried_for(operations, id)
                &&& account.held == 0
                &&& !account.locked
            },
        forall|id: ClientID| !mentions(operations, id) ==> carried_for(operations, id) == 0,
    decreases operations.len(),
{
    if operations.len() > 0 {
        let earlier = operations.drop_last();
        let last = operations.last();
        deposits_add_up(earlier);
        let before = replay(StoreView::empty(), earlier);
        let after = replay(StoreView::empty(), operations);
        assert(after == apply(before, last));
        assert forall|id: ClientID| after.contains_key(id) <==> mentions(operations, id) by {
            if mentions(earlier, id) {
                let i = choose|i: int| 0 <= i < earlier.len() && (#[trigger] earlier[i]).client_id() == id;
                assert(operations[i].client_id() == id);
            }
            if last.client_id() == id {
                assert(operations[operations.len() - 1].client_id() == id);
            }
            if mentions(operations, id) {
                let i = choose|i: int|
                    0 <= i < operations.len() && (#[trigger] operations[i]).client_id() == id;
                if i < earlier.len() {
                    assert(earlier[i].client_id() == id);
                }
            }
        }
        assert forall|id: ClientID| #[trigger] after.contains_key(id) implies ({
            &&& after[id].id == id
            &&& after[id].available == carried_for(operations, id)
            &&& after[id].held == 0
            &&& !after[id].locked
        }) by {
            if last.client_id() == id {
                let met = account_of(before, id);
                assert(last is Deposit);
                if before.contains_key(id) {
                    assert(met == before[id]);
                } else {
                    assert(!mentions(earlier, id));
                    assert(carried_for(earlier, id) == 0);
                }
                assert(after[id] == last.effect(met).account);
            } else {
                assert(before.contains_key(id));
                assert(after[id] == before[id]);
            }
        }
        assert forall|id: ClientID| !mentions(operations, id) implies carried_for(operations, id)
            == 0 by {
            if mentions(earlier, id) {
                let i = choose|i: int| 0 <= i < earlier.len() && (#[trigger] earlier[i]).client_id() == id;
                assert(operations[i].client_id() == id);
            }
            if last.client_id() == id {
                assert(operations[operations.len() - 1].client_id() == id);
            }
        }
    }
}

/// A locked account stays exactly as it is through every sequence of
/// operations, and each operation that is meant for it is rejected because
/// the account is locked.
pub proof fn locked_account_survives_replay(
    store: StoreView,
    operations: Seq<Operation>,
    id: ClientID,
)
    requires
        store.contains_key(id),
        store[id].locked,
    ensures
        replay(store, operations).contains_key(id),
        replay(store, operations)[id] == store[id],
        forall|i: int|
            0 <= i < operations.len() && (#[trigger] operations[i]).client_id() == id ==> answer(
                replay(store, operations.take(i)),
                operations[i],
            ) == Err::<(), _>(TransactionError::AccountLocked),
    decreases operations.len(),
{
    if operations.len() > 0 {
        let earlier = operations.drop_last();
        locked_account_survives_replay(store, earlier, id);
        assert forall|i: int|
            0 <= i < operations.len() && (#[trigger] operations[i]).client_id() == id implies answer(
            replay(store, operations.take(i)),
            operations[i],
        ) == Err::<(), _>(TransactionError::AccountLocked) by {
            if i < earlier.len() {
                assert(earlier.take(i) =~= operations.take(i));
                assert(earlier[i] == operations[i]);
            } else {
                assert(operations.take(i) =~= earlier);
            }
        }
    }
}

/// The amounts that valid operations carry for a client add up to no less
/// than those of the first `count` of them, which add up to no less than
/// nothing.
pub proof fn carried_for_grows(operations: Seq<Operation>, id: ClientID, count: int)
    requires
        forall|i: int| 0 <= i < operations.len() ==> (#[trigger] operations[i]).wf(),
        0 <= count <= operations.len(),
    ensures
        0 <= carried_for(operations.take(count), id) <= carried_for(operations, id),
    decreases operations.len(),
{
    if operations.len() == 0 {
        assert(operations.take(count) =~= operations);
    } else if count == operations.len() {
        assert(operations.take(count) =~= operations);
        carried_for_grows(operations.drop_last(), id, 0);
        assert(operations.drop_last().take(0) =~= Seq::<Operation>::empty());
        carried_for_grows(operations.drop_last(), id, count - 1);
        assert(operations.last().wf());
    } else {
        assert(operations.drop_last().take(count) =~= operations.take(count));
        carried_for_grows(operations.drop_last(), id, count);
        assert(operations.last().wf());
    }
}

/// Every deposit of a sequence of deposits on an empty store is carried
/// out, and leaves its account in range, where no client is given more in
/// all than an amount can hold.
pub proof fn deposits_are_carried_out(operations: Seq<Operation>, place: int)
    requires
        forall|i: int| 0 <= i < operations.len() ==> (#[trigger] operations[i]) is Deposit,
        forall|i: int| 0 <= i < operations.len() ==> (#[trigger] operations[i]).wf(),
        forall|id: ClientID| carried_for(operations, id) <= i64::MAX,
        0 <= place < operations.len(),
    ensures
        representable(replay(StoreView::empty(), operations.take(place)), operations[place]),
        answer(replay(StoreView::empty(), operations.take(place)), operations[place]) is Ok,
{
    let earlier = operations.take(place);
    let through = operations.take(place + 1);
    let operation = operations[place];
    let id = operation.client_id();
    deposits_add_up(earlier);
    carried_for_grows(operations, id, place);
    carried_for_grows(operations, id, place + 1);
    assert(through.drop_last() =~= earlier);
    assert(through.last() == operation);
    let before = replay(StoreView::empty(), earlier);
    if !before.contains_key(id) {
        assert(!mentions(earlier, id));
    }
}

} // verus!
