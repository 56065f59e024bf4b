//! The operations and what each of them does to an account.

use vstd::prelude::*;
use vstd::std_specs::hash::*;

use crate::amount::{fits, Amount};
use crate::client::{Client, ClientView, History};
use crate::error::TransactionError;
use crate::record::{CsvLine, CsvLineType};
use crate::{ClientID, TransactionID};

verus! {

broadcast use group_hash_axioms;

/// What an operation leaves behind: the account after it, and whether it was
/// carried out.
pub struct Outcome {
    /// The account after the operation.
    pub account: ClientView,
    /// `Ok` where the operation was carried out, else the reason it was not.
    pub result: Result<(), TransactionError>,
}

impl ClientView {
    /// The outcome of an operation that was carried out and left `self`.
    pub open spec fn accepted(self) -> Outcome {
        Outcome { account: self, result: Ok(()) }
    }

    /// The outcome of an operation that was rejected: `self` is untouched.
    pub open spec fn rejected(self, reason: TransactionError) -> Outcome {
        Outcome { account: self, result: Err(reason) }
    }

    /// The account with the dispute flag of a recorded transaction set to `dispute`.
    pub open spec fn flagged(self, tx: TransactionID, dispute: bool) -> ClientView {
        ClientView {
            history: self.history.insert(tx, History { amount: self.history[tx].amount, dispute }),
            ..self
        }
    }

    /// A deposit adds to the available funds and is recorded, unless the
    /// account is locked.
    pub open spec fn deposit(self, tx: TransactionID, amount: Amount) -> Outcome {
        if self.locked {
            self.rejected(TransactionError::AccountLocked)
        } else {
            ClientView {
                available: self.available + amount@,
                history: self.history.insert(tx, History { amount, dispute: false }),
                ..self
            }.accepted()
        }
    }

    /// A withdrawal takes from the available funds and is recorded, unless
    /// the account is locked or the available funds do not cover it.
    pub open spec fn withdraw(self, tx: TransactionID, amount: Amount) -> Outcome {
        if self.locked {
            self.rejected(TransactionError::AccountLocked)
        } else if self.available < amount@ {
            self.rejected(TransactionError::InsufficientFunds)
        } else {
            ClientView {
                available: self.available - amount@,
                history: self.history.insert(tx, History { amount, dispute: false }),
                ..self
            }.accepted()
        }
    }

    /// A dispute moves the amount of a recorded, undisputed transaction from
    /// the available to the held funds and marks the transaction disputed.
    pub open spec fn dispute(self, tx: TransactionID) -> Outcome {
        if self.locked {
            self.rejected(TransactionError::AccountLocked)
        } else if !self.history.contains_key(tx) {
            self.rejected(TransactionError::UnknownReferencedTransaction)
        } else if self.history[tx].dispute {
            self.rejected(TransactionError::TransactionAlreadyDisputed)
        } else {
            ClientView {
                available: self.available - self.history[tx].amount@,
                held: self.held + self.history[tx].amount@,
                ..self.flagged(tx, true)
            }.accepted()
        }
    }

    /// A resolve moves the amount of a disputed transaction back from the
    /// held to the available funds and ends the dispute.
    pub open spec fn resolve(self, tx: TransactionID) -> Outcome {
        if self.locked {
            self.rejected(TransactionError::AccountLocked)
        } else if !self.history.contains_key(tx) {
            self.rejected(TransactionError::UnknownReferencedTransaction)
        } else if !self.history[tx].dispute {
            self.rejected(TransactionError::TransactionNotDisputed)
        } else {
            ClientView {
                available: self.available + self.history[tx].amount@,
                held: self.held - self.history[tx].amount@,
                ..self.flagged(tx, false)
            }.accepted()
        }
    }

    /// A chargeback removes the amount of a disputed transaction from the
    /// held funds, ends the dispute and locks the account.
    pub open spec fn chargeback(self, tx: TransactionID) -> Outcome {
        if self.locked {
            self.rejected(TransactionError::AccountLocked)
        } else if !self.history.contains_key(tx) {
            self.rejected(TransactionError::UnknownReferencedTransaction)
        } else if !self.history[tx].dispute {
            self.rejected(TransactionError::TransactionNotDisputed)
        } else {
            ClientView {
                held: self.held - self.history[tx].amount@,
                locked: true,
                ..self.flagged(tx, false)
            }.accepted()
        }
    }
}

/// An operation on a client's account.
///
/// An implementation says in `effect` what the operation does to the view of
/// an account, and `execute` does exactly that to the account itself.
pub trait Transaction {
    /// The client whose account the operation is meant for.
    spec fn client_id(&self) -> ClientID;

    /// The amount that the operation carries, if it carries one.
    spec fn stated_amount(&self) -> Option<Amount>;

    /// What the operation does to an account.
    spec fn effect(&self, account: ClientView) -> Outcome;

    /// Execute the operation on the client's account.
    ///
    /// The account that the operation leaves behind must be in range: its
    /// balances and their total are held in [`Amount`]s.
    fn execute(&self, client: &mut Client) -> (result: Result<(), TransactionError>)
        requires
            old(client).wf(),
            self.effect(old(client)@).account.in_range(),
        ensures
            final(client)@ == self.effect(old(client)@).account,
            result == self.effect(old(client)@).result,
            final(client).wf(),
            final(client).id == old(client).id,
    ;

    /// The client that this operation is meant to run against.
    fn requested_client_id(&self) -> (id: ClientID)
        ensures
            id == self.client_id(),
    ;

    /// The amount of this operation, for the kinds that carry one.
    fn amount(&self) -> (amount: Option<Amount>)
        ensures
            amount == self.stated_amount(),
    ;
}

/// Adds funds to a client's account.
#[derive(Clone, Copy, Debug)]
pub struct Deposit {
    transaction_id: TransactionID,
    client_id: ClientID,
    amount: Amount,
}

impl Deposit {
    /// The transaction that the deposit is recorded under.
    pub closed spec fn tx(&self) -> TransactionID {
        self.transaction_id
    }

    /// The client whose account receives the funds.
    pub closed spec fn client(&self) -> ClientID {
        self.client_id
    }

    /// The funds to add.
    pub closed spec fn value(&self) -> Amount {
        self.amount
    }

    /// A deposit never carries a negative amount.
    #[verifier::type_invariant]
    pub open spec fn wf(&self) -> bool {
        self.value()@ >= 0
    }

    /// Create a new deposit for a client with an amount and a specific
    /// transaction id.
    pub fn new(transaction_id: TransactionID, client_id: ClientID, amount: Amount) -> (deposit:
        Deposit)
        requires
            amount@ >= 0,
        ensures
            deposit.tx() == transaction_id,
            deposit.client() == client_id,
            deposit.value() == amount,
            deposit.wf(),
    {
        Self { transaction_id, client_id, amount }
    }
}

impl Transaction for Deposit {
    open spec fn client_id(&self) -> ClientID {
        self.client()
    }

    open spec fn stated_amount(&self) -> Option<Amount> {
        Some(self.value())
    }

    open spec fn effect(&self, account: ClientView) -> Outcome {
        account.deposit(self.tx(), self.value())
    }

    /// Add funds to the available balance of the client and record the
    /// deposit, so that it can be disputed later. A locked account rejects it.
    fn execute(&self, client: &mut Client) -> (result: Result<(), TransactionError>) {
        proof {
            use_type_invariant(self);
        }
        if client.locked {
            return Err(TransactionError::AccountLocked);
        }
        client.available = client.available.plus(self.amount);
        client.client_history.insert(self.transaction_id, History::new(self.amount));
        Ok(())
    }

    fn requested_client_id(&self) -> (id: ClientID) {
        self.client_id
    }

    fn amount(&self) -> (amount: Option<Amount>) {
        Some(self.amount)
    }
}

/// Takes funds from a client's account.
#[derive(Clone, Copy, Debug)]
pub struct Withdrawal {
    transaction_id: TransactionID,
    client_id: ClientID,
    amount: Amount,
}

impl Withdrawal {
    /// The transaction that the withdrawal is recorded under.
    pub closed spec fn tx(&self) -> TransactionID {
        self.transaction_id
    }

    /// The client whose account gives the funds.
    pub closed spec fn client(&self) -> ClientID {
        self.client_id
    }

    /// The funds to take.
    pub closed spec fn value(&self) -> Amount {
        self.amount
    }

    /// A withdrawal never carries a negative amount.
    #[verifier::type_invariant]
    pub open spec fn wf(&self) -> bool {
        self.value()@ >= 0
    }

    /// Create a new withdrawal for a client with an amount and a specific
    /// transaction id.
    pub fn new(transaction_id: TransactionID, client_id: ClientID, amount: Amount) -> (withdrawal:
        Withdrawal)
        requires
            amount@ >= 0,
        ensures
            withdrawal.tx() == transaction_id,
            withdrawal.client() == client_id,
            withdrawal.value() == amount,
            withdrawal.wf(),
    {
        Self { transaction_id, client_id, amount }
    }
}

impl Transaction for Withdrawal {
    open spec fn client_id(&self) -> ClientID {
        self.client()
    }

    open spec fn stated_amount(&self) -> Option<Amount> {
        Some(self.value())
    }

    open spec fn effect(&self, account: ClientView) -> Outcome {
        account.withdraw(self.tx(), self.value())
    }

    /// Remove funds from the available balance of the client and record the
    /// withdrawal, so that it can be disputed later. A locked account rejects
    /// it, and so does one whose available funds do not cover the amount.
    fn execute(&self, client: &mut Client) -> (result: Result<(), TransactionError>) {
        proof {
            use_type_invariant(self);
        }
        if client.locked {
            return Err(TransactionError::AccountLocked);
        }
        if client.available.units < self.amount.units {
            Err(TransactionError::InsufficientFunds)
        } else {
            client.available = client.available.minus(self.amount);
            client.client_history.insert(self.transaction_id, History::new(self.amount));
            Ok(())
        }
    }

    fn requested_client_id(&self) -> (id: ClientID) {
        self.client_id
    }

    fn amount(&self) -> (amount: Option<Amount>) {
        Some(self.amount)
    }
}

/// Claims that a recorded transaction was wrong, and freezes its amount.
#[derive(Clone, Copy, Debug)]
pub struct Dispute {
    transaction_id: TransactionID,
    client_id: ClientID,
}

impl Dispute {
    /// The transaction that is disputed.
    pub closed spec fn tx(&self) -> TransactionID {
        self.transaction_id
    }

    /// The client whose account recorded the transaction.
    pub closed spec fn client(&self) -> ClientID {
        self.client_id
    }

    /// Create a new dispute for a client on a specific transaction.
    pub fn new(transaction_id: TransactionID, client_id: ClientID) -> (dispute: Dispute)
        ensures
            dispute.tx() == transaction_id,
            dispute.client() == client_id,
    {
        Self { transaction_id, client_id }
    }
}

impl Transaction for Dispute {
    open spec fn client_id(&self) -> ClientID {
        self.client()
    }

    open spec fn stated_amount(&self) -> Option<Amount> {
        None
    }

    open spec fn effect(&self, account: ClientView) -> Outcome {
        account.dispute(self.tx())
    }

    /// Dispute a recorded transaction: mark it as disputed and move its
    /// amount from the available to the held funds. The dispute is rejected
    /// where the account is locked, the transaction is not recorded, or it is
    /// already under dispute.
    fn execute(&self, client: &mut Client) -> (result: Result<(), TransactionError>) {
        if client.locked {
            return Err(TransactionError::AccountLocked);
        }
        let found = client.client_history.get(&self.transaction_id);
        match found {
            Some(history) => {
                if !history.dispute {
                    let amount = history.amount;
                    client.client_history.insert(
                        self.transaction_id,
                        History { amount, dispute: true },
                    );
                    client.available = client.available.minus(amount);
                    client.held = client.held.plus(amount);
                    Ok(())
                } else {
                    Err(TransactionError::TransactionAlreadyDisputed)
                }
            },
            None => Err(TransactionError::UnknownReferencedTransaction),
        }
    }

    fn requested_client_id(&self) -> (id: ClientID) {
        self.client_id
    }

    fn amount(&self) -> (amount: Option<Amount>) {
        None
    }
}

/// Withdraws a dispute, and releases the amount that it froze.
#[derive(Clone, Copy, Debug)]
pub struct Resolve {
    transaction_id: TransactionID,
    client_id: ClientID,
}

impl Resolve {
    /// The transaction whose dispute is resolved.
    pub closed spec fn tx(&self) -> TransactionID {
        self.transaction_id
    }

    /// The client whose account recorded the transaction.
    pub closed spec fn client(&self) -> ClientID {
        self.client_id
    }

    /// Create a new resolve for a client on a specific transaction.
    pub fn new(transaction_id: TransactionID, client_id: ClientID) -> (resolve: Resolve)
        ensures
            resolve.tx() == transaction_id,
            resolve.client() == client_id,
    {
        Self { transaction_id, client_id }
    }
}

impl Transaction for Resolve {
    open spec fn client_id(&self) -> ClientID {
        self.client()
    }

    open spec fn stated_amount(&self) -> Option<Amount> {
        None
    }

    open spec fn effect(&self, account: ClientView) -> Outcome {
        account.resolve(self.tx())
    }

    /// Resolve a disputed transaction: move its amount from the held back to
    /// the available funds and end the dispute. The resolve is rejected where
    /// the account is locked, the transaction is not recorded, or it is not
    /// under dispute.
    fn execute(&self, client: &mut Client) -> (result: Result<(), TransactionError>) {
        if client.locked {
            return Err(TransactionError::AccountLocked);
        }
        let found = client.client_history.get(&self.transaction_id);
        match found {
            Some(history) => {
                if history.dispute {
                    let amount = history.amount;
                    client.client_history.insert(
                        self.transaction_id,
                        History { amount, dispute: false },
                    );
                    client.available = client.available.plus(amount);
                    client.held = client.held.minus(amount);
                    Ok(())
                } else {
                    Err(TransactionError::TransactionNotDisputed)
                }
            },
            None => Err(TransactionError::UnknownReferencedTransaction),
        }
    }

    fn requested_client_id(&self) -> (id: ClientID) {
        self.client_id
    }

    fn amount(&self) -> (amount: Option<Amount>) {
        None
    }
}

/// Settles a dispute against the account: the frozen amount leaves it, and
/// the account is locked.
#[derive(Clone, Copy, Debug)]
pub struct Chargeback {
    transaction_id: TransactionID,
    client_id: ClientID,
}

impl Chargeback {
    /// The disputed transaction that is charged back.
    pub closed spec fn tx(&self) -> TransactionID {
        self.transaction_id
    }

    /// The client whose account recorded the transaction.
    pub closed spec fn client(&self) -> ClientID {
        self.client_id
    }

    /// Create a new chargeback for a client on a specific transaction.
    pub fn new(transaction_id: TransactionID, client_id: ClientID) -> (chargeback: Chargeback)
        ensures
            chargeback.tx() == transaction_id,
            chargeback.client() == client_id,
    {
        Self { transaction_id, client_id }
    }
}

impl Transaction for Chargeback {
    open spec fn client_id(&self) -> ClientID {
        self.client()
    }

    open spec fn stated_amount(&self) -> Option<Amount> {
        None
    }

    open spec fn effect(&self, account: ClientView) -> Outcome {
        account.chargeback(self.tx())
    }

    /// Charge back a disputed transaction: remove its amount from the held
    /// funds, end the dispute and lock the account. The chargeback is rejected
    /// where the account is locked, the transaction is not recorded, or it is
    /// not under dispute.
    fn execute(&self, client: &mut Client) -> (result: Result<(), TransactionError>) {
        if client.locked {
            return Err(TransactionError::AccountLocked);
        }
        let found = client.client_history.get(&self.transaction_id);
        match found {
            Some(history) => {
                if history.dispute {
                    let amount = history.amount;
                    client.client_history.insert(
                        self.transaction_id,
                        History { amount, dispute: false },
                    );
                    client.held = client.held.minus(amount);
                    client.locked = true;
                    Ok(())
                } else {
                    Err(TransactionError::TransactionNotDisputed)
                }
            },
            None => Err(TransactionError::UnknownReferencedTransaction),
        }
    }

    fn requested_client_id(&self) -> (id: ClientID) {
        self.client_id
    }

    fn amount(&self) -> (amount: Option<Amount>) {
        None
    }
}

/// Any one of the five operations.
#[derive(Clone, Copy, Debug)]
pub enum Operation {
    /// Add funds.
    Deposit(Deposit),
    /// Take funds.
    Withdrawal(Withdrawal),
    /// Dispute a recorded transaction.
    Dispute(Dispute),
    /// Withdraw a dispute.
    Resolve(Resolve),
    /// Settle a dispute against the account.
    Chargeback(Chargeback),
}

/// Whether an available and a held balance, and their total, can each be held
/// by an [`Amount`].
fn balances_in_range(available: i128, held: i128) -> (ok: bool)
    requires
        4 * i64::MIN <= available <= 4 * i64::MAX,
        4 * i64::MIN <= held <= 4 * i64::MAX,
    ensures
        ok == (fits(available as int) && fits(held as int) && fits(available + held)),
{
    let low: i128 = i64::MIN as i128;
    let high: i128 = i64::MAX as i128;
    let total: i128 = available + held;
    low <= available && available <= high && low <= held && held <= high && low <= total && total
        <= high
}

impl Operation {
    /// Which of the five operations this is.
    pub open spec fn kind(&self) -> CsvLineType {
        match self {
            Operation::Deposit(_) => CsvLineType::Deposit,
            Operation::Withdrawal(_) => CsvLineType::Withdrawal,
            Operation::Dispute(_) => CsvLineType::Dispute,
            Operation::Resolve(_) => CsvLineType::Resolve,
            Operation::Chargeback(_) => CsvLineType::Chargeback,
        }
    }

    /// The transaction that the operation is recorded under or refers to.
    pub open spec fn tx(&self) -> TransactionID {
        match self {
            Operation::Deposit(deposit) => deposit.tx(),
            Operation::Withdrawal(withdrawal) => withdrawal.tx(),
            Operation::Dispute(dispute) => dispute.tx(),
            Operation::Resolve(resolve) => resolve.tx(),
            Operation::Chargeback(chargeback) => chargeback.tx(),
        }
    }

    /// Validity of an operation: the amount that it carries, if any, is not
    /// negative. Every operation that executable code holds is valid.
    pub open spec fn wf(&self) -> bool {
        match self.stated_amount() {
            Some(amount) => amount@ >= 0,
            None => true,
        }
    }

    /// The operation that a record asks for.
    pub closed spec fn of_line(line: CsvLine) -> Operation {
        match line.kind() {
            CsvLineType::Chargeback => Operation::Chargeback(
                Chargeback { transaction_id: line.transaction_id(), client_id: line.client_id() },
            ),
            CsvLineType::Deposit => Operation::Deposit(
                Deposit {
                    transaction_id: line.transaction_id(),
                    client_id: line.client_id(),
                    amount: line.value(),
                },
            ),
            CsvLineType::Withdrawal => Operation::Withdrawal(
                Withdrawal {
                    transaction_id: line.transaction_id(),
                    client_id: line.client_id(),
                    amount: line.value(),
                },
            ),
            CsvLineType::Dispute => Operation::Dispute(
                Dispute { transaction_id: line.transaction_id(), client_id: line.client_id() },
            ),
            CsvLineType::Resolve => Operation::Resolve(
                Resolve { transaction_id: line.transaction_id(), client_id: line.client_id() },
            ),
        }
    }

    /// The operation of a record has the record's kind, client and
    /// transaction. It carries the record's amount where its kind carries
    /// one, and none where it does not.
    pub broadcast proof fn of_line_agrees(line: CsvLine)
        ensures
            (#[trigger] Operation::of_line(line)).kind() == line.kind(),
            Operation::of_line(line).client_id() == line.client_id(),
            Operation::of_line(line).tx() == line.transaction_id(),
            Operation::of_line(line).stated_amount() == if line.kind().carries_amount() {
                Some(line.value())
            } else {
                None
            },
    {
    }

    /// Whether the account that this operation would leave behind is in
    /// range, so that the operation can be executed on `client`.
    pub fn can_execute(&self, client: &Client) -> (ok: bool)
        ensures
            ok == self.effect(client@).account.in_range(),
    {
        let available: i128 = client.available.units as i128;
        let held: i128 = client.held.units as i128;
        if client.locked {
            return balances_in_range(available, held);
        }
        match self {
            Operation::Deposit(deposit) => balances_in_range(
                available + deposit.amount.units as i128,
                held,
            ),
            Operation::Withdrawal(withdrawal) => {
                if client.available.units < withdrawal.amount.units {
                    balances_in_range(available, held)
                } else {
                    balances_in_range(available - withdrawal.amount.units as i128, held)
                }
            },
            Operation::Dispute(dispute) => {
                match client.client_history.get(&dispute.transaction_id) {
                    Some(history) => {
                        if history.dispute {
                            balances_in_range(available, held)
                        } else {
                            let amount: i128 = history.amount.units as i128;
                            balances_in_range(available - amount, held + amount)
                        }
                    },
                    None => balances_in_range(available, held),
                }
            },
            Operation::Resolve(resolve) => {
                match client.client_history.get(&resolve.transaction_id) {
                    Some(history) => {
                        if history.dispute {
                            let amount: i128 = history.amount.units as i128;
                            balances_in_range(available + amount, held - amount)
                        } else {
                            balances_in_range(available, held)
                        }
                    },
                    None => balances_in_range(available, held),
                }
            },
            Operation::Chargeback(chargeback) => {
                match client.client_history.get(&chargeback.transaction_id) {
                    Some(history) => {
                        if history.dispute {
                            let amount: i128 = history.amount.units as i128;
                            balances_in_range(available, held - amount)
                        } else {
                            balances_in_range(available, held)
                        }
                    },
                    None => balances_in_range(available, held),
                }
            },
        }
    }
}

impl Transaction for Operation {
    open spec fn client_id(&self) -> ClientID {
        match self {
            Operation::Deposit(deposit) => deposit.client_id(),
            Operation::Withdrawal(withdrawal) => withdrawal.client_id(),
            Operation::Dispute(dispute) => dispute.client_id(),
            Operation::Resolve(resolve) => resolve.client_id(),
            Operation::Chargeback(chargeback) => chargeback.client_id(),
        }
    }

    open spec fn stated_amount(&self) -> Option<Amount> {
        match self {
            Operation::Deposit(deposit) => deposit.stated_amount(),
            Operation::Withdrawal(withdrawal) => withdrawal.stated_amount(),
            Operation::Dispute(dispute) => dispute.stated_amount(),
            Operation::Resolve(resolve) => resolve.stated_amount(),
            Operation::Chargeback(chargeback) => chargeback.stated_amount(),
        }
    }

    open spec fn effect(&self, account: ClientView) -> Outcome {
        match self {
            Operation::Deposit(deposit) => deposit.effect(account),
            Operation::Withdrawal(withdrawal) => withdrawal.effect(account),
            Operation::Dispute(dispute) => dispute.effect(account),
            Operation::Resolve(resolve) => resolve.effect(account),
            Operation::Chargeback(chargeback) => chargeback.effect(account),
        }
    }

    /// Execute the operation, whichever of the five it is.
    fn execute(&self, client: &mut Client) -> (result: Result<(), TransactionError>) {
        match self {
            Operation::Deposit(deposit) => deposit.execute(client),
            Operation::Withdrawal(withdrawal) => withdrawal.execute(client),
            Operation::Dispute(dispute) => dispute.execute(client),
            Operation::Resolve(resolve) => resolve.execute(client),
            Operation::Chargeback(chargeback) => chargeback.execute(client),
        }
    }

    fn requested_client_id(&self) -> (id: ClientID) {
        match self {
            Operation::Deposit(deposit) => deposit.requested_client_id(),
            Operation::Withdrawal(withdrawal) => withdrawal.requested_client_id(),
            Operation::Dispute(dispute) => dispute.requested_client_id(),
            Operation::Resolve(resolve) => resolve.requested_client_id(),
            Operation::Chargeback(chargeback) => chargeback.requested_client_id(),
        }
    }

    fn amount(&self) -> (amount: Option<Amount>) {
        match self {
            Operation::Deposit(deposit) => deposit.amount(),
            Operation::Withdrawal(withdrawal) => withdrawal.amount(),
            Operation::Dispute(dispute) => dispute.amount(),
            Operation::Resolve(resolve) => resolve.amount(),
            Operation::Chargeback(chargeback) => chargeback.amount(),
        }
    }
}

impl vstd::std_specs::convert::FromSpecImpl<CsvLine> for Operation {
    open spec fn obeys_from_spec() -> bool {
        true
    }

    open spec fn from_spec(csv_line: CsvLine) -> Operation {
        Operation::of_line(csv_line)
    }
}

impl From<CsvLine> for Operation {
    /// The operation that a record asks for, see [`Operation::of_line`].
    fn from(csv_line: CsvLine) -> (operation: Operation) {
        match csv_line.t_type() {
            CsvLineType::Chargeback => Operation::Chargeback(
                Chargeback::new(csv_line.tx(), csv_line.client()),
            ),
            CsvLineType::Deposit => Operation::Deposit(
                Deposit::new(csv_line.tx(), csv_line.client(), csv_line.amount()),
            ),
            CsvLineType::Withdrawal => Operation::Withdrawal(
                Withdrawal::new(csv_line.tx(), csv_line.client(), csv_line.amount()),
            ),
            CsvLineType::Dispute => Operation::Dispute(
                Dispute::new(csv_line.tx(), csv_line.client()),
            ),
            CsvLineType::Resolve => Operation::Resolve(
                Resolve::new(csv_line.tx(), csv_line.client()),
            ),
        }
    }
}

} // verus!
