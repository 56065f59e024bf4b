//! Decoded input records.

use vstd::prelude::*;

use crate::amount::Amount;
use crate::{ClientID, TransactionID};

verus! {

/// Kind of operation that an input record asks for.
#[derive(Clone, Copy, Debug, PartialEq, Eq, Structural)]
pub enum CsvLineType {
    /// Settle a dispute against the account.
    Chargeback,
    /// Add funds.
    Deposit,
    /// Dispute a recorded transaction.
    Dispute,
    /// Withdraw a dispute.
    Resolve,
    /// Take funds.
    Withdrawal,
}

impl CsvLineType {
    /// Whether operations of this kind carry an amount of their own.
    pub open spec fn carries_amount(self) -> bool {
        self == CsvLineType::Deposit || self == CsvLineType::Withdrawal
    }
}

/// One decoded input record.
#[derive(Clone, Copy, Debug)]
pub struct CsvLine {
    t_type: CsvLineType,
    client: ClientID,
    tx: TransactionID,
    amount: Amount,
}

impl CsvLine {
    /// Kind of operation of the record.
    pub closed spec fn kind(&self) -> CsvLineType {
        self.t_type
    }

    /// Client that the operation is meant for.
    pub closed spec fn client_id(&self) -> ClientID {
        self.client
    }

    /// Transaction that the operation is recorded under or refers to.
    pub closed spec fn transaction_id(&self) -> TransactionID {
        self.tx
    }

    /// Amount of funds of the record. The kinds that carry no amount ignore
    /// it.
    pub closed spec fn value(&self) -> Amount {
        self.amount
    }

    /// A record never holds a negative amount.
    #[verifier::type_invariant]
    pub open spec fn wf(&self) -> bool {
        self.value()@ >= 0
    }

    /// The record of an operation of kind `t_type` for `client`, under the
    /// transaction `tx`, with `amount`.
    pub fn new(t_type: CsvLineType, client: ClientID, tx: TransactionID, amount: Amount) -> (line:
        CsvLine)
        requires
            amount@ >= 0,
        ensures
            line.kind() == t_type,
            line.client_id() == client,
            line.transaction_id() == tx,
            line.value() == amount,
            line.wf(),
    {
        CsvLine { t_type, client, tx, amount }
    }

    /// Kind of operation of the record.
    pub fn t_type(&self) -> (t_type: CsvLineType)
        ensures
            t_type == self.kind(),
    {
        self.t_type
    }

    /// Client that the operation is meant for.
    pub fn client(&self) -> (client: ClientID)
        ensures
            client == self.client_id(),
    {
        self.client
    }

    /// Transaction that the operation is recorded under or refers to.
    pub fn tx(&self) -> (tx: TransactionID)
        ensures
            tx == self.transaction_id(),
    {
        self.tx
    }

    /// Amount of funds of the record, which is never negative.
    pub fn amount(&self) -> (amount: Amount)
        ensures
            amount == self.value(),
            amount@ >= 0,
    {
        proof {
            use_type_invariant(self);
        }
        self.amount
    }
}

/// The amount of a record whose amount field may have been left empty: an
/// empty field stands for zero.
pub fn default_empty_amount_to_zero(amount: Option<Amount>) -> (value: Amount)
    ensures
        value@ == match amount {
            Some(given) => given@,
            None => 0,
        },
{
    match amount {
        Some(given) => given,
        None => Amount::zero(),
    }
}

} // verus!
