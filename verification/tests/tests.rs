use transactions::amount::Amount;
use transactions::client::ClientStore;
use transactions::error::TransactionError;
use transactions::record::{default_empty_amount_to_zero, CsvLine, CsvLineType};
use transactions::transaction::{Operation, Transaction};

fn amount(text: &str) -> Amount {
    Amount::parse(text).unwrap()
}

fn deposit(client: u16, tx: u32, text: &str) -> CsvLine {
    CsvLine::new(CsvLineType::Deposit, client, tx, amount(text))
}

fn withdrawal(client: u16, tx: u32, text: &str) -> CsvLine {
    CsvLine::new(CsvLineType::Withdrawal, client, tx, amount(text))
}

fn reference(kind: CsvLineType, client: u16, tx: u32) -> CsvLine {
    CsvLine::new(kind, client, tx, default_empty_amount_to_zero(None))
}

fn state_after(records: Vec<CsvLine>) -> String {
    let mut client_store = ClientStore::new();
    let answers = transactions::handle_transactions(&records, &mut client_store);
    assert_eq!(answers.len(), records.len());
    client_store.get_current_state(true).unwrap()
}

#[test]
fn handle_transations_deposits_one_client() {
    let records = vec![
        deposit(1, 1, "1.0"),
        deposit(1, 2, "2.0"),
        deposit(1, 3, "3.0"),
    ];
    let expected = "client,available,held,total,locked\n1,6.0,0.0,6.0,false\n";
    assert_eq!(state_after(records), expected);
}

#[test]
fn handle_transations_deposits_multi_client() {
    let records = vec![
        deposit(1, 1, "1.0"),
        deposit(2, 2, "4.0"),
        deposit(3, 3, "6.5"),
        deposit(1, 4, "5.0"),
        deposit(3, 5, "7.5"),
        deposit(2, 6, "6.0"),
    ];
    let expected = "client,available,held,total,locked\n1,6.0,0.0,6.0,false\n2,10.0,0.0,10.0,false\n3,14.0,0.0,14.0,false\n";
    assert_eq!(state_after(records), expected);
}

#[test]
fn handle_transations_deposits_and_withdrawals_one_client() {
    let records = vec![
        deposit(1, 1, "10.0"),
        withdrawal(1, 2, "1.5"),
        withdrawal(1, 3, "2.5"),
    ];
    let expected = "client,available,held,total,locked\n1,6.0,0.0,6.0,false\n";
    assert_eq!(state_after(records), expected);
}

#[test]
fn handle_transations_deposits_and_withdrawals_multi_client() {
    let records = vec![
        deposit(1, 1, "10.0"),
        deposit(2, 2, "12.0"),
        deposit(3, 3, "20.0"),
        withdrawal(1, 4, "4.0"),
        withdrawal(2, 5, "2.0"),
        withdrawal(3, 6, "6.0"),
    ];
    let expected = "client,available,held,total,locked\n1,6.0,0.0,6.0,false\n2,10.0,0.0,10.0,false\n3,14.0,0.0,14.0,false\n";
    assert_eq!(state_after(records), expected);
}

#[test]
fn handle_transations_deposits_and_withdrawals_one_client_insufficent_funds() {
    let records = vec![
        deposit(1, 1, "8.0"),
        withdrawal(1, 2, "2.0"),
        withdrawal(1, 3, "6.0001"),
    ];
    let mut client_store = ClientStore::new();
    let answers = transactions::handle_transactions(&records, &mut client_store);
    assert_eq!(
        answers,
        vec![Ok(()), Ok(()), Err(TransactionError::InsufficientFunds)]
    );
    let expected = "client,available,held,total,locked\n1,6.0,0.0,6.0,false\n";
    assert_eq!(client_store.get_current_state(true).unwrap(), expected);
}

#[test]
fn handle_transations_deposits_and_withdrawals_multi_client_insufficent_funds() {
    let records = vec![
        deposit(1, 1, "6.0"),
        deposit(2, 2, "10.0"),
        deposit(3, 3, "14.0"),
        withdrawal(1, 4, "7.0"),
        withdrawal(2, 5, "10.5"),
        withdrawal(3, 6, "100.0"),
    ];
    let expected = "client,available,held,total,locked\n1,6.0,0.0,6.0,false\n2,10.0,0.0,10.0,false\n3,14.0,0.0,14.0,false\n";
    assert_eq!(state_after(records), expected);
}

#[test]
fn handle_transations_deposits_withdrawals_and_dispute_one_client() {
    let records = vec![
        deposit(1, 1, "5.0"),
        deposit(1, 2, "1.5"),
        withdrawal(1, 3, "0.5"),
        reference(CsvLineType::Dispute, 1, 2),
    ];
    let expected = "client,available,held,total,locked\n1,4.5,1.5,6.0,false\n";
    assert_eq!(state_after(records), expected);
}

#[test]
fn handle_transations_deposits_withdrawals_and_dispute_multi_client() {
    let records = vec![
        deposit(1, 1, "5.0"),
        deposit(1, 2, "1.5"),
        withdrawal(1, 3, "0.5"),
        deposit(2, 4, "8.0"),
        deposit(2, 5, "2.5"),
        withdrawal(2, 6, "0.5"),
        deposit(3, 7, "11.0"),
        deposit(3, 8, "3.5"),
        withdrawal(3, 9, "0.5"),
        reference(CsvLineType::Dispute, 1, 2),
        reference(CsvLineType::Dispute, 2, 5),
        reference(CsvLineType::Dispute, 3, 8),
    ];
    let expected = "client,available,held,total,locked\n1,4.5,1.5,6.0,false\n2,7.5,2.5,10.0,false\n3,10.5,3.5,14.0,false\n";
    assert_eq!(state_after(records), expected);
}

#[test]
fn handle_transations_deposits_withdrawals_dispute_and_resolve_one_client() {
    let records = vec![
        deposit(1, 1, "5.0"),
        deposit(1, 2, "1.5"),
        withdrawal(1, 3, "0.5"),
        reference(CsvLineType::Dispute, 1, 2),
        reference(CsvLineType::Resolve, 1, 2),
    ];
    let expected = "client,available,held,total,locked\n1,6.0,0.0,6.0,false\n";
    assert_eq!(state_after(records), expected);
}

#[test]
fn handle_transations_deposits_withdrawals_dispute_and_resolve_multi_client() {
    let records = vec![
        deposit(1, 1, "5.0"),
        deposit(1, 2, "1.5"),
        withdrawal(1, 3, "0.5"),
        deposit(2, 4, "8.0"),
        deposit(2, 5, "2.5"),
        withdrawal(2, 6, "0.5"),
        deposit(3, 7, "11.0"),
        deposit(3, 8, "3.5"),
        withdrawal(3, 9, "0.5"),
        reference(CsvLineType::Dispute, 1, 2),
        reference(CsvLineType::Dispute, 2, 5),
        reference(CsvLineType::Dispute, 3, 8),
        reference(CsvLineType::Resolve, 1, 2),
        reference(CsvLineType::Resolve, 2, 5),
        reference(CsvLineType::Resolve, 3, 8),
    ];
    let expected = "client,available,held,total,locked\n1,6.0,0.0,6.0,false\n2,10.0,0.0,10.0,false\n3,14.0,0.0,14.0,false\n";
    assert_eq!(state_after(records), expected);
}

#[test]
fn handle_transations_deposits_withdrawals_dispute_and_chargeback_one_client() {
    let records = vec![
        deposit(1, 1, "2.0"),
        deposit(1, 2, "4.5"),
        withdrawal(1, 3, "0.5"),
        reference(CsvLineType::Dispute, 1, 2),
        reference(CsvLineType::Chargeback, 1, 2),
    ];
    let expected = "client,available,held,total,locked\n1,1.5,0.0,1.5,true\n";
    assert_eq!(state_after(records), expected);
}

#[test]
fn handle_transations_deposits_withdrawals_dispute_and_chargeback_multi_client() {
    let records = vec![
        deposit(1, 1, "3.5"),
        deposit(1, 2, "3.0"),
        withdrawal(1, 3, "0.5"),
        deposit(2, 4, "8.0"),
        deposit(2, 5, "2.5"),
        withdrawal(2, 6, "0.5"),
        deposit(3, 7, "11.0"),
        deposit(3, 8, "3.5"),
        withdrawal(3, 9, "0.5"),
        reference(CsvLineType::Dispute, 1, 2),
        reference(CsvLineType::Dispute, 2, 5),
        reference(CsvLineType::Dispute, 3, 8),
        reference(CsvLineType::Chargeback, 1, 2),
        reference(CsvLineType::Chargeback, 2, 5),
        reference(CsvLineType::Chargeback, 3, 8),
    ];
    let expected = "client,available,held,total,locked\n1,3.0,0.0,3.0,true\n2,7.5,0.0,7.5,true\n3,10.5,0.0,10.5,true\n";
    assert_eq!(state_after(records), expected);
}

#[test]
fn rejected_operations_do_not_stop_the_run() {
    let records = vec![
        reference(CsvLineType::Dispute, 1, 99),
        deposit(1, 1, "5.0"),
        reference(CsvLineType::Resolve, 1, 1),
        reference(CsvLineType::Dispute, 1, 1),
        reference(CsvLineType::Dispute, 1, 1),
        reference(CsvLineType::Chargeback, 1, 1),
        deposit(1, 2, "1.0"),
        deposit(2, 3, "1.0"),
    ];
    let mut client_store = ClientStore::new();
    let answers = transactions::handle_transactions(&records, &mut client_store);
    assert_eq!(
        answers,
        vec![
            Err(TransactionError::UnknownReferencedTransaction),
            Ok(()),
            Err(TransactionError::TransactionNotDisputed),
            Ok(()),
            Err(TransactionError::TransactionAlreadyDisputed),
            Ok(()),
            Err(TransactionError::AccountLocked),
            Ok(()),
        ]
    );
    assert_eq!(
        client_store.get_current_state(true).unwrap(),
        "client,available,held,total,locked\n1,0.0,0.0,0.0,true\n2,1.0,0.0,1.0,false\n"
    );
}

#[test]
fn the_run_ends_before_an_operation_that_leaves_the_range() {
    let most = Amount::from_units(i64::MAX);
    let records = vec![
        CsvLine::new(CsvLineType::Deposit, 1, 1, most),
        deposit(2, 2, "1.0"),
        deposit(1, 3, "0.0001"),
        deposit(2, 4, "1.0"),
    ];
    let mut client_store = ClientStore::new();
    let answers = transactions::handle_transactions(&records, &mut client_store);
    assert_eq!(answers, vec![Ok(()), Ok(())]);
    assert_eq!(client_store.clients.get(&1).unwrap().available, most);
    assert_eq!(client_store.clients.get(&2).unwrap().available, amount("1.0"));
    assert_eq!(
        client_store.get_current_state(true).unwrap(),
        "client,available,held,total,locked\n1,922337203685477.5807,0.0,922337203685477.5807,false\n2,1.0,0.0,1.0,false\n"
    );
}

#[test]
fn no_records_leave_the_store_empty() {
    let mut client_store = ClientStore::new();
    let answers = transactions::handle_transactions(&Vec::new(), &mut client_store);
    assert!(answers.is_empty());
    assert!(client_store.clients.is_empty());
}

#[test]
fn a_record_becomes_the_operation_of_its_kind() {
    let line = CsvLine::new(CsvLineType::Withdrawal, 7, 9, amount("2.5"));
    assert_eq!(line.t_type(), CsvLineType::Withdrawal);
    assert_eq!(line.client(), 7);
    assert_eq!(line.tx(), 9);
    assert_eq!(line.amount(), amount("2.5"));
    let operation = Operation::from(line);
    assert!(matches!(operation, Operation::Withdrawal(_)));
    assert_eq!(operation.requested_client_id(), 7);
    assert_eq!(operation.amount(), Some(amount("2.5")));

    assert!(matches!(
        Operation::from(deposit(1, 2, "3.0")),
        Operation::Deposit(_)
    ));
    let dispute = Operation::from(CsvLine::new(CsvLineType::Dispute, 3, 4, amount("8.0")));
    assert!(matches!(dispute, Operation::Dispute(_)));
    assert_eq!(dispute.requested_client_id(), 3);
    assert_eq!(dispute.amount(), None);
    assert!(matches!(
        Operation::from(reference(CsvLineType::Resolve, 1, 2)),
        Operation::Resolve(_)
    ));
    assert!(matches!(
        Operation::from(reference(CsvLineType::Chargeback, 1, 2)),
        Operation::Chargeback(_)
    ));
}

#[test]
fn an_empty_amount_stands_for_zero() {
    assert_eq!(default_empty_amount_to_zero(None), Amount::zero());
    assert_eq!(default_empty_amount_to_zero(Some(amount("1.5"))), amount("1.5"));
}

#[test]
fn can_execute_tells_whether_the_account_stays_in_range() {
    let most = Amount::from_units(i64::MAX);
    let mut client_store = ClientStore::new();
    let fill = Operation::from(CsvLine::new(CsvLineType::Deposit, 1, 1, most));
    assert!(client_store.can_execute(&fill));
    client_store.execute(&fill).unwrap();
    let more = Operation::from(deposit(1, 2, "0.0001"));
    assert!(!client_store.can_execute(&more));
    assert!(client_store.can_execute(&Operation::from(deposit(2, 3, "0.0001"))));
    assert!(client_store.can_execute(&Operation::from(withdrawal(1, 4, "0.0001"))));
    assert!(client_store.can_execute(&Operation::from(reference(CsvLineType::Dispute, 1, 1))));
    let account = client_store.clients.get(&1).unwrap();
    assert!(!more.can_execute(account));
    assert!(Operation::from(reference(CsvLineType::Dispute, 1, 1)).can_execute(account));
}
