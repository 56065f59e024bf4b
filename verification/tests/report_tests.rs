use transactions::amount::Amount;
use transactions::client::{Client, ClientStore};
use transactions::error::{ReportError, TransactionError};
use transactions::render::{header_fields, join_records, render};
use transactions::report::ClientRow;
use transactions::transaction::{Chargeback, Deposit, Dispute};

fn amount(text: &str) -> Amount {
    Amount::parse(text).unwrap()
}

fn example_store() -> ClientStore {
    let mut store = ClientStore::new();
    store.execute(&Deposit::new(1, 300, amount("14.0"))).unwrap();
    store.execute(&Deposit::new(2, 1, amount("6.0"))).unwrap();
    store.execute(&Deposit::new(3, 20, amount("10.0"))).unwrap();
    store.execute(&Deposit::new(4, 20, amount("2.5"))).unwrap();
    store.execute(&Dispute::new(4, 20)).unwrap();
    store.execute(&Deposit::new(5, 4, amount("1.25"))).unwrap();
    store.execute(&Deposit::new(6, 4, amount("0.75"))).unwrap();
    store.execute(&Dispute::new(6, 4)).unwrap();
    store.execute(&Chargeback::new(6, 4)).unwrap();
    store
}

#[test]
fn state_of_an_empty_store_is_empty() {
    let store = ClientStore::new();
    assert_eq!(store.get_current_state(true).unwrap(), "");
    assert_eq!(store.get_current_state(false).unwrap(), "");
    assert!(store.snapshot(true).is_empty());
    assert!(store.snapshot(false).is_empty());
}

#[test]
fn state_lists_clients_in_ascending_order() {
    let store = example_store();
    assert_eq!(
        store.get_current_state(true).unwrap(),
        "client,available,held,total,locked\n1,6.0,0.0,6.0,false\n4,1.25,0.0,1.25,true\n20,10.0,2.5,12.5,false\n300,14.0,0.0,14.0,false\n"
    );
}

#[test]
fn unsorted_state_holds_the_same_lines() {
    let store = example_store();
    let state = store.get_current_state(false).unwrap();
    let mut lines: Vec<&str> = state.lines().collect();
    assert_eq!(lines.remove(0), "client,available,held,total,locked");
    lines.sort();
    assert_eq!(
        lines,
        vec![
            "1,6.0,0.0,6.0,false",
            "20,10.0,2.5,12.5,false",
            "300,14.0,0.0,14.0,false",
            "4,1.25,0.0,1.25,true",
        ]
    );
}

#[test]
fn snapshot_shows_each_account_with_its_total() {
    let store = example_store();
    let rows = store.snapshot(true);
    assert_eq!(
        rows,
        vec![
            ClientRow {
                client: 1,
                available: amount("6.0"),
                held: amount("0.0"),
                total: amount("6.0"),
                locked: false,
            },
            ClientRow {
                client: 4,
                available: amount("1.25"),
                held: amount("0.0"),
                total: amount("1.25"),
                locked: true,
            },
            ClientRow {
                client: 20,
                available: amount("10.0"),
                held: amount("2.5"),
                total: amount("12.5"),
                locked: false,
            },
            ClientRow {
                client: 300,
                available: amount("14.0"),
                held: amount("0.0"),
                total: amount("14.0"),
                locked: false,
            },
        ]
    );
    let mut unsorted = store.snapshot(false);
    assert_eq!(unsorted.len(), 4);
    unsorted.sort_by_key(|row| row.client);
    assert_eq!(unsorted, rows);
}

#[test]
fn row_of_a_client_holds_the_derived_total() {
    let mut client = Client::new(9);
    client.available = amount("54.7345");
    client.held = amount("3.5678");
    client.locked = true;
    let row = client.row();
    assert_eq!(
        row,
        ClientRow {
            client: 9,
            available: amount("54.7345"),
            held: amount("3.5678"),
            total: amount("58.3023"),
            locked: true,
        }
    );
    let fields: Vec<String> = row
        .fields()
        .into_iter()
        .map(|field| String::from_utf8(field).unwrap())
        .collect();
    assert_eq!(fields, vec!["9", "54.7345", "3.5678", "58.3023", "true"]);
}

#[test]
fn header_names_the_five_columns() {
    let fields: Vec<String> = header_fields()
        .into_iter()
        .map(|field| String::from_utf8(field).unwrap())
        .collect();
    assert_eq!(fields, vec!["client", "available", "held", "total", "locked"]);
}

#[test]
fn render_writes_a_header_and_one_line_for_each_row() {
    let rows = vec![
        ClientRow {
            client: 65535,
            available: Amount::from_units(-50_000),
            held: amount("5.0"),
            total: amount("0.0"),
            locked: false,
        },
        ClientRow {
            client: 0,
            available: amount("0.0001"),
            held: amount("0.0"),
            total: amount("0.0001"),
            locked: true,
        },
    ];
    assert_eq!(
        render(&rows).unwrap(),
        "client,available,held,total,locked\n65535,-5.0,5.0,0.0,false\n0,0.0001,0.0,0.0001,true\n"
    );
    assert_eq!(render(&Vec::new()).unwrap(), "");
}

#[test]
fn records_are_joined_in_order() {
    let records = vec![b"a,b\n".to_vec(), Vec::new(), b"1,2\n".to_vec(), b"x".to_vec()];
    assert_eq!(join_records(&records).unwrap(), "a,b\n1,2\nx");
    assert_eq!(join_records(&Vec::new()).unwrap(), "");
}

#[test]
fn records_that_are_no_text_are_refused() {
    let records = vec![b"a,b\n".to_vec(), vec![0xff, 0xfe]];
    assert_eq!(join_records(&records), Err(ReportError::Utf8));
    let split = vec![vec![0xc3], vec![0xa9]];
    assert_eq!(join_records(&split).unwrap(), "\u{e9}");
}

#[test]
fn errors_say_what_went_wrong() {
    assert_eq!(TransactionError::AccountLocked.message(), "account is locked");
    assert_eq!(
        TransactionError::UnknownReferencedTransaction.message(),
        "no such transaction for the client"
    );
    assert_eq!(
        TransactionError::TransactionNotDisputed.message(),
        "transaction is not being disputed"
    );
    assert_eq!(
        TransactionError::TransactionAlreadyDisputed.message(),
        "transaction is already disputed"
    );
    assert_eq!(TransactionError::InsufficientFunds.message(), "insufficient funds");
}

#[test]
fn many_clients_come_out_in_ascending_order() {
    let mut store = ClientStore::new();
    let mut tx = 0;
    for client in (0..200u16).rev() {
        tx += 1;
        store
            .execute(&Deposit::new(tx, client.wrapping_mul(7919) % 1000, amount("1.0")))
            .unwrap();
    }
    let rows = store.snapshot(true);
    assert_eq!(rows.len(), store.clients.len());
    for pair in rows.windows(2) {
        assert!(pair[0].client < pair[1].client);
    }
    let state = store.get_current_state(true).unwrap();
    let clients: Vec<u16> = state
        .lines()
        .skip(1)
        .map(|line| line.split(',').next().unwrap().parse().unwrap())
        .collect();
    let mut expected: Vec<u16> = store.clients.keys().copied().collect();
    expected.sort();
    assert_eq!(clients, expected);
}

#[test]
fn the_state_of_a_store_with_clients_is_always_given() {
    let mut store = ClientStore::new();
    store
        .execute(&Deposit::new(1, 65535, Amount::from_units(i64::MAX)))
        .unwrap();
    store.execute(&Deposit::new(2, 0, amount("0.0"))).unwrap();
    assert_eq!(
        store.get_current_state(true),
        Ok("client,available,held,total,locked\n0,0.0,0.0,0.0,false\n65535,922337203685477.5807,0.0,922337203685477.5807,false\n".to_string())
    );
    assert!(store.get_current_state(false).is_ok());
}
