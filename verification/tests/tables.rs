use erc721_substream::changes::{
    approvals_to_table_changes, format_hex, transfers_to_table_changes,
};
use erc721_substream::handlers::graph_out;
use erc721_substream::schema::{Approval, Approvals, Clock, Transfer, Transfers};
use erc721_substream::{ADDRESS, START_BLOCK};
use std::collections::BTreeMap;
use substreams_entity_change::pb::entity::entity_change::Operation;
use substreams_entity_change::pb::entity::value::Typed;
use substreams_entity_change::pb::entity::EntityChanges;
use substreams_entity_change::tables::Tables;

type Shown = (i32, BTreeMap<String, String>);

fn transfer(from: &str, to: &str, token_id: &str, tx_hash: &str) -> Transfer {
    Transfer {
        from: from.to_string(),
        to: to.to_string(),
        token_id: token_id.to_string(),
        tx_hash: tx_hash.to_string(),
        token_name: String::new(),
        token_symbol: String::new(),
        token_uri: String::new(),
    }
}

fn approval(owner: &str, approved: &str, token_id: &str, tx_hash: &str) -> Approval {
    Approval {
        owner: owner.to_string(),
        approved: approved.to_string(),
        token_id: token_id.to_string(),
        tx_hash: tx_hash.to_string(),
        token_name: String::new(),
        token_symbol: String::new(),
        token_uri: String::new(),
    }
}

/// The changes by table and key. Each row may occur once.
#[allow(deprecated)]
fn rows(changes: EntityChanges) -> BTreeMap<(String, String), Shown> {
    let mut rows = BTreeMap::new();
    for change in changes.entity_changes {
        assert_eq!(change.ordinal, 0);
        assert!(change.fields.iter().all(|field| field.old_value.is_none()));
        let columns = change
            .fields
            .into_iter()
            .map(|field| match field.new_value.unwrap().typed.unwrap() {
                Typed::String(text) => (field.name, text),
                _ => panic!("no text"),
            })
            .collect();
        let before = rows.insert((change.entity, change.id), (change.operation, columns));
        assert!(before.is_none());
    }
    rows
}

fn row(operation: Operation, columns: &[(&str, &str)]) -> Shown {
    let columns = columns.iter().map(|(n, v)| (n.to_string(), v.to_string())).collect();
    (operation as i32, columns)
}

fn key(table: &str, key: &str) -> (String, String) {
    (table.to_string(), key.to_string())
}

fn graph(
    number: u64,
    transfers: Vec<Transfer>,
    approvals: Vec<Approval>,
) -> BTreeMap<(String, String), Shown> {
    rows(graph_out(Clock { number }, Transfers { transfers }, Approvals { approvals }).unwrap())
}

#[test]
fn addresses_and_hashes_are_prefixed() {
    assert_eq!(format_hex(&[]), "0x");
    assert_eq!(format_hex(&[0x00, 0x0b, 0xff]), "0x000bff");
    assert_eq!(format_hex(&[0xab; 20]).len(), 42);
}

#[test]
fn different_bytes_have_different_texts() {
    let texts: Vec<String> = (0..=255u8)
        .map(|b| format_hex(&[b]))
        .chain((0..=255u8).map(|b| format_hex(&[0, b])))
        .collect();
    for (i, text) in texts.iter().enumerate() {
        assert_eq!(texts.iter().position(|other| other == text), Some(i));
    }
}

#[test]
fn nothing_changes_without_events() {
    assert!(graph(1, vec![], vec![]).is_empty());
}

#[test]
fn the_first_block_creates_the_collection() {
    let found = graph(START_BLOCK, vec![], vec![]);
    assert_eq!(found.len(), 1);
    assert_eq!(found[&key("Collection", ADDRESS)], row(Operation::Create, &[]));
    assert_eq!(START_BLOCK, 12287507);
    assert!(graph(START_BLOCK - 1, vec![], vec![]).is_empty());
    assert!(graph(START_BLOCK + 1, vec![], vec![]).is_empty());
}

#[test]
fn a_transfer_changes_four_rows() {
    let found = graph(5, vec![transfer("0xa", "0xb", "7", "0x1")], vec![]);
    assert_eq!(found.len(), 4);
    assert_eq!(
        found[&key("Transfer", "0x1-7")],
        row(Operation::Update, &[("from", "0xa"), ("to", "0xb"), ("tokenId", "7")])
    );
    assert_eq!(found[&key("Account", "0xa")], row(Operation::Create, &[]));
    assert_eq!(found[&key("Account", "0xb")], row(Operation::Create, &[]));
    assert_eq!(
        found[&key("Token", "7")],
        row(
            Operation::Update,
            &[("collection", "0xBC4CA0EdA7647A8aB7C2061c2E118A18a936f13D"), ("owner", "0xb")]
        )
    );
}

#[test]
fn an_approval_changes_three_rows() {
    let found = graph(5, vec![], vec![approval("0xa", "0xb", "7", "0x1")]);
    assert_eq!(found.len(), 3);
    assert_eq!(
        found[&key("Approval", "0x1-7")],
        row(Operation::Update, &[("owner", "0xa"), ("approved", "0xb"), ("tokenId", "7")])
    );
    assert_eq!(found[&key("Account", "0xa")], row(Operation::Create, &[]));
    assert_eq!(found[&key("Account", "0xb")], row(Operation::Create, &[]));
}

#[test]
fn the_last_receiver_owns_the_token() {
    let found = graph(
        5,
        vec![
            transfer("0xa", "0xb", "7", "0x1"),
            transfer("0xb", "0xc", "7", "0x2"),
            transfer("0xa", "0xd", "8", "0x2"),
        ],
        vec![],
    );
    assert_eq!(found[&key("Token", "7")].1["owner"], "0xc");
    assert_eq!(found[&key("Token", "8")].1["owner"], "0xd");
    assert_eq!(found.keys().filter(|(table, _)| table == "Transfer").count(), 3);
    assert_eq!(found.keys().filter(|(table, _)| table == "Account").count(), 4);
}

#[test]
fn transfers_of_one_token_in_one_transaction_share_a_row() {
    let found = graph(
        5,
        vec![transfer("0xa", "0xb", "7", "0x1"), transfer("0xb", "0xc", "7", "0x1")],
        vec![],
    );
    assert_eq!(
        found[&key("Transfer", "0x1-7")],
        row(Operation::Update, &[("from", "0xb"), ("to", "0xc"), ("tokenId", "7")])
    );
    assert_eq!(found.len(), 5);
}

#[test]
fn the_same_events_twice_change_nothing_more() {
    let transfers = || vec![transfer("0xa", "0xb", "7", "0x1"), transfer("0xb", "0xa", "7", "0x1")];
    let approvals = || vec![approval("0xa", "0xb", "7", "0x1")];
    let twice = |n: usize| -> Vec<Transfer> { (0..n).flat_map(|_| transfers()).collect() };
    let again = |n: usize| -> Vec<Approval> { (0..n).flat_map(|_| approvals()).collect() };
    assert_eq!(graph(5, twice(2), again(2)), graph(5, twice(1), again(1)));
}

#[test]
fn the_order_of_transfers_and_approvals_does_not_matter() {
    let transfers = Transfers { transfers: vec![transfer("0xa", "0xb", "7", "0x1")] };
    let approvals = Approvals { approvals: vec![approval("0xb", "0xc", "7", "0x1")] };
    let mut first = Tables::new();
    transfers_to_table_changes(&mut first, &transfers);
    approvals_to_table_changes(&mut first, &approvals);
    let mut second = Tables::new();
    approvals_to_table_changes(&mut second, &approvals);
    transfers_to_table_changes(&mut second, &transfers);
    assert_eq!(rows(first.to_entity_changes()), rows(second.to_entity_changes()));
}

#[test]
fn rows_that_are_already_there_are_added_to() {
    let mut tables = Tables::new();
    tables.create_row("Token", "7").set("rank", "1");
    let transfers = Transfers { transfers: vec![transfer("0xa", "0xb", "7", "0x1")] };
    transfers_to_table_changes(&mut tables, &transfers);
    let found = rows(tables.to_entity_changes());
    assert_eq!(
        found[&key("Token", "7")],
        row(
            Operation::Create,
            &[("rank", "1"), ("collection", ADDRESS), ("owner", "0xb")]
        )
    );
}

#[test]
fn accounts_are_created_once_and_everything_else_is_updated() {
    let found = graph(
        START_BLOCK,
        vec![transfer("0xa", "0xa", "7", "0x1")],
        vec![approval("0xa", "0xa", "7", "0x1")],
    );
    assert_eq!(found.len(), 5);
    for ((table, _), (operation, _)) in found {
        let creates = table == "Account" || table == "Collection";
        let expected = if creates { Operation::Create } else { Operation::Update };
        assert_eq!(operation, expected as i32);
    }
}
