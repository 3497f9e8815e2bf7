use erc721_substream::block::{
    Block, Call, CodeChange, StorageChange, TransactionTrace, CREATE, SUCCEEDED,
};
use erc721_substream::creations::{contract_creations, creations_complete};
use substreams_ethereum::pb::eth::v2::{CallType, TransactionTraceStatus};

fn call(address: u8) -> Call {
    Call {
        call_type: CREATE,
        address: vec![address],
        state_reverted: false,
        storage_changes: vec![],
        code_changes: vec![CodeChange { new_code: vec![address, 1] }],
    }
}

fn trace(status: i32, calls: Vec<Call>) -> TransactionTrace {
    TransactionTrace { hash: vec![], status, receipt: None, calls }
}

fn addresses(block: &Block) -> Vec<Vec<u8>> {
    contract_creations(block).into_iter().map(|c| c.address).collect()
}

#[test]
fn the_numbers_are_those_of_the_chain_data() {
    assert_eq!(CREATE, CallType::Create as i32);
    assert_eq!(SUCCEEDED, TransactionTraceStatus::Succeeded as i32);
}

#[test]
fn creations_of_successful_transactions_are_found_in_order() {
    let mut reverted = call(3);
    reverted.state_reverted = true;
    let mut plain = call(4);
    plain.call_type = 1;
    let block = Block {
        transaction_traces: vec![
            trace(1, vec![call(1), plain, call(2), reverted]),
            trace(2, vec![call(5)]),
            trace(1, vec![]),
            trace(1, vec![call(6)]),
            trace(0, vec![call(7)]),
        ],
    };
    assert!(creations_complete(&block));
    assert_eq!(addresses(&block), vec![vec![1], vec![2], vec![6]]);
}

#[test]
fn blocks_are_looked_through_transaction_by_transaction() {
    let first = || trace(1, vec![call(1), call(2)]);
    let second = || trace(1, vec![call(3)]);
    let both = Block { transaction_traces: vec![first(), second()] };
    let mut parts = addresses(&Block { transaction_traces: vec![first()] });
    parts.extend(addresses(&Block { transaction_traces: vec![second()] }));
    assert_eq!(addresses(&both), parts);
}

#[test]
fn the_last_code_and_the_last_values_count() {
    let mut key = vec![0u8; 32];
    key[31] = 7;
    let mut made = call(1);
    made.code_changes.push(CodeChange { new_code: vec![8, 8, 8] });
    made.storage_changes = vec![
        StorageChange { key: key.clone(), new_value: vec![1] },
        StorageChange { key: key.clone(), new_value: vec![2] },
    ];
    let block = Block { transaction_traces: vec![trace(1, vec![made])] };
    let found = contract_creations(&block);
    assert_eq!(found.len(), 1);
    assert_eq!(found[0].code, vec![8, 8, 8]);
    let mut slot = [0u8; 32];
    slot[31] = 7;
    assert_eq!(found[0].storage_changes.get(&slot), Some(&vec![2]));
    assert_eq!(found[0].storage_changes.get(&[0; 32]), None);
}

#[test]
fn creations_without_code_or_with_odd_keys_are_incomplete() {
    let mut no_code = call(1);
    no_code.code_changes.clear();
    let complete = |traces: Vec<TransactionTrace>| {
        creations_complete(&Block { transaction_traces: traces })
    };
    let without = || {
        let mut c = call(1);
        c.code_changes.clear();
        c
    };
    assert!(!complete(vec![trace(1, vec![call(2), no_code])]));
    assert!(complete(vec![trace(2, vec![without()])]));

    let mut reverted = without();
    reverted.state_reverted = true;
    assert!(complete(vec![trace(1, vec![reverted])]));

    let mut plain = without();
    plain.call_type = 1;
    assert!(complete(vec![trace(1, vec![plain])]));

    let mut odd = call(1);
    odd.storage_changes.push(StorageChange { key: vec![0; 31], new_value: vec![] });
    assert!(!complete(vec![trace(1, vec![odd])]));
    assert!(complete(vec![]));
}
