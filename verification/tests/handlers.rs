use erc721_substream::abi::{APPROVAL_TOPIC, TRANSFER_TOPIC};
use erc721_substream::block::{
    Block, Call, CodeChange, Log, TransactionReceipt, TransactionTrace, CREATE,
};
use erc721_substream::handlers::{
    from_collection, map_approvals, map_blocks, map_blocks_within, map_transfers,
};
use erc721_substream::schema::{Approval, Contract, Transfer};
use erc721_substream::ADDRESS;

const COLLECTION: [u8; 20] = [
    0xbc, 0x4c, 0xa0, 0xed, 0xa7, 0x64, 0x7a, 0x8a, 0xb7, 0xc2, 0x06, 0x1c, 0x2e, 0x11, 0x8a, 0x18,
    0xa9, 0x36, 0xf1, 0x3d,
];

fn address_topic(byte: u8) -> Vec<u8> {
    let mut topic = vec![0; 12];
    topic.extend(vec![byte; 20]);
    topic
}

fn token_topic(id: u64) -> Vec<u8> {
    let mut topic = vec![0; 24];
    topic.extend(id.to_be_bytes());
    topic
}

fn log(address: &[u8], kind: [u8; 32], first: u8, second: u8, id: u64) -> Log {
    Log {
        address: address.to_vec(),
        topics: vec![kind.to_vec(), address_topic(first), address_topic(second), token_topic(id)],
        data: vec![],
        block_index: 7,
    }
}

fn trace(hash: u8, status: i32, logs: Vec<Log>) -> TransactionTrace {
    TransactionTrace {
        hash: vec![hash; 2],
        status,
        receipt: Some(TransactionReceipt { logs }),
        calls: vec![],
    }
}

fn hex(byte: u8) -> String {
    format!("0x{}", format!("{:02x}", byte).repeat(20))
}

fn transfer(from: u8, to: u8, token_id: &str, tx_hash: &str) -> Transfer {
    Transfer {
        from: hex(from),
        to: hex(to),
        token_id: token_id.to_string(),
        tx_hash: tx_hash.to_string(),
        token_name: "".to_string(),
        token_symbol: "".to_string(),
        token_uri: "".to_string(),
    }
}

fn approval(owner: u8, approved: u8, token_id: &str, tx_hash: &str) -> Approval {
    Approval {
        owner: hex(owner),
        approved: hex(approved),
        token_id: token_id.to_string(),
        tx_hash: tx_hash.to_string(),
        token_name: "".to_string(),
        token_symbol: "".to_string(),
        token_uri: "".to_string(),
    }
}

fn transfers_of(traces: Vec<TransactionTrace>) -> Vec<Transfer> {
    map_transfers(Block { transaction_traces: traces }, &mut vec![]).unwrap().transfers
}

fn approvals_of(traces: Vec<TransactionTrace>) -> Vec<Approval> {
    map_approvals(Block { transaction_traces: traces }, &mut vec![]).unwrap().approvals
}

#[test]
fn transfers_of_any_contract_are_found_in_order() {
    let found = transfers_of(vec![
        trace(
            0x1f,
            1,
            vec![
                log(&COLLECTION, TRANSFER_TOPIC, 1, 2, 0),
                log(&COLLECTION, APPROVAL_TOPIC, 1, 2, 1),
                log(&[5; 20], TRANSFER_TOPIC, 3, 4, 9999),
            ],
        ),
        trace(0x2f, 2, vec![log(&COLLECTION, TRANSFER_TOPIC, 5, 6, 2)]),
        trace(0x3f, 1, vec![log(&COLLECTION, TRANSFER_TOPIC, 7, 8, u64::MAX)]),
    ]);
    assert_eq!(
        found,
        vec![
            transfer(1, 2, "0", "0x1f1f"),
            transfer(3, 4, "9999", "0x1f1f"),
            transfer(7, 8, "18446744073709551615", "0x3f3f"),
        ]
    );
}

#[test]
fn large_token_ids_are_written_out() {
    let mut entry = log(&COLLECTION, TRANSFER_TOPIC, 1, 2, 0);
    entry.topics[3] = vec![0xff; 32];
    let found = transfers_of(vec![trace(1, 1, vec![entry])]);
    assert_eq!(
        found[0].token_id,
        "115792089237316195423570985008687907853269984665640564039457584007913129639935"
    );
}

#[test]
fn a_failed_transaction_needs_no_receipt() {
    let failed = TransactionTrace { hash: vec![], status: 3, receipt: None, calls: vec![] };
    assert!(transfers_of(vec![failed]).is_empty());
    let failed = TransactionTrace { hash: vec![], status: 0, receipt: None, calls: vec![] };
    assert!(approvals_of(vec![failed]).is_empty());
}

#[test]
fn entries_that_are_no_transfers_are_passed_over() {
    let mut with_data = log(&COLLECTION, TRANSFER_TOPIC, 1, 2, 3);
    with_data.data = vec![0];
    let mut short = log(&COLLECTION, TRANSFER_TOPIC, 1, 2, 3);
    short.topics[3] = vec![0; 31];
    assert!(transfers_of(vec![trace(1, 1, vec![with_data, short])]).is_empty());
    assert!(transfers_of(vec![]).is_empty());
}

#[test]
fn approvals_of_the_collection_are_found_in_order() {
    let found = approvals_of(vec![
        trace(
            0x1f,
            1,
            vec![
                log(&COLLECTION, APPROVAL_TOPIC, 1, 2, 10),
                log(&[5; 20], APPROVAL_TOPIC, 3, 4, 11),
                log(&COLLECTION, TRANSFER_TOPIC, 5, 6, 12),
            ],
        ),
        trace(0x2f, 3, vec![log(&COLLECTION, APPROVAL_TOPIC, 1, 2, 13)]),
        trace(0x3f, 1, vec![log(&COLLECTION, APPROVAL_TOPIC, 7, 0, 14)]),
    ]);
    assert_eq!(
        found,
        vec![approval(1, 2, "10", "0x1f1f"), approval(7, 0, "14", "0x3f3f")]
    );
}

#[test]
fn blocks_are_read_transaction_by_transaction() {
    let first = || trace(0x1f, 1, vec![log(&COLLECTION, TRANSFER_TOPIC, 1, 2, 3)]);
    let second = || {
        trace(
            0x2f,
            1,
            vec![
                log(&COLLECTION, TRANSFER_TOPIC, 2, 3, 3),
                log(&COLLECTION, APPROVAL_TOPIC, 3, 4, 3),
            ],
        )
    };
    let mut parts = transfers_of(vec![first()]);
    parts.extend(transfers_of(vec![second()]));
    assert_eq!(transfers_of(vec![first(), second()]), parts);
    let mut parts = approvals_of(vec![first()]);
    parts.extend(approvals_of(vec![second()]));
    assert_eq!(approvals_of(vec![first(), second()]), parts);
}

#[test]
fn the_collection_is_told_from_other_contracts() {
    assert!(from_collection(&COLLECTION));
    assert!(!from_collection(&[]));
    assert!(!from_collection(&COLLECTION[..19]));
    assert!(!from_collection(&[0xbc; 20]));
    let mut other = COLLECTION;
    other[19] = 0x3e;
    assert!(!from_collection(&other));
    assert_eq!(ADDRESS, "0xBC4CA0EdA7647A8aB7C2061c2E118A18a936f13D");
}

fn creating(code: Vec<u8>) -> TransactionTrace {
    TransactionTrace {
        hash: vec![],
        status: 1,
        receipt: None,
        calls: vec![Call {
            call_type: CREATE,
            address: vec![0xab],
            state_reverted: false,
            storage_changes: vec![],
            code_changes: vec![CodeChange { new_code: code }],
        }],
    }
}

/// PUSH1 12, PUSH1 0, MSTORE, PUSH1 32, PUSH1 0, RETURN
const RETURN_TWELVE: [u8; 10] = [0x60, 12, 0x60, 0, 0x52, 0x60, 0x20, 0x60, 0, 0xf3];

#[test]
fn created_contracts_are_asked_about_themselves() {
    let block = || Block {
        transaction_traces: vec![creating(RETURN_TWELVE.to_vec()), creating(vec![0xfe])],
    };
    let expected = vec![
        Contract { name: "".to_string(), symbol: "".to_string(), decimals: 12 },
        Contract { name: "".to_string(), symbol: "".to_string(), decimals: 0 },
    ];
    let mut log = vec![];
    let found = map_blocks("params".to_string(), block(), &mut log).unwrap();
    assert_eq!(found.contracts, expected);
    assert_eq!(log[0], "map_blocks: params");
    assert_eq!(log[1], "Trying contract: ab with 0 valid jump destinations (code len 10))");

    let mut log_within = vec![];
    let found = map_blocks_within("params".to_string(), block(), 100, &mut log_within);
    assert_eq!(found.unwrap().unwrap().contracts, expected);
    assert_eq!(log_within, log);
}

#[test]
fn a_block_that_creates_nothing_is_logged() {
    let mut log = vec![];
    let block = Block { transaction_traces: vec![] };
    let found = map_blocks_within("".to_string(), block, 0, &mut log).unwrap().unwrap();
    assert!(found.contracts.is_empty());
    assert_eq!(log, vec!["map_blocks: ".to_string()]);
}

#[test]
fn a_contract_without_code_or_answer_gives_nothing() {
    let mut log = vec![];
    let mut no_code = creating(vec![]);
    no_code.calls[0].code_changes.clear();
    let block = Block { transaction_traces: vec![no_code] };
    assert!(map_blocks_within("".to_string(), block, 100, &mut log).is_none());

    // JUMPDEST, PUSH1 0, JUMP
    let endless = creating(vec![0x5b, 0x60, 0, 0x56]);
    let block = Block { transaction_traces: vec![creating(vec![0x00]), endless] };
    assert!(map_blocks_within("".to_string(), block, 100, &mut log).is_none());
    assert!(log.is_empty());
}

#[test]
fn successful_transactions_have_receipts() {
    let without = |status: i32| TransactionTrace {
        hash: vec![],
        status,
        receipt: None,
        calls: vec![],
    };
    assert!(Block { transaction_traces: vec![] }.has_receipts());
    assert!(Block { transaction_traces: vec![trace(1, 1, vec![]), without(2)] }.has_receipts());
    assert!(!Block { transaction_traces: vec![trace(1, 1, vec![]), without(1)] }.has_receipts());
}

#[test]
fn unreadable_events_are_told_of_in_order() {
    let short = |address: &[u8], kind: [u8; 32], index: u32| {
        let mut entry = log(address, kind, 1, 2, 3);
        entry.topics[3] = vec![0; 31];
        entry.block_index = index;
        entry
    };
    let block = || Block {
        transaction_traces: vec![
            trace(
                1,
                1,
                vec![
                    short(&COLLECTION, TRANSFER_TOPIC, 1),
                    short(&[5; 20], TRANSFER_TOPIC, 2),
                    short(&COLLECTION, APPROVAL_TOPIC, 3),
                    short(&[5; 20], APPROVAL_TOPIC, 4),
                ],
            ),
            trace(2, 2, vec![short(&COLLECTION, TRANSFER_TOPIC, 5)]),
            trace(3, 1, vec![log(&COLLECTION, TRANSFER_TOPIC, 1, 2, 3)]),
        ],
    };
    let line = |name: &str, index: u32| {
        format!(
            "Log for event `{}` at index {} matched but failed to decode with error: unable to \
             decode param 'token_id' from topic of type 'uint256': InvalidData",
            name, index
        )
    };
    let mut lines = vec!["before".to_string()];
    assert_eq!(map_transfers(block(), &mut lines).unwrap().transfers.len(), 1);
    assert_eq!(
        lines,
        vec!["before".to_string(), line("Transfer", 1), line("Transfer", 2)]
    );
    let mut lines = vec![];
    assert!(map_approvals(block(), &mut lines).unwrap().approvals.is_empty());
    assert_eq!(lines, vec![line("Approval", 3)]);
}
