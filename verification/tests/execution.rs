use erc721_substream::execution::{execute_on, execute_within, ExecutionError};
use erc721_substream::storage::Storage;
use std::rc::Rc;

const LIMIT: u64 = 10_000;

fn word(last: u8) -> Vec<u8> {
    let mut word = vec![0u8; 32];
    word[31] = last;
    word
}

type Outcome = Option<Result<Vec<u8>, String>>;

fn call(code: Vec<u8>, data: Vec<u8>, storage: &Storage) -> (Outcome, Vec<String>) {
    let mut log = vec![];
    let result = execute_within(&vec![0xaa, 0x0b], Rc::new(code), data, storage, LIMIT, &mut log);
    (result.map(|r| r.map_err(|e| e.message())), log)
}

fn outcome(code: Vec<u8>) -> Outcome {
    call(code, vec![], &Storage::new()).0
}

/// PUSH1 5, PUSH1 0, MSTORE, PUSH1 32, PUSH1 0, RETURN
const RETURN_FIVE: [u8; 10] = [0x60, 0x05, 0x60, 0x00, 0x52, 0x60, 0x20, 0x60, 0x00, 0xf3];

/// PUSH1 7, SLOAD, PUSH1 0, MSTORE, PUSH1 32, PUSH1 0, RETURN
const RETURN_SLOT: [u8; 11] =
    [0x60, 0x07, 0x54, 0x60, 0x00, 0x52, 0x60, 0x20, 0x60, 0x00, 0xf3];

#[test]
fn a_value_is_returned_and_every_instruction_logged() {
    let (result, log) = call(RETURN_FIVE.to_vec(), vec![], &Storage::new());
    assert_eq!(result, Some(Ok(word(5))));
    assert_eq!(
        log,
        vec![
            "Trying contract: aa0b with 0 valid jump destinations (code len 10))".to_string(),
            "Machine active opcode is PUSH1".to_string(),
            "Machine active opcode is PUSH1".to_string(),
            "Machine active opcode is MSTORE".to_string(),
            "Machine active opcode is PUSH1".to_string(),
            "Machine active opcode is PUSH1".to_string(),
            "Machine active opcode is RETURN".to_string(),
            format!("EVM returned gracefully {}05", "00".repeat(31)),
        ]
    );
}

#[test]
fn an_open_ended_call_gives_the_same() {
    let mut log = vec!["before".to_string()];
    let result = execute_on(
        &vec![0xaa, 0x0b],
        Rc::new(RETURN_FIVE.to_vec()),
        vec![],
        &Storage::new(),
        &mut log,
    );
    assert!(matches!(result, Ok(bytes) if bytes == word(5)));
    let mut expected = vec!["before".to_string()];
    expected.extend(call(RETURN_FIVE.to_vec(), vec![], &Storage::new()).1);
    assert_eq!(log, expected);
}

#[test]
fn the_limit_counts_instructions() {
    let run = |limit: u64| {
        let mut log = vec![];
        let result = execute_within(
            &vec![],
            Rc::new(RETURN_FIVE.to_vec()),
            vec![],
            &Storage::new(),
            limit,
            &mut log,
        );
        (result.is_some(), log.len())
    };
    assert_eq!(run(0), (false, 0));
    assert_eq!(run(5), (false, 0));
    assert_eq!(run(6), (true, 8));
    assert_eq!(run(u64::MAX), (true, 8));
}

#[test]
fn a_stop_returns_nothing() {
    let (result, log) = call(vec![0x00], vec![], &Storage::new());
    assert_eq!(result, Some(Ok(vec![])));
    assert_eq!(
        log[1..],
        ["Machine active opcode is STOP".to_string(), "EVM stopped gracefully".to_string()]
    );
}

#[test]
fn the_end_of_the_code_is_a_stop() {
    let (result, log) = call(vec![], vec![], &Storage::new());
    assert_eq!(result, Some(Ok(vec![])));
    assert_eq!(
        log,
        vec![
            "Trying contract: aa0b with 0 valid jump destinations (code len 0))".to_string(),
            "EVM stopped gracefully".to_string(),
        ]
    );
}

#[test]
fn markers_inside_operands_are_no_jump_destinations() {
    // JUMPDEST, PUSH2 JUMPDEST JUMPDEST, JUMPDEST, STOP
    let (_, log) = call(vec![0x5b, 0x61, 0x5b, 0x5b, 0x5b, 0x00], vec![], &Storage::new());
    assert_eq!(log[0], "Trying contract: aa0b with 2 valid jump destinations (code len 6))");
}

#[test]
fn unwritten_memory_is_returned_as_zeros() {
    // PUSH1 3, PUSH1 200, RETURN
    assert_eq!(outcome(vec![0x60, 3, 0x60, 200, 0xf3]), Some(Ok(vec![0, 0, 0])));
}

#[test]
fn call_data_is_read_and_logged() {
    // PUSH1 0, CALLDATALOAD, CALLDATASIZE, PUSH1 1, CALLDATALOAD, STOP
    let code = vec![0x60, 0, 0x35, 0x36, 0x60, 1, 0x35, 0x00];
    let (_, log) = call(code, vec![0x06, 0xfd, 0xde, 0x03], &Storage::new());
    assert_eq!(log[2], "Machine active opcode is CALLDATALOAD ");
    assert_eq!(
        log[3],
        format!("Machine executed opcode CALLDATALOAD 6fdde03{}", "00".repeat(28))
    );
    assert_eq!(log[4], "Machine active opcode is CALLDATASIZE");
    assert_eq!(log[5], "Machine executed opcode CALLDATASIZE 4");
    assert_eq!(log[7], "Machine active opcode is CALLDATALOAD 1");
    assert_eq!(
        log[8],
        format!("Machine executed opcode CALLDATALOAD fdde03{}", "00".repeat(29))
    );
}

#[test]
fn the_value_of_the_call_is_zero() {
    // PUSH1 9, PUSH1 0, MSTORE, CALLVALUE, PUSH1 0, MSTORE, PUSH1 32, PUSH1 0, RETURN
    let code = vec![
        0x60, 9, 0x60, 0, 0x52, 0x34, 0x60, 0, 0x52, 0x60, 0x20, 0x60, 0, 0xf3,
    ];
    assert_eq!(outcome(code), Some(Ok(vec![0; 32])));
}

#[test]
fn storage_is_read() {
    let mut storage = Storage::new();
    let mut key = [0u8; 32];
    key[31] = 7;
    storage.insert(key, vec![0x42; 32]);
    let (result, log) = call(RETURN_SLOT.to_vec(), vec![], &storage);
    assert_eq!(result, Some(Ok(vec![0x42; 32])));
    assert_eq!(log[2], "Machine active opcode is SLOAD");
    assert_eq!(log.last().unwrap(), &format!("EVM returned gracefully {}", "42".repeat(32)));
}

#[test]
fn an_unwritten_slot_is_an_error() {
    let mut log = vec![];
    let result = execute_within(
        &vec![],
        Rc::new(RETURN_SLOT.to_vec()),
        vec![],
        &Storage::new(),
        LIMIT,
        &mut log,
    );
    let mut key = [0u8; 32];
    key[31] = 7;
    match result {
        Some(Err(error)) => {
            assert!(matches!(error, ExecutionError::UnknownStorageKey(k) if k == key));
            assert_eq!(
                error.message(),
                format!("SLOAD unknown storage key {}07", "00".repeat(31))
            );
        }
        _ => panic!("no error"),
    }
    assert_eq!(log.len(), 3);
}

#[test]
fn other_outside_instructions_are_errors() {
    assert_eq!(
        outcome(vec![0x33]),
        Some(Err("Capture trap unhandled: \"CALLER\"".to_string()))
    );
    assert_eq!(
        outcome(vec![0x0c]),
        Some(Err("Capture trap unhandled: \"<UNKNOWN 0xc>\"".to_string()))
    );
    let mut log = vec![];
    let result =
        execute_within(&vec![], Rc::new(vec![0x42]), vec![], &Storage::new(), LIMIT, &mut log);
    assert!(matches!(result, Some(Err(ExecutionError::UnhandledTrap(0x42)))));
}

#[test]
fn other_exits_are_errors() {
    let exit = |code: Vec<u8>| outcome(code).unwrap().unwrap_err();
    assert_eq!(exit(vec![0xfe]), "Capture exit: Error(DesignatedInvalid)");
    assert_eq!(exit(vec![0x50]), "Capture exit: Error(StackUnderflow)");
    assert_eq!(exit(vec![0x60, 9, 0x56]), "Capture exit: Error(InvalidJump)");
    assert_eq!(exit(vec![0x60, 0, 0x60, 0, 0xfd]), "Capture exit: Revert(Reverted)");
    let mut log = vec![];
    let result =
        execute_within(&vec![], Rc::new(vec![0xfe]), vec![], &Storage::new(), LIMIT, &mut log);
    assert!(matches!(
        result,
        Some(Err(ExecutionError::Exit(reason))) if reason == "Error(DesignatedInvalid)"
    ));
}

#[test]
fn memory_has_a_limit() {
    // PUSH1 1, PUSH2 offset, MSTORE8, STOP
    let store_at = |high: u8, low: u8| outcome(vec![0x60, 1, 0x61, high, low, 0x53, 0x00]);
    assert_eq!(store_at(0x03, 0xff), Some(Ok(vec![])));
    assert_eq!(store_at(0x04, 0x00), Some(Err("Capture exit: Fatal(NotSupported)".to_string())));
}

#[test]
fn a_run_without_end_gives_nothing() {
    // JUMPDEST, PUSH1 0, JUMP
    assert_eq!(call(vec![0x5b, 0x60, 0, 0x56], vec![], &Storage::new()), (None, vec![]));
}

#[test]
fn a_read_without_a_key_gives_nothing() {
    assert_eq!(call(vec![0x54], vec![], &Storage::new()), (None, vec![]));
}

#[test]
fn the_stack_has_a_limit() {
    assert_eq!(outcome(vec![0x34; 1024]), Some(Ok(vec![])));
    assert_eq!(outcome(vec![0x34; 1025]), None);
}

#[test]
fn a_slot_that_is_no_word_gives_nothing() {
    let mut storage = Storage::new();
    let mut key = [0u8; 32];
    key[31] = 7;
    storage.insert(key, vec![1, 2, 3]);
    assert_eq!(call(RETURN_SLOT.to_vec(), vec![], &storage).0, None);
}

#[test]
fn a_value_of_impossible_size_gives_nothing() {
    // PUSH32 2^255, PUSH1 0, RETURN
    let mut code = vec![0x7f, 0x80];
    code.extend(vec![0; 31]);
    code.extend(vec![0x60, 0, 0xf3]);
    assert_eq!(outcome(code), None);
}
