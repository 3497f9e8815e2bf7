use erc721_substream::abi::{NAME_CALL, SYMBOL_CALL};
use erc721_substream::contract::{
    process_contract, process_contract_within, process_contracts, process_contracts_within,
    read_decimals, read_name, read_symbol, ContractCreation,
};
use erc721_substream::execution::ExecutionError;
use erc721_substream::schema::Contract;
use erc721_substream::storage::Storage;
use ethabi::Token;

const LIMIT: u64 = 10_000;

fn contract(name: &str, symbol: &str, decimals: u64) -> Contract {
    Contract { name: name.to_string(), symbol: symbol.to_string(), decimals }
}

fn created(code: Vec<u8>) -> ContractCreation {
    ContractCreation { address: vec![1, 2], code, storage_changes: Storage::new() }
}

/// Code that returns `data`, whose length is a multiple of 32.
fn returning(data: &[u8]) -> Vec<u8> {
    let mut code = vec![];
    for (i, word) in data.chunks(32).enumerate() {
        code.push(0x7f);
        code.extend(word);
        code.extend(vec![0x60, 32 * i as u8, 0x52]);
    }
    code.extend(vec![0x60, data.len() as u8, 0x60, 0, 0xf3]);
    code
}

/// Code that returns one text for `name()`, another for `symbol()`, and `number` otherwise.
fn token_code(name: &str, symbol: &str, number: u8) -> Vec<u8> {
    let mut number_word = vec![0u8; 32];
    number_word[31] = number;
    let name_part = returning(&ethabi::encode(&[Token::String(name.to_string())]));
    let symbol_part = returning(&ethabi::encode(&[Token::String(symbol.to_string())]));
    let other_part = returning(&number_word);
    // PUSH1 0, CALLDATALOAD, PUSH1 224, SHR
    let mut code = vec![0x60, 0, 0x35, 0x60, 0xe0, 0x1c];
    // DUP1, PUSH4 selector, EQ, PUSH2 destination, JUMPI, twice
    let start = code.len() + 2 * 11;
    let name_at = start + other_part.len();
    let symbol_at = name_at + 1 + name_part.len();
    for (selector, at) in [(NAME_CALL, name_at), (SYMBOL_CALL, symbol_at)] {
        code.extend(vec![0x80, 0x63]);
        code.extend(selector);
        code.extend(vec![0x14, 0x61, (at / 256) as u8, (at % 256) as u8, 0x57]);
    }
    assert_eq!(code.len(), start);
    code.extend(other_part);
    code.push(0x5b);
    code.extend(name_part);
    code.push(0x5b);
    code.extend(symbol_part);
    code
}

#[test]
fn a_token_contract_is_asked_three_questions() {
    let mut log = vec![];
    let code = token_code("BoredApeYachtClub", "BAYC", 18);
    assert_eq!(
        process_contract_within(created(code.clone()), LIMIT, &mut log),
        Some(contract("BoredApeYachtClub", "BAYC", 18))
    );
    let tries: Vec<&String> = log.iter().filter(|l| l.starts_with("Trying")).collect();
    let line = format!(
        "Trying contract: 0102 with 2 valid jump destinations (code len {}))",
        code.len()
    );
    assert_eq!(tries, vec![&line, &line, &line]);
    assert_eq!(log.iter().filter(|l| l.starts_with("EVM returned gracefully ")).count(), 3);
    assert!(log.contains(&"Machine active opcode is EQ 6fdde03 6fdde03".to_string()));
}

#[test]
fn processing_without_a_limit_gives_the_same() {
    let mut within = vec![];
    let mut open_ended = vec![];
    let code = token_code("Name", "SYM", 0);
    let expected = process_contract_within(created(code.clone()), LIMIT, &mut within);
    assert_eq!(process_contract(created(code), &mut open_ended), expected);
    assert_eq!(open_ended, within);
    assert_eq!(expected, Some(contract("Name", "SYM", 0)));
}

#[test]
fn what_fails_is_left_at_its_default() {
    let mut log = vec![];
    assert_eq!(
        process_contract_within(created(vec![0xfe]), LIMIT, &mut log),
        Some(contract("", "", 0))
    );
    let error = "Error: Capture exit: Error(DesignatedInvalid)".to_string();
    assert_eq!(log.iter().filter(|l| **l == error).count(), 3);
    assert_eq!(log.len(), 9);
}

#[test]
fn answers_that_cannot_be_decoded_are_logged() {
    let mut log = vec![];
    // PUSH1 3, PUSH1 0, RETURN
    let code = vec![0x60, 3, 0x60, 0, 0xf3];
    assert_eq!(
        process_contract_within(created(code), LIMIT, &mut log),
        Some(contract("", "", 0))
    );
    let reason = "unable to decode output data: InvalidData";
    assert_eq!(log[5], format!("Unable to decode output for name: {}", reason));
    assert_eq!(log[11], format!("Unable to decode output for symbol: {}", reason));
    assert_eq!(log[17], format!("Unable to decode output for decimals: {}", reason));
    assert_eq!(log.len(), 18);
}

#[test]
fn a_number_over_64_bits_gives_nothing() {
    let mut log = vec![];
    assert_eq!(process_contract_within(created(returning(&[1; 32])), LIMIT, &mut log), None);
    assert!(log.is_empty());
}

#[test]
fn a_call_without_end_gives_nothing() {
    let mut log = vec![];
    // JUMPDEST, PUSH1 0, JUMP
    let endless = vec![0x5b, 0x60, 0, 0x56];
    assert_eq!(process_contract_within(created(endless), LIMIT, &mut log), None);
    assert!(log.is_empty());
}

#[test]
fn the_constructor_storage_is_read() {
    // PUSH1 7, SLOAD, PUSH1 0, MSTORE, PUSH1 32, PUSH1 0, RETURN
    let code = vec![0x60, 7, 0x54, 0x60, 0, 0x52, 0x60, 0x20, 0x60, 0, 0xf3];
    let mut storage = Storage::new();
    let mut key = [0u8; 32];
    key[31] = 7;
    let mut value = vec![0; 32];
    value[31] = 21;
    storage.insert(key, value);
    let creation = ContractCreation { address: vec![], code, storage_changes: storage };
    let mut log = vec![];
    assert_eq!(
        process_contract_within(creation, LIMIT, &mut log),
        Some(contract("", "", 21))
    );
}

#[test]
fn names_and_symbols_are_read_from_answers() {
    let data = ethabi::encode(&[Token::String("hi".to_string())]);
    let mut log = vec![];
    assert_eq!(read_name(Ok(data.clone()), &mut log), "hi");
    assert_eq!(read_symbol(Ok(data), &mut log), "hi");
    assert!(log.is_empty());
    assert_eq!(read_name(Err(ExecutionError::UnhandledTrap(0x33)), &mut log), "");
    assert_eq!(read_symbol(Err(ExecutionError::Exit("why".to_string())), &mut log), "");
    assert_eq!(
        log,
        vec![
            "Error: Capture trap unhandled: \"CALLER\"".to_string(),
            "Error: Capture exit: why".to_string(),
        ]
    );
}

#[test]
fn decimals_are_read_from_answers() {
    let mut log = vec![];
    let mut largest = vec![0u8; 24];
    largest.extend(vec![0xff; 8]);
    assert_eq!(read_decimals(Ok(largest), &mut log), u64::MAX);
    assert!(log.is_empty());
    assert_eq!(read_decimals(Ok(vec![1]), &mut log), 0);
    assert_eq!(read_decimals(Err(ExecutionError::UnknownStorageKey([0; 32])), &mut log), 0);
    assert_eq!(
        log,
        vec![
            "Unable to decode output for decimals: unable to decode output data: InvalidData"
                .to_string(),
            format!("Error: SLOAD unknown storage key {}", "00".repeat(32)),
        ]
    );
}

#[test]
fn contracts_are_asked_one_after_the_other() {
    let first = || created(token_code("One", "1", 1));
    let second = || created(token_code("Two", "2", 2));
    let mut log = vec![];
    assert_eq!(
        process_contracts(vec![first(), second()], &mut log),
        vec![contract("One", "1", 1), contract("Two", "2", 2)]
    );
    let mut expected = vec![];
    process_contract_within(first(), LIMIT, &mut expected);
    process_contract_within(second(), LIMIT, &mut expected);
    assert_eq!(log, expected);
    assert!(process_contracts(vec![], &mut log).is_empty());
}

#[test]
fn contracts_are_asked_within_a_limit() {
    let creations = || {
        vec![created(token_code("One", "1", 1)), created(vec![0xfe]), created(vec![0x00])]
    };
    let mut log = vec!["before".to_string()];
    let found = process_contracts_within(creations(), LIMIT, &mut log).unwrap();
    assert_eq!(found, vec![contract("One", "1", 1), contract("", "", 0), contract("", "", 0)]);
    let mut expected = vec!["before".to_string()];
    assert_eq!(process_contracts(creations(), &mut expected), found);
    assert_eq!(log, expected);
}

#[test]
fn nothing_is_given_unless_all_contracts_answer() {
    let good = || created(vec![0x00]);
    let endless = || created(vec![0x5b, 0x60, 0, 0x56]);
    let mut log = vec![];
    assert_eq!(process_contracts_within(vec![], 0, &mut log), Some(vec![]));
    assert_eq!(process_contracts_within(vec![good(), endless()], LIMIT, &mut log), None);
    assert_eq!(process_contracts_within(vec![endless(), good()], LIMIT, &mut log), None);
    assert_eq!(process_contracts_within(vec![good()], 0, &mut log), None);
    assert!(log.is_empty());
}
