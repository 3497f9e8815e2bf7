use erc721_substream::opcode::{
    display_opcode_input, display_opcode_output, display_opcode_with_stack, opcode_to_string,
};
use evm_core::Stack;
use primitive_types::H256;

fn stack_of(words: &[u64]) -> Stack {
    let mut stack = Stack::new(1024);
    for word in words {
        stack.push(H256::from_low_u64_be(*word)).unwrap();
    }
    stack
}

#[test]
fn opcodes_have_mnemonics() {
    let table: Vec<(u8, &str)> = vec![
        (0x00, "STOP"), (0x01, "ADD"), (0x02, "MUL"), (0x03, "SUB"), (0x04, "DIV"),
        (0x05, "SDIV"), (0x06, "MOD"), (0x07, "SMOD"), (0x08, "ADDMOD"), (0x09, "MULMOD"),
        (0x0a, "EXP"), (0x0b, "SIGNEXTEND"), (0x10, "LT"), (0x11, "GT"), (0x12, "SLT"),
        (0x13, "SGT"), (0x14, "EQ"), (0x15, "ISZERO"), (0x16, "AND"), (0x17, "OR"),
        (0x18, "XOR"), (0x19, "NOT"), (0x1a, "BYTE"), (0x35, "CALLDATALOAD"),
        (0x36, "CALLDATASIZE"), (0x37, "CALLDATACOPY"), (0x38, "CODESIZE"), (0x39, "CODECOPY"),
        (0x1b, "SHL"), (0x1c, "SHR"), (0x1d, "SAR"), (0x50, "POP"), (0x51, "MLOAD"),
        (0x52, "MSTORE"), (0x53, "MSTORE8"), (0x56, "JUMP"), (0x57, "JUMPI"), (0x58, "PC"),
        (0x59, "MSIZE"), (0x5b, "JUMPDEST"), (0x5f, "PUSH0"), (0x60, "PUSH1"), (0x68, "PUSH9"),
        (0x69, "PUSH10"), (0x73, "PUSH20"), (0x7f, "PUSH32"), (0x80, "DUP1"), (0x88, "DUP9"),
        (0x89, "DUP10"), (0x8f, "DUP16"), (0x90, "SWAP1"), (0x98, "SWAP9"), (0x99, "SWAP10"),
        (0x9f, "SWAP16"), (0xf3, "RETURN"), (0xfd, "REVERT"), (0xfe, "INVALID"),
        (0xef, "EOFMAGIC"), (0x20, "SHA3"), (0x30, "ADDRESS"), (0x31, "BALANCE"),
        (0x47, "SELFBALANCE"), (0x48, "BASEFEE"), (0x32, "ORIGIN"), (0x33, "CALLER"),
        (0x34, "CALLVALUE"), (0x3a, "GASPRICE"), (0x3b, "EXTCODESIZE"), (0x3c, "EXTCODECOPY"),
        (0x3f, "EXTCODEHASH"), (0x3d, "RETURNDATASIZE"), (0x3e, "RETURNDATACOPY"),
        (0x40, "BLOCKHASH"), (0x41, "COINBASE"), (0x42, "TIMESTAMP"), (0x43, "NUMBER"),
        (0x44, "DIFFICULTY"), (0x45, "GASLIMIT"), (0x54, "SLOAD"), (0x55, "SSTORE"),
        (0x5a, "GAS"), (0xa0, "LOG0"), (0xa1, "LOG1"), (0xa4, "LOG4"), (0xf0, "CREATE"),
        (0xf5, "CREATE2"), (0xf1, "CALL"), (0xf2, "CALLCODE"), (0xf4, "DELEGATECALL"),
        (0xfa, "STATICCALL"), (0xff, "SUICIDE"), (0x46, "CHAINID"),
    ];
    for (opcode, name) in table {
        assert_eq!(opcode_to_string(opcode), name);
    }
}

#[test]
fn families_are_numbered() {
    for n in 0..=32u8 {
        assert_eq!(opcode_to_string(0x5f + n), format!("PUSH{}", n));
    }
    for n in 1..=16u8 {
        assert_eq!(opcode_to_string(0x7f + n), format!("DUP{}", n));
        assert_eq!(opcode_to_string(0x8f + n), format!("SWAP{}", n));
    }
    for n in 0..=4u8 {
        assert_eq!(opcode_to_string(0xa0 + n), format!("LOG{}", n));
    }
}

#[test]
fn unassigned_opcodes_are_unknown() {
    assert_eq!(opcode_to_string(0x0c), "<UNKNOWN 0xc>");
    assert_eq!(opcode_to_string(0x1e), "<UNKNOWN 0x1e>");
    assert_eq!(opcode_to_string(0x49), "<UNKNOWN 0x49>");
    assert_eq!(opcode_to_string(0xa5), "<UNKNOWN 0xa5>");
    assert_eq!(opcode_to_string(0xfc), "<UNKNOWN 0xfc>");
}

#[test]
fn opcode_names_are_distinct() {
    let names: Vec<String> = (0..=255u8).map(opcode_to_string).collect();
    for (i, name) in names.iter().enumerate() {
        assert_eq!(names.iter().position(|other| other == name), Some(i));
    }
}

#[test]
fn operands_are_written_top_first() {
    let stack = stack_of(&[7, 0x0102, 0xff]);
    assert_eq!(display_opcode_with_stack("NAME", &stack, 0), "NAME ");
    assert_eq!(display_opcode_with_stack("NAME", &stack, 1), "NAME ff");
    assert_eq!(display_opcode_with_stack("NAME", &stack, 3), "NAME ff 102 7");
}

#[test]
fn a_zero_operand_leaves_no_digits() {
    assert_eq!(display_opcode_with_stack("NAME", &stack_of(&[5, 0]), 2), "NAME  5");
}

#[test]
fn a_full_word_keeps_all_its_digits() {
    let mut stack = Stack::new(1);
    stack.push(H256([0xab; 32])).unwrap();
    assert_eq!(display_opcode_with_stack("NAME", &stack, 1), format!("NAME {}", "ab".repeat(32)));
}

#[test]
fn missing_operands_are_remarked_on() {
    let stack = stack_of(&[7, 8]);
    assert_eq!(display_opcode_with_stack("NAME", &stack, 4), "NAME 8 7 <INVALID STACK AT 2>");
    assert_eq!(
        display_opcode_with_stack("NAME", &stack_of(&[]), 1),
        "NAME  <INVALID STACK AT 0>"
    );
}

#[test]
fn inputs_of_comparisons_and_jumps_are_shown() {
    let stack = stack_of(&[1, 2, 3]);
    assert_eq!(display_opcode_input(0x10, &stack), "LT 3 2");
    assert_eq!(display_opcode_input(0x11, &stack), "GT 3 2");
    assert_eq!(display_opcode_input(0x12, &stack), "SLT 3 2");
    assert_eq!(display_opcode_input(0x13, &stack), "SGT 3 2");
    assert_eq!(display_opcode_input(0x14, &stack), "EQ 3 2");
    assert_eq!(display_opcode_input(0x35, &stack), "CALLDATALOAD 3");
    assert_eq!(display_opcode_input(0x56, &stack), "JUMP 3");
    assert_eq!(display_opcode_input(0x57, &stack), "JUMPI 3 2");
    assert_eq!(display_opcode_input(0x15, &stack), "ISZERO");
    assert_eq!(display_opcode_input(0x36, &stack), "CALLDATASIZE");
    assert_eq!(display_opcode_input(0x60, &stack), "PUSH1");
    assert_eq!(display_opcode_input(0x57, &stack_of(&[9])), "JUMPI 9 <INVALID STACK AT 1>");
}

#[test]
fn outputs_of_call_data_instructions_are_shown() {
    let stack = stack_of(&[1, 4]);
    assert_eq!(display_opcode_output(0x35, &stack), Some("CALLDATALOAD 4".to_string()));
    assert_eq!(display_opcode_output(0x36, &stack), Some("CALLDATASIZE 4".to_string()));
    assert_eq!(display_opcode_output(0x37, &stack), None);
    assert_eq!(display_opcode_output(0x10, &stack), None);
}
