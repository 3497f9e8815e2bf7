//! How instructions are named and described.

use crate::opcode::{
    has_own_name, input_text, opcode_name, operand_text, operand_texts, output_text, with_operands,
};
use crate::text::{decimal, hex, hex_byte};
use crate::text_laws::law_trim_zeros;
use vstd::prelude::*;

verus! {

/// The instructions of a family are numbered: the pushes from 0 to 32, the copies and the swaps
/// from 1 to 16, the log entries from 0 to 4.
pub proof fn law_families(n: u8)
    ensures
        n <= 32 ==> opcode_name((0x5f + n) as u8) == "PUSH"@ + decimal(n as nat),
        1 <= n <= 16 ==> opcode_name((0x7f + n) as u8) == "DUP"@ + decimal(n as nat),
        1 <= n <= 16 ==> opcode_name((0x8f + n) as u8) == "SWAP"@ + decimal(n as nat),
        n <= 4 ==> opcode_name((0xa0 + n) as u8) == "LOG"@ + decimal(n as nat),
{
}

/// The opcodes outside the families have these names.
pub proof fn law_own_names()
    ensures
        opcode_name(0x00) == "STOP"@,
        opcode_name(0x01) == "ADD"@,
        opcode_name(0x02) == "MUL"@,
        opcode_name(0x03) == "SUB"@,
        opcode_name(0x04) == "DIV"@,
        opcode_name(0x05) == "SDIV"@,
        opcode_name(0x06) == "MOD"@,
        opcode_name(0x07) == "SMOD"@,
        opcode_name(0x08) == "ADDMOD"@,
        opcode_name(0x09) == "MULMOD"@,
        opcode_name(0x0a) == "EXP"@,
        opcode_name(0x0b) == "SIGNEXTEND"@,
        opcode_name(0x10) == "LT"@,
        opcode_name(0x11) == "GT"@,
        opcode_name(0x12) == "SLT"@,
        opcode_name(0x13) == "SGT"@,
        opcode_name(0x14) == "EQ"@,
        opcode_name(0x15) == "ISZERO"@,
        opcode_name(0x16) == "AND"@,
        opcode_name(0x17) == "OR"@,
        opcode_name(0x18) == "XOR"@,
        opcode_name(0x19) == "NOT"@,
        opcode_name(0x1a) == "BYTE"@,
        opcode_name(0x1b) == "SHL"@,
        opcode_name(0x1c) == "SHR"@,
        opcode_name(0x1d) == "SAR"@,
        opcode_name(0x20) == "SHA3"@,
        opcode_name(0x30) == "ADDRESS"@,
        opcode_name(0x31) == "BALANCE"@,
        opcode_name(0x32) == "ORIGIN"@,
        opcode_name(0x33) == "CALLER"@,
        opcode_name(0x34) == "CALLVALUE"@,
        opcode_name(0x35) == "CALLDATALOAD"@,
        opcode_name(0x36) == "CALLDATASIZE"@,
        opcode_name(0x37) == "CALLDATACOPY"@,
        opcode_name(0x38) == "CODESIZE"@,
        opcode_name(0x39) == "CODECOPY"@,
        opcode_name(0x3a) == "GASPRICE"@,
        opcode_name(0x3b) == "EXTCODESIZE"@,
        opcode_name(0x3c) == "EXTCODECOPY"@,
        opcode_name(0x3d) == "RETURNDATASIZE"@,
        opcode_name(0x3e) == "RETURNDATACOPY"@,
        opcode_name(0x3f) == "EXTCODEHASH"@,
        opcode_name(0x40) == "BLOCKHASH"@,
        opcode_name(0x41) == "COINBASE"@,
        opcode_name(0x42) == "TIMESTAMP"@,
        opcode_name(0x43) == "NUMBER"@,
        opcode_name(0x44) == "DIFFICULTY"@,
        opcode_name(0x45) == "GASLIMIT"@,
        opcode_name(0x46) == "CHAINID"@,
        opcode_name(0x47) == "SELFBALANCE"@,
        opcode_name(0x48) == "BASEFEE"@,
        opcode_name(0x50) == "POP"@,
        opcode_name(0x51) == "MLOAD"@,
        opcode_name(0x52) == "MSTORE"@,
        opcode_name(0x53) == "MSTORE8"@,
        opcode_name(0x54) == "SLOAD"@,
        opcode_name(0x55) == "SSTORE"@,
        opcode_name(0x56) == "JUMP"@,
        opcode_name(0x57) == "JUMPI"@,
        opcode_name(0x58) == "PC"@,
        opcode_name(0x59) == "MSIZE"@,
        opcode_name(0x5a) == "GAS"@,
        opcode_name(0x5b) == "JUMPDEST"@,
        opcode_name(0xef) == "EOFMAGIC"@,
        opcode_name(0xf0) == "CREATE"@,
        opcode_name(0xf1) == "CALL"@,
        opcode_name(0xf2) == "CALLCODE"@,
        opcode_name(0xf3) == "RETURN"@,
        opcode_name(0xf4) == "DELEGATECALL"@,
        opcode_name(0xf5) == "CREATE2"@,
        opcode_name(0xfa) == "STATICCALL"@,
        opcode_name(0xfd) == "REVERT"@,
        opcode_name(0xfe) == "INVALID"@,
        opcode_name(0xff) == "SUICIDE"@,
{
}

/// Every opcode outside the families either has a name of its own or is written in hexadecimal.
pub proof fn law_unknown(opcode: u8)
    requires
        !(opcode <= 0x0b || 0x10 <= opcode <= 0x1d || opcode == 0x20 || 0x30 <= opcode <= 0x48
            || 0x50 <= opcode <= 0x5b || 0x5f <= opcode <= 0xa4 || 0xef <= opcode <= 0xf5
            || opcode == 0xfa || 0xfd <= opcode),
    ensures
        opcode_name(opcode) == "<UNKNOWN 0x"@ + hex_byte(opcode) + ">"@,
        !has_own_name(opcode),
{
}

/// An operand is written in hexadecimal, without the zeros in front: with them it is the whole
/// word, the one at the given depth below the top.
pub proof fn law_operand(stack: Seq<Seq<u8>>, depth: int)
    requires
        0 <= depth < stack.len(),
    ensures
        ({
            let word = hex(stack[stack.len() - 1 - depth]);
            let text = operand_text(stack, depth);
            &&& text.len() <= word.len()
            &&& word.skip(word.len() - text.len()) == text
            &&& forall|i: int| 0 <= i < word.len() - text.len() ==> #[trigger] word[i] == '0'
            &&& text.len() > 0 ==> text[0] != '0'
        }),
{
    law_trim_zeros(hex(stack[stack.len() - 1 - depth]));
}

/// The operands stand behind the name, the top one first, with spaces between. Where there are not
/// enough of them, those that there are stand there, and a remark on how many that is.
pub proof fn law_with_operands(name: Seq<char>, stack: Seq<Seq<u8>>, count: nat)
    ensures
        with_operands(name, stack, 0) == name + " "@,
        stack.len() >= 1 ==> with_operands(name, stack, 1) == name + " "@ + operand_text(stack, 0),
        1 <= count < stack.len() ==> with_operands(name, stack, count + 1) == with_operands(
            name,
            stack,
            count,
        ) + " "@ + operand_text(stack, count as int),
        count > stack.len() ==> with_operands(name, stack, count) == with_operands(
            name,
            stack,
            stack.len(),
        ) + " <INVALID STACK AT "@ + decimal(stack.len()) + ">"@,
{
    assert(operand_texts(stack, 0) =~= seq![]);
    assert(with_operands(name, stack, 0) =~= name + " "@);
    if stack.len() >= 1 {
        assert(operand_texts(stack, 1) =~= seq![operand_text(stack, 0)]);
    }
    if 1 <= count < stack.len() {
        let more = operand_texts(stack, count + 1);
        assert(more.drop_last() =~= operand_texts(stack, count));
        assert(more.last() == operand_text(stack, count as int));
        assert(with_operands(name, stack, count + 1) =~= with_operands(name, stack, count) + " "@
            + operand_text(stack, count as int));
    }
}

/// Comparisons and conditional jumps are announced with two operands, jumps and reads of call data
/// with one, and everything else by its name alone.
pub proof fn law_input(opcode: u8, stack: Seq<Seq<u8>>)
    ensures
        input_text(0x10, stack) == with_operands("LT"@, stack, 2),
        input_text(0x11, stack) == with_operands("GT"@, stack, 2),
        input_text(0x12, stack) == with_operands("SLT"@, stack, 2),
        input_text(0x13, stack) == with_operands("SGT"@, stack, 2),
        input_text(0x14, stack) == with_operands("EQ"@, stack, 2),
        input_text(0x35, stack) == with_operands("CALLDATALOAD"@, stack, 1),
        input_text(0x56, stack) == with_operands("JUMP"@, stack, 1),
        input_text(0x57, stack) == with_operands("JUMPI"@, stack, 2),
        !(0x10 <= opcode <= 0x14) && opcode != 0x35 && opcode != 0x56 && opcode != 0x57
            ==> input_text(opcode, stack) == opcode_name(opcode),
{
}

/// The results of reads of call data and of its size are told of, and no others.
pub proof fn law_output(opcode: u8, stack: Seq<Seq<u8>>)
    ensures
        output_text(0x35, stack) == Some(with_operands("CALLDATALOAD"@, stack, 1)),
        output_text(0x36, stack) == Some(with_operands("CALLDATASIZE"@, stack, 1)),
        opcode != 0x35 && opcode != 0x36 ==> output_text(opcode, stack) is None,
{
}

} // verus!
