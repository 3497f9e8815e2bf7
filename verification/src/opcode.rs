//! Opcode mnemonics, and the lines that describe an instruction with its operands.

use crate::evm::{peek, stack_items, word_hex};
use crate::text::{
    decimal, decimal_text, hex, hex_byte, hex_byte_text, join, joined, law_decimal_injective,
    law_hex_byte_injective, lines, trim_leading_zeros, trim_zeros,
};
use evm_core::Stack;
use vstd::prelude::*;

verus! {

/// The mnemonic of an opcode. The members of a family are numbered, and an opcode that stands for
/// nothing is written out in hexadecimal.
pub open spec fn opcode_name(opcode: u8) -> Seq<char> {
    if 0x5f <= opcode <= 0x7f {
        "PUSH"@ + decimal((opcode - 0x5f) as nat)
    } else if 0x80 <= opcode <= 0x8f {
        "DUP"@ + decimal((opcode - 0x7f) as nat)
    } else if 0x90 <= opcode <= 0x9f {
        "SWAP"@ + decimal((opcode - 0x8f) as nat)
    } else if 0xa0 <= opcode <= 0xa4 {
        "LOG"@ + decimal((opcode - 0xa0) as nat)
    } else {
        match opcode {
            0x00 => "STOP"@,
            0x01 => "ADD"@,
            0x02 => "MUL"@,
            0x03 => "SUB"@,
            0x04 => "DIV"@,
            0x05 => "SDIV"@,
            0x06 => "MOD"@,
            0x07 => "SMOD"@,
            0x08 => "ADDMOD"@,
            0x09 => "MULMOD"@,
            0x0a => "EXP"@,
            0x0b => "SIGNEXTEND"@,
            0x10 => "LT"@,
            0x11 => "GT"@,
            0x12 => "SLT"@,
            0x13 => "SGT"@,
            0x14 => "EQ"@,
            0x15 => "ISZERO"@,
            0x16 => "AND"@,
            0x17 => "OR"@,
            0x18 => "XOR"@,
            0x19 => "NOT"@,
            0x1a => "BYTE"@,
            0x1b => "SHL"@,
            0x1c => "SHR"@,
            0x1d => "SAR"@,
            0x20 => "SHA3"@,
            0x30 => "ADDRESS"@,
            0x31 => "BALANCE"@,
            0x32 => "ORIGIN"@,
            0x33 => "CALLER"@,
            0x34 => "CALLVALUE"@,
            0x35 => "CALLDATALOAD"@,
            0x36 => "CALLDATASIZE"@,
            0x37 => "CALLDATACOPY"@,
            0x38 => "CODESIZE"@,
            0x39 => "CODECOPY"@,
            0x3a => "GASPRICE"@,
            0x3b => "EXTCODESIZE"@,
            0x3c => "EXTCODECOPY"@,
            0x3d => "RETURNDATASIZE"@,
            0x3e => "RETURNDATACOPY"@,
            0x3f => "EXTCODEHASH"@,
            0x40 => "BLOCKHASH"@,
            0x41 => "COINBASE"@,
            0x42 => "TIMESTAMP"@,
            0x43 => "NUMBER"@,
            0x44 => "DIFFICULTY"@,
            0x45 => "GASLIMIT"@,
            0x46 => "CHAINID"@,
            0x47 => "SELFBALANCE"@,
            0x48 => "BASEFEE"@,
            0x50 => "POP"@,
            0x51 => "MLOAD"@,
            0x52 => "MSTORE"@,
            0x53 => "MSTORE8"@,
            0x54 => "SLOAD"@,
            0x55 => "SSTORE"@,
            0x56 => "JUMP"@,
            0x57 => "JUMPI"@,
            0x58 => "PC"@,
            0x59 => "MSIZE"@,
            0x5a => "GAS"@,
            0x5b => "JUMPDEST"@,
            0xef => "EOFMAGIC"@,
            0xf0 => "CREATE"@,
            0xf1 => "CALL"@,
            0xf2 => "CALLCODE"@,
            0xf3 => "RETURN"@,
            0xf4 => "DELEGATECALL"@,
            0xf5 => "CREATE2"@,
            0xfa => "STATICCALL"@,
            0xfd => "REVERT"@,
            0xfe => "INVALID"@,
            0xff => "SUICIDE"@,
            _ => "<UNKNOWN 0x"@ + hex_byte(opcode) + ">"@,
        }
    }
}

/// The operand at `depth` below the top of `stack`, in hexadecimal without leading zeros.
pub open spec fn operand_text(stack: Seq<Seq<u8>>, depth: int) -> Seq<char> {
    trim_zeros(hex(stack[stack.len() - 1 - depth]))
}

/// The top `count` operands of `stack`, the top one first.
pub open spec fn operand_texts(stack: Seq<Seq<u8>>, count: nat) -> Seq<Seq<char>> {
    Seq::new(count, |depth: int| operand_text(stack, depth))
}

/// `name` with the top `count` operands behind it, or with as many as there are and a remark.
pub open spec fn with_operands(name: Seq<char>, stack: Seq<Seq<u8>>, count: nat) -> Seq<char> {
    if count <= stack.len() {
        name + " "@ + joined(operand_texts(stack, count), " "@)
    } else {
        name + " "@ + joined(operand_texts(stack, stack.len()), " "@) + " <INVALID STACK AT "@
            + decimal(stack.len()) + ">"@
    }
}

/// How an instruction is described before it runs.
pub open spec fn input_text(opcode: u8, stack: Seq<Seq<u8>>) -> Seq<char> {
    if 0x10 <= opcode <= 0x14 || opcode == 0x57 {
        with_operands(opcode_name(opcode), stack, 2)
    } else if opcode == 0x35 || opcode == 0x56 {
        with_operands(opcode_name(opcode), stack, 1)
    } else {
        opcode_name(opcode)
    }
}

/// How an instruction is described after it ran, if it is.
pub open spec fn output_text(opcode: u8, stack: Seq<Seq<u8>>) -> Option<Seq<char>> {
    if opcode == 0x35 || opcode == 0x36 {
        Some(with_operands(opcode_name(opcode), stack, 1))
    } else {
        None
    }
}

/// A numbered mnemonic.
fn numbered(family: &str, number: u8) -> (r: String)
    ensures
        r@ == family@ + decimal(number as nat),
{
    let mut r = family.to_owned();
    r.append(decimal_text(number as u64).as_str());
    r
}

/// Names an opcode.
pub fn opcode_to_string(opcode: u8) -> (r: String)
    ensures
        r@ == opcode_name(opcode),
{
    if 0x5f <= opcode && opcode <= 0x7f {
        return numbered("PUSH", opcode - 0x5f);
    }
    if 0x80 <= opcode && opcode <= 0x8f {
        return numbered("DUP", opcode - 0x7f);
    }
    if 0x90 <= opcode && opcode <= 0x9f {
        return numbered("SWAP", opcode - 0x8f);
    }
    if 0xa0 <= opcode && opcode <= 0xa4 {
        return numbered("LOG", opcode - 0xa0);
    }
    match opcode {
        0x00 => "STOP".to_owned(),
        0x01 => "ADD".to_owned(),
        0x02 => "MUL".to_owned(),
        0x03 => "SUB".to_owned(),
        0x04 => "DIV".to_owned(),
        0x05 => "SDIV".to_owned(),
        0x06 => "MOD".to_owned(),
        0x07 => "SMOD".to_owned(),
        0x08 => "ADDMOD".to_owned(),
        0x09 => "MULMOD".to_owned(),
        0x0a => "EXP".to_owned(),
        0x0b => "SIGNEXTEND".to_owned(),
        0x10 => "LT".to_owned(),
        0x11 => "GT".to_owned(),
        0x12 => "SLT".to_owned(),
        0x13 => "SGT".to_owned(),
        0x14 => "EQ".to_owned(),
        0x15 => "ISZERO".to_owned(),
        0x16 => "AND".to_owned(),
        0x17 => "OR".to_owned(),
        0x18 => "XOR".to_owned(),
        0x19 => "NOT".to_owned(),
        0x1a => "BYTE".to_owned(),
        0x1b => "SHL".to_owned(),
        0x1c => "SHR".to_owned(),
        0x1d => "SAR".to_owned(),
        0x20 => "SHA3".to_owned(),
        0x30 => "ADDRESS".to_owned(),
        0x31 => "BALANCE".to_owned(),
        0x32 => "ORIGIN".to_owned(),
        0x33 => "CALLER".to_owned(),
        0x34 => "CALLVALUE".to_owned(),
        0x35 => "CALLDATALOAD".to_owned(),
        0x36 => "CALLDATASIZE".to_owned(),
        0x37 => "CALLDATACOPY".to_owned(),
        0x38 => "CODESIZE".to_owned(),
        0x39 => "CODECOPY".to_owned(),
        0x3a => "GASPRICE".to_owned(),
        0x3b => "EXTCODESIZE".to_owned(),
        0x3c => "EXTCODECOPY".to_owned(),
        0x3d => "RETURNDATASIZE".to_owned(),
        0x3e => "RETURNDATACOPY".to_owned(),
        0x3f => "EXTCODEHASH".to_owned(),
        0x40 => "BLOCKHASH".to_owned(),
        0x41 => "COINBASE".to_owned(),
        0x42 => "TIMESTAMP".to_owned(),
        0x43 => "NUMBER".to_owned(),
        0x44 => "DIFFICULTY".to_owned(),
        0x45 => "GASLIMIT".to_owned(),
        0x46 => "CHAINID".to_owned(),
        0x47 => "SELFBALANCE".to_owned(),
        0x48 => "BASEFEE".to_owned(),
        0x50 => "POP".to_owned(),
        0x51 => "MLOAD".to_owned(),
        0x52 => "MSTORE".to_owned(),
        0x53 => "MSTORE8".to_owned(),
        0x54 => "SLOAD".to_owned(),
        0x55 => "SSTORE".to_owned(),
        0x56 => "JUMP".to_owned(),
        0x57 => "JUMPI".to_owned(),
        0x58 => "PC".to_owned(),
        0x59 => "MSIZE".to_owned(),
        0x5a => "GAS".to_owned(),
        0x5b => "JUMPDEST".to_owned(),
        0xef => "EOFMAGIC".to_owned(),
        0xf0 => "CREATE".to_owned(),
        0xf1 => "CALL".to_owned(),
        0xf2 => "CALLCODE".to_owned(),
        0xf3 => "RETURN".to_owned(),
        0xf4 => "DELEGATECALL".to_owned(),
        0xf5 => "CREATE2".to_owned(),
        0xfa => "STATICCALL".to_owned(),
        0xfd => "REVERT".to_owned(),
        0xfe => "INVALID".to_owned(),
        0xff => "SUICIDE".to_owned(),
        _ => {
            let mut r = "<UNKNOWN 0x".to_owned();
            r.append(hex_byte_text(opcode).as_str());
            r.append(">");
            r
        },
    }
}

/// Describes an instruction by `name` and its top `count` operands.
pub fn display_opcode_with_stack(name: &str, stack: &Stack, count: usize) -> (r: String)
    ensures
        r@ == with_operands(name@, stack_items(*stack), count as nat),
{
    let ghost items = stack_items(*stack);
    let mut texts: Vec<String> = Vec::new();
    assert(lines(texts@) =~= operand_texts(items, 0));
    let mut i: usize = 0;
    while i < count
        invariant
            i <= count,
            i <= items.len(),
            items == stack_items(*stack),
            lines(texts@) == operand_texts(items, i as nat),
        decreases count - i,
    {
        match peek(stack, i) {
            Some(word) => {
                let ghost before = texts@;
                let text = trim_leading_zeros(word_hex(&word).as_str());
                texts.push(text);
                assert(lines(texts@) =~= lines(before).push(text@));
                assert(lines(texts@) =~= operand_texts(items, (i + 1) as nat));
            },
            None => {
                let mut r = name.to_owned();
                r.append(" ");
                r.append(join(&texts, " ").as_str());
                r.append(" <INVALID STACK AT ");
                r.append(decimal_text(i as u64).as_str());
                r.append(">");
                return r;
            },
        }
        i = i + 1;
    }
    let mut r = name.to_owned();
    r.append(" ");
    r.append(join(&texts, " ").as_str());
    r
}

/// Describes the instruction that is about to run.
pub fn display_opcode_input(opcode: u8, stack: &Stack) -> (r: String)
    ensures
        r@ == input_text(opcode, stack_items(*stack)),
{
    match opcode {
        0x10 => display_opcode_with_stack("LT", stack, 2),
        0x11 => display_opcode_with_stack("GT", stack, 2),
        0x12 => display_opcode_with_stack("SLT", stack, 2),
        0x13 => display_opcode_with_stack("SGT", stack, 2),
        0x14 => display_opcode_with_stack("EQ", stack, 2),
        0x35 => display_opcode_with_stack("CALLDATALOAD", stack, 1),
        0x56 => display_opcode_with_stack("JUMP", stack, 1),
        0x57 => display_opcode_with_stack("JUMPI", stack, 2),
        _ => opcode_to_string(opcode),
    }
}

/// Describes the instruction that has just run, for the ones whose result is worth a line.
pub fn display_opcode_output(opcode: u8, stack: &Stack) -> (r: Option<String>)
    ensures
        match r {
            Some(text) => output_text(opcode, stack_items(*stack)) == Some(text@),
            None => output_text(opcode, stack_items(*stack)) is None,
        },
{
    match opcode {
        0x35 => Some(display_opcode_with_stack("CALLDATALOAD", stack, 1)),
        0x36 => Some(display_opcode_with_stack("CALLDATASIZE", stack, 1)),
        _ => None,
    }
}

/// Whether an opcode has a mnemonic of its own, neither numbered nor in hexadecimal.
pub open spec fn has_own_name(opcode: u8) -> bool {
    ||| opcode <= 0x0b
    ||| 0x10 <= opcode <= 0x1d
    ||| opcode == 0x20
    ||| 0x30 <= opcode <= 0x48
    ||| 0x50 <= opcode <= 0x5b
    ||| 0xef <= opcode <= 0xf5
    ||| opcode == 0xfa
    ||| 0xfd <= opcode
}

/// Mnemonics of their own are different, and none starts like a numbered one or like one in
/// hexadecimal.
#[verifier::spinoff_prover]
proof fn lemma_own_names(a: u8, b: u8)
    requires
        has_own_name(a),
        has_own_name(b),
    ensures
        opcode_name(a) == opcode_name(b) ==> a == b,
        opcode_name(a).len() >= 2,
        opcode_name(a)[0] != '<',
        opcode_name(a)[0] == 'P' ==> opcode_name(a)[1] != 'U',
        opcode_name(a)[0] == 'D' ==> opcode_name(a)[1] != 'U',
        opcode_name(a)[0] == 'S' ==> opcode_name(a)[1] != 'W',
        opcode_name(a)[0] == 'L' ==> opcode_name(a)[1] != 'O',
{
    reveal_strlit("STOP");
    reveal_strlit("ADD");
    reveal_strlit("MUL");
    reveal_strlit("SUB");
    reveal_strlit("DIV");
    reveal_strlit("SDIV");
    reveal_strlit("MOD");
    reveal_strlit("SMOD");
    reveal_strlit("ADDMOD");
    reveal_strlit("MULMOD");
    reveal_strlit("EXP");
    reveal_strlit("SIGNEXTEND");
    reveal_strlit("LT");
    reveal_strlit("GT");
    reveal_strlit("SLT");
    reveal_strlit("SGT");
    reveal_strlit("EQ");
    reveal_strlit("ISZERO");
    reveal_strlit("AND");
    reveal_strlit("OR");
    reveal_strlit("XOR");
    reveal_strlit("NOT");
    reveal_strlit("BYTE");
    reveal_strlit("SHL");
    reveal_strlit("SHR");
    reveal_strlit("SAR");
    reveal_strlit("SHA3");
    reveal_strlit("ADDRESS");
    reveal_strlit("BALANCE");
    reveal_strlit("ORIGIN");
    reveal_strlit("CALLER");
    reveal_strlit("CALLVALUE");
    reveal_strlit("CALLDATALOAD");
    reveal_strlit("CALLDATASIZE");
    reveal_strlit("CALLDATACOPY");
    reveal_strlit("CODESIZE");
    reveal_strlit("CODECOPY");
    reveal_strlit("GASPRICE");
    reveal_strlit("EXTCODESIZE");
    reveal_strlit("EXTCODECOPY");
    reveal_strlit("RETURNDATASIZE");
    reveal_strlit("RETURNDATACOPY");
    reveal_strlit("EXTCODEHASH");
    reveal_strlit("BLOCKHASH");
    reveal_strlit("COINBASE");
    reveal_strlit("TIMESTAMP");
    reveal_strlit("NUMBER");
    reveal_strlit("DIFFICULTY");
    reveal_strlit("GASLIMIT");
    reveal_strlit("CHAINID");
    reveal_strlit("SELFBALANCE");
    reveal_strlit("BASEFEE");
    reveal_strlit("POP");
    reveal_strlit("MLOAD");
    reveal_strlit("MSTORE");
    reveal_strlit("MSTORE8");
    reveal_strlit("SLOAD");
    reveal_strlit("SSTORE");
    reveal_strlit("JUMP");
    reveal_strlit("JUMPI");
    reveal_strlit("PC");
    reveal_strlit("MSIZE");
    reveal_strlit("GAS");
    reveal_strlit("JUMPDEST");
    reveal_strlit("EOFMAGIC");
    reveal_strlit("CREATE");
    reveal_strlit("CALL");
    reveal_strlit("CALLCODE");
    reveal_strlit("RETURN");
    reveal_strlit("DELEGATECALL");
    reveal_strlit("CREATE2");
    reveal_strlit("STATICCALL");
    reveal_strlit("REVERT");
    reveal_strlit("INVALID");
    reveal_strlit("SUICIDE");
    let x = opcode_name(a);
    let y = opcode_name(b);
    if x == y {
        assert(x.len() == y.len());
        assert(x[0] == y[0] && x[1] == y[1] && x[2] == y[2] && x[3] == y[3]);
        assert(x[4] == y[4] && x[5] == y[5] && x[6] == y[6] && x[7] == y[7]);
        assert(x[8] == y[8] && x[9] == y[9] && x[10] == y[10]);
        assert(a == b);
    }
}

/// How the other mnemonics start, and what number they hold.
proof fn lemma_other_name(opcode: u8)
    requires
        !has_own_name(opcode),
    ensures
        opcode_name(opcode).len() >= 2,
        ({
            let name = opcode_name(opcode);
            if 0x5f <= opcode <= 0x7f {
                &&& name[0] == 'P' && name[1] == 'U'
                &&& name.skip(4) == decimal((opcode - 0x5f) as nat)
            } else if 0x80 <= opcode <= 0x8f {
                &&& name[0] == 'D' && name[1] == 'U'
                &&& name.skip(3) == decimal((opcode - 0x7f) as nat)
            } else if 0x90 <= opcode <= 0x9f {
                &&& name[0] == 'S' && name[1] == 'W'
                &&& name.skip(4) == decimal((opcode - 0x8f) as nat)
            } else if 0xa0 <= opcode <= 0xa4 {
                &&& name[0] == 'L' && name[1] == 'O'
                &&& name.skip(3) == decimal((opcode - 0xa0) as nat)
            } else {
                &&& name[0] == '<'
                &&& name.skip(11).drop_last() == hex_byte(opcode)
            }
        }),
{
    reveal_strlit("PUSH");
    reveal_strlit("DUP");
    reveal_strlit("SWAP");
    reveal_strlit("LOG");
    reveal_strlit("<UNKNOWN 0x");
    reveal_strlit(">");
    let name = opcode_name(opcode);
    if 0x5f <= opcode <= 0x7f {
        assert(name.skip(4) =~= decimal((opcode - 0x5f) as nat));
    } else if 0x80 <= opcode <= 0x8f {
        assert(name.skip(3) =~= decimal((opcode - 0x7f) as nat));
    } else if 0x90 <= opcode <= 0x9f {
        assert(name.skip(4) =~= decimal((opcode - 0x8f) as nat));
    } else if 0xa0 <= opcode <= 0xa4 {
        assert(name.skip(3) =~= decimal((opcode - 0xa0) as nat));
    } else {
        assert(name == "<UNKNOWN 0x"@ + hex_byte(opcode) + ">"@);
        assert(name.skip(11).drop_last() =~= hex_byte(opcode));
    }
}

/// Different opcodes have different names.
pub proof fn law_opcode_names_distinct(a: u8, b: u8)
    requires
        opcode_name(a) == opcode_name(b),
    ensures
        a == b,
{
    if has_own_name(a) {
        if has_own_name(b) {
            lemma_own_names(a, b);
        } else {
            lemma_own_names(a, a);
            lemma_other_name(b);
        }
    } else {
        lemma_other_name(a);
        if has_own_name(b) {
            lemma_own_names(b, b);
        } else {
            lemma_other_name(b);
            if 0x5f <= a <= 0x7f {
                law_decimal_injective((a - 0x5f) as nat, (b - 0x5f) as nat);
            } else if 0x80 <= a <= 0x8f {
                law_decimal_injective((a - 0x7f) as nat, (b - 0x7f) as nat);
            } else if 0x90 <= a <= 0x9f {
                law_decimal_injective((a - 0x8f) as nat, (b - 0x8f) as nat);
            } else if 0xa0 <= a <= 0xa4 {
                law_decimal_injective((a - 0xa0) as nat, (b - 0xa0) as nat);
            } else {
                law_hex_byte_injective(a, b);
            }
        }
    }
}

} // verus!
