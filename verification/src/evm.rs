//! The virtual machine that runs contract code, as the `evm-core` crate provides it.
//!
//! A machine is seen through [`machine_state`], the plain values that decide what it does next.
//! What one instruction does to them is `evm-core`'s own business and is only given a name here,
//! [`machine_step`].

use crate::text::{big_endian, hex};
use evm_core::{Capture, ExitReason, ExitSucceed, Machine, Stack, Valids};
use primitive_types::H256;
use std::rc::Rc;
use vstd::prelude::*;

verus! {

/// An interpreter for contract code.
#[verifier::external_type_specification]
#[verifier::external_body]
pub struct ExMachine(evm_core::Machine);

/// The operand stack of a machine.
#[verifier::external_type_specification]
#[verifier::external_body]
pub struct ExStack(evm_core::Stack);

/// The map of valid jump destinations of a piece of code.
#[verifier::external_type_specification]
#[verifier::external_body]
pub struct ExValids(evm_core::Valids);

/// What a machine holds.
pub struct MachineState {
    /// The code that it runs.
    pub code: Seq<u8>,
    /// The call data.
    pub data: Seq<u8>,
    /// The offset of the next instruction, until the machine exits.
    pub position: Option<nat>,
    /// The operands as 32-byte words, the top of the stack last.
    pub stack: Seq<Seq<u8>>,
    /// How many operands the stack takes.
    pub stack_limit: nat,
    /// The bytes of memory that were written or lie before one that was.
    pub memory: Seq<u8>,
    /// The size of memory that instructions see.
    pub memory_size: nat,
    /// How many bytes of memory can be written.
    pub memory_limit: nat,
    /// Where in memory the return value starts.
    pub return_start: nat,
    /// How many bytes the return value has.
    pub return_len: nat,
}

/// What came of one instruction.
pub enum StepOutcome {
    /// The machine can go on.
    Continue,
    /// The code came to its end or to a stop instruction.
    Stopped,
    /// The code returned a value.
    Returned,
    /// The contract destroyed itself.
    Suicided,
    /// The machine exited in any other way, described by the text.
    Failed(String),
    /// The instruction with this opcode is left to the embedder, and the machine can go on.
    Trap(u8),
}

/// [`StepOutcome`] with its text as a sequence of characters.
pub enum StepView {
    Continue,
    Stopped,
    Returned,
    Suicided,
    Failed(Seq<char>),
    Trap(u8),
}

impl View for StepOutcome {
    type V = StepView;

    open spec fn view(&self) -> StepView {
        match self {
            StepOutcome::Continue => StepView::Continue,
            StepOutcome::Stopped => StepView::Stopped,
            StepOutcome::Returned => StepView::Returned,
            StepOutcome::Suicided => StepView::Suicided,
            StepOutcome::Failed(text) => StepView::Failed(text@),
            StepOutcome::Trap(opcode) => StepView::Trap(*opcode),
        }
    }
}

/// What `m` holds.
pub uninterp spec fn machine_state(m: Machine) -> MachineState;

/// The operands on `s`, the top of the stack last.
pub uninterp spec fn stack_items(s: Stack) -> Seq<Seq<u8>>;

/// How many operands `s` takes.
pub uninterp spec fn stack_capacity(s: Stack) -> nat;

/// What running the next instruction of a machine in state `s` leaves and reports, on a platform
/// with pointers of `pointer_bits` bits.
pub uninterp spec fn machine_step(pointer_bits: u32, s: MachineState) -> (MachineState, StepView);

/// For each code offset, whether `v` takes it for a valid jump destination.
pub uninterp spec fn valid_offsets(v: Valids) -> Seq<bool>;

/// A machine that has not run yet.
pub open spec fn initial_state(
    code: Seq<u8>,
    data: Seq<u8>,
    stack_limit: nat,
    memory_limit: nat,
) -> MachineState {
    MachineState {
        code,
        data,
        position: Some(0),
        stack: seq![],
        stack_limit,
        memory: seq![],
        memory_size: 0,
        memory_limit,
        return_start: 0,
        return_len: 0,
    }
}

/// The opcode of the next instruction, if there is one.
pub open spec fn next_opcode(s: MachineState) -> Option<u8> {
    match s.position {
        Some(at) => if at < s.code.len() {
            Some(s.code[at as int])
        } else {
            None
        },
        None => None,
    }
}

/// The return value: the bytes of memory that were marked for it, zero where nothing was written.
pub open spec fn returned(s: MachineState) -> Seq<u8> {
    Seq::new(
        s.return_len,
        |i: int|
            if s.return_start + i < s.memory.len() {
                s.memory[s.return_start + i]
            } else {
                0
            },
    )
}

/// How many bytes the instruction with this opcode takes, its immediate operand counted.
pub open spec fn instruction_len(opcode: u8) -> int {
    if 0x60 <= opcode <= 0x7f {
        opcode - 0x60 + 2
    } else {
        1
    }
}

/// Whether an instruction starts at offset `at`, given that one starts at `from`.
pub open spec fn starts_at(code: Seq<u8>, from: int, at: int) -> bool
    decreases if from < at { at - from } else { 0 },
{
    from == at || (0 <= from < at && from < code.len() && starts_at(
        code,
        from + instruction_len(code[from]),
        at,
    ))
}

/// For each offset of `code`, whether a jump instruction may lead there: whether an instruction
/// starts there and is the jump-destination marker.
pub open spec fn jump_destinations(code: Seq<u8>) -> Seq<bool> {
    Seq::new(code.len(), |at: int| code[at] == 0x5b && starts_at(code, 0, at))
}

/// `Valids::new`: the valid jump destinations of `code` are the offsets of its
/// jump-destination markers that are not inside the immediate operand of a push.
#[verifier::external_body]
pub(crate) fn new_valids(code: &[u8]) -> (v: Valids)
    ensures
        valid_offsets(v) == jump_destinations(code@),
{
    Valids::new(code)
}

/// `Valids::len`: how many offsets the map covers.
#[verifier::external_body]
pub(crate) fn valids_len(valids: &Valids) -> (n: usize)
    ensures
        n == valid_offsets(*valids).len(),
{
    valids.len()
}

/// `Valids::is_valid`: what the map says of an offset, and `false` of an offset outside it.
#[verifier::external_body]
pub(crate) fn valids_is_valid(valids: &Valids, at: usize) -> (r: bool)
    ensures
        r == (at < valid_offsets(*valids).len() && valid_offsets(*valids)[at as int]),
{
    valids.is_valid(at)
}

/// `Machine::new`: a machine at the start of `code`, with an empty stack and an empty memory.
#[verifier::external_body]
pub(crate) fn new_machine(
    code: Rc<Vec<u8>>,
    data: Rc<Vec<u8>>,
    stack_limit: usize,
    memory_limit: usize,
) -> (m: Machine)
    ensures
        machine_state(m) == initial_state(code@, data@, stack_limit as nat, memory_limit as nat),
{
    Machine::new(code, data, stack_limit, memory_limit)
}

/// `Machine::inspect`: the next opcode and the stack, unless the machine has exited or run off
/// the end of its code.
#[verifier::external_body]
pub(crate) fn inspect(machine: &Machine) -> (r: Option<(u8, &Stack)>)
    ensures
        r is Some == next_opcode(machine_state(*machine)) is Some,
        r matches Some((opcode, stack)) ==> {
            &&& next_opcode(machine_state(*machine)) == Some(opcode)
            &&& stack_items(*stack) == machine_state(*machine).stack
            &&& stack_capacity(*stack) == machine_state(*machine).stack_limit
        },
{
    machine.inspect().map(|(opcode, stack)| (opcode.0, stack))
}

/// `Machine::step`: runs the next instruction. What it leaves and reports follows from the
/// machine's state and the platform's pointer width alone. A machine that reports `Continue` or a
/// trap has not exited, and only one that has not exited is stepped. The return instruction takes
/// the start and the length of the return value from the top of the stack.
///
/// The text of `Failed` is the exit reason as its `Debug` implementation writes it.
#[verifier::external_body]
pub(crate) fn step(machine: &mut Machine) -> (r: StepOutcome)
    requires
        machine_state(*old(machine)).position is Some,
    ensures
        (machine_state(*final(machine)), r@) == machine_step(
            usize::BITS,
            machine_state(*old(machine)),
        ),
        r is Continue || r is Trap ==> machine_state(*final(machine)).position is Some,
        r is Returned ==> {
            let stack = machine_state(*old(machine)).stack;
            stack.len() >= 2 && machine_state(*final(machine)).return_len == big_endian(
                stack[stack.len() - 2],
            )
        },
{
    match machine.step() {
        Ok(()) => StepOutcome::Continue,
        Err(Capture::Exit(ExitReason::Succeed(ExitSucceed::Stopped))) => StepOutcome::Stopped,
        Err(Capture::Exit(ExitReason::Succeed(ExitSucceed::Returned))) => StepOutcome::Returned,
        Err(Capture::Exit(ExitReason::Succeed(ExitSucceed::Suicided))) => StepOutcome::Suicided,
        Err(Capture::Exit(reason)) => StepOutcome::Failed(format!("{:?}", reason)),
        Err(Capture::Trap(opcode)) => StepOutcome::Trap(opcode.0),
    }
}

/// `Machine::return_value`: the bytes of memory that were marked as the return value, with zeros
/// for those never written. It panics for a length that no byte vector can have. That memory may
/// run out for a shorter one is not said.
#[verifier::external_body]
pub(crate) fn return_value(machine: &Machine) -> (r: Vec<u8>)
    requires
        machine_state(*machine).return_len <= isize::MAX,
    ensures
        r@ == returned(machine_state(*machine)),
{
    machine.return_value()
}

/// `Machine::stack`: the operand stack.
#[verifier::external_body]
pub(crate) fn stack(machine: &Machine) -> (r: &Stack)
    ensures
        stack_items(*r) == machine_state(*machine).stack,
        stack_capacity(*r) == machine_state(*machine).stack_limit,
{
    machine.stack()
}

/// `Machine::stack_mut`: the operand stack, to be changed in place.
#[verifier::external_body]
pub(crate) fn stack_mut(machine: &mut Machine) -> (r: &mut Stack)
    ensures
        stack_items(*r) == machine_state(*old(machine)).stack,
        stack_capacity(*r) == machine_state(*old(machine)).stack_limit,
        machine_state(*final(machine)) == (MachineState {
            stack: stack_items(*final(r)),
            stack_limit: stack_capacity(*final(r)),
            ..machine_state(*old(machine))
        }),
{
    machine.stack_mut()
}

/// `Stack::peek`: the operand at `depth` below the top, if the stack is that deep.
#[verifier::external_body]
pub(crate) fn peek(stack: &Stack, depth: usize) -> (r: Option<[u8; 32]>)
    ensures
        r is Some == (depth < stack_items(*stack).len()),
        r matches Some(word) ==> word@ == stack_items(*stack)[stack_items(*stack).len() - 1
            - depth],
{
    stack.peek(depth).ok().map(|word| word.0)
}

/// `Stack::pop`: takes the top operand off. An empty stack stays as it is.
#[verifier::external_body]
pub(crate) fn pop(stack: &mut Stack) -> (r: Option<[u8; 32]>)
    ensures
        r is Some == (stack_items(*old(stack)).len() > 0),
        r matches Some(word) ==> {
            &&& word@ == stack_items(*old(stack)).last()
            &&& stack_items(*final(stack)) == stack_items(*old(stack)).drop_last()
        },
        r is None ==> stack_items(*final(stack)) == stack_items(*old(stack)),
        stack_capacity(*final(stack)) == stack_capacity(*old(stack)),
{
    stack.pop().ok().map(|word| word.0)
}

/// `Stack::push`: puts an operand on top, and says whether there was room. A full stack stays as
/// it is.
#[verifier::external_body]
pub(crate) fn push(stack: &mut Stack, word: [u8; 32]) -> (r: bool)
    ensures
        r == (stack_items(*old(stack)).len() < stack_capacity(*old(stack))),
        stack_items(*final(stack)) == (if r {
            stack_items(*old(stack)).push(word@)
        } else {
            stack_items(*old(stack))
        }),
        stack_capacity(*final(stack)) == stack_capacity(*old(stack)),
{
    stack.push(H256(word)).is_ok()
}

/// `H256::from_slice`: the bytes as a word. It panics for any length but 32.
#[verifier::external_body]
pub(crate) fn word_from_slice(bytes: &[u8]) -> (r: [u8; 32])
    requires
        bytes@.len() == 32,
    ensures
        r@ == bytes@,
{
    H256::from_slice(bytes).0
}

/// The `LowerHex` form of `H256`: two lower-case digits for each byte.
#[verifier::external_body]
pub(crate) fn word_hex(word: &[u8; 32]) -> (r: String)
    ensures
        r@ == hex(word@),
{
    format!("{:x}", H256(*word))
}

} // verus!
