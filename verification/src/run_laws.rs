//! What a run of contract code does, told by what the machine reports of each instruction.

use crate::evm::{
    initial_state, instruction_len, jump_destinations, machine_step, next_opcode, returned,
    starts_at, MachineState, StepView,
};
use crate::execution::{
    advance_lines, advanced, after_step, after_trap, count_set, error_text, execution, lines_after,
    lines_before, opening_line, outcome, progress, run, stepped, Advance, ErrorView,
    ExecutionError, Outcome, Progress, Run,
};
use crate::opcode::{input_text, opcode_name, output_text};
use crate::text::{decimal, hex};
use vstd::prelude::*;

verus! {

/// Storage slots by key.
pub type Slots = Map<Seq<u8>, Seq<u8>>;

/// Whether `next` is `state` with only the stack changed, to `below` with `top` on it.
pub open spec fn with_top(
    next: MachineState,
    state: MachineState,
    below: Seq<Seq<u8>>,
    top: Seq<u8>,
) -> bool {
    &&& next.stack.len() == below.len() + 1
    &&& next.stack[below.len() as int] == top
    &&& forall|i: int| 0 <= i < below.len() ==> #[trigger] next.stack[i] == below[i]
    &&& next.code == state.code
    &&& next.data == state.data
    &&& next.position == state.position
    &&& next.stack_limit == state.stack_limit
    &&& next.memory == state.memory
    &&& next.memory_size == state.memory_size
    &&& next.memory_limit == state.memory_limit
    &&& next.return_start == state.return_start
    &&& next.return_len == state.return_len
}

/// The value of the call is a word of 32 zero bytes, put on the stack if there is room.
pub proof fn law_callvalue(state: MachineState, storage: Slots)
    ensures
        state.stack.len() >= state.stack_limit ==> after_trap(0x34, state, storage) is Stuck,
        state.stack.len() < state.stack_limit ==> (after_trap(
            0x34,
            state,
            storage,
        ) matches Progress::Running(next) && next.stack.len() > 0 && next.stack.last().len() == 32
            && (forall|i: int| 0 <= i < 32 ==> #[trigger] next.stack.last()[i] == 0) && with_top(
            next,
            state,
            state.stack,
            next.stack.last(),
        )),
{
}

/// A read of a slot puts the word in the slot in place of the key. It ends the run if the slot was
/// not written, and gets it stuck if there is no key or the slot holds no word.
pub proof fn law_sload(state: MachineState, storage: Slots)
    ensures
        state.stack.len() == 0 ==> after_trap(0x54, state, storage) is Stuck,
        state.stack.len() > 0 ==> {
            let key = state.stack[state.stack.len() - 1];
            let below = state.stack.take(state.stack.len() - 1);
            let progress = after_trap(0x54, state, storage);
            &&& !storage.contains_key(key) ==> progress == Progress::Finished(
                Err(ErrorView::UnknownStorageKey(key)),
            )
            &&& storage.contains_key(key) && (storage[key].len() != 32 || below.len()
                >= state.stack_limit) ==> progress is Stuck
            &&& storage.contains_key(key) && storage[key].len() == 32 && below.len()
                < state.stack_limit ==> (progress matches Progress::Running(next) && with_top(
                next,
                state,
                below,
                storage[key],
            ))
        },
{
    if state.stack.len() > 0 {
        assert(state.stack.take(state.stack.len() - 1) =~= state.stack.drop_last());
    }
}

/// Every other instruction that is left to the embedder ends the run, with its opcode.
pub proof fn law_other_traps(opcode: u8, state: MachineState, storage: Slots)
    requires
        opcode != 0x34,
        opcode != 0x54,
    ensures
        after_trap(opcode, state, storage) == Progress::Finished(
            Err(ErrorView::UnhandledTrap(opcode)),
        ),
{
}

/// A run goes on or ends as the machine reports of its next instruction. What the code returns are
/// the bytes of memory from the start that it named, with zeros for those never written.
pub proof fn law_advanced(state: MachineState, storage: Slots)
    ensures
        ({
            let (next, reported) = machine_step(usize::BITS, state);
            let progress = advanced(state, storage);
            match reported {
                StepView::Continue => progress == Progress::Running(next),
                StepView::Stopped | StepView::Suicided => progress == Progress::Finished(
                    Ok(Seq::<u8>::empty()),
                ),
                StepView::Returned => if next.return_len <= isize::MAX {
                    progress matches Progress::Finished(Ok(bytes)) && bytes.len()
                        == next.return_len && forall|i: int|
                        0 <= i < bytes.len() ==> #[trigger] bytes[i] == (if next.return_start + i
                            < next.memory.len() {
                            next.memory[next.return_start + i]
                        } else {
                            0
                        })
                } else {
                    progress is Stuck
                },
                StepView::Failed(reason) => progress == Progress::Finished(
                    Err(ErrorView::Exit(reason)),
                ),
                StepView::Trap(opcode) => progress == after_trap(opcode, next, storage),
            }
        }),
        after_step(
            machine_step(usize::BITS, state).1,
            machine_step(usize::BITS, state).0,
            storage,
        ) == advanced(state, storage),
{
}

/// The instruction at the machine's position is announced, unless there is none.
pub proof fn law_lines_before(state: MachineState)
    ensures
        state.position matches Some(at) && at < state.code.len() ==> {
            &&& next_opcode(state) == Some(state.code[state.position->0 as int])
            &&& lines_before(state) == seq![
                "Machine active opcode is "@ + input_text(
                    state.code[state.position->0 as int],
                    state.stack,
                ),
            ]
        },
        !(state.position matches Some(at) && at < state.code.len()) ==> next_opcode(state) is None
            && lines_before(state) == Seq::<Seq<char>>::empty(),
{
}

/// What came of an instruction is told by one line or none.
pub proof fn law_lines_after(active: Option<u8>, state: MachineState, text: Seq<char>, trap: u8)
    ensures
        lines_after(active, StepView::Stopped, state) == seq!["EVM stopped gracefully"@],
        lines_after(active, StepView::Suicided, state) == seq!["EVM suicided gracefully"@],
        lines_after(active, StepView::Returned, state) == seq![
            "EVM returned gracefully "@ + hex(returned(state)),
        ],
        lines_after(active, StepView::Failed(text), state) == Seq::<Seq<char>>::empty(),
        lines_after(active, StepView::Trap(trap), state) == Seq::<Seq<char>>::empty(),
        active matches Some(opcode) ==> (output_text(opcode, state.stack) matches Some(output)
            ==> lines_after(active, StepView::Continue, state) == seq![
            "Machine executed opcode "@ + output,
        ]),
        active matches Some(opcode) ==> (output_text(opcode, state.stack) is None ==> lines_after(
            active,
            StepView::Continue,
            state,
        ) == Seq::<Seq<char>>::empty()),
        active is None ==> lines_after(active, StepView::Continue, state) == Seq::<
            Seq<char>,
        >::empty(),
{
}

/// An instruction is told of before and after it runs.
pub proof fn law_advance_lines(state: MachineState)
    ensures
        advance_lines(state) == lines_before(state) + lines_after(
            next_opcode(state),
            machine_step(usize::BITS, state).1,
            machine_step(usize::BITS, state).0,
        ),
        stepped(state) == machine_step(usize::BITS, state),
{
}

/// The return value is made of the bytes of memory from its start on, as many as its length says.
pub proof fn law_returned(state: MachineState)
    ensures
        returned(state).len() == state.return_len,
        forall|i: int|
            0 <= i < state.return_len ==> #[trigger] returned(state)[i] == (if state.return_start
                + i < state.memory.len() {
                state.memory[state.return_start + i]
            } else {
                0
            }),
{
}

/// Whether a run goes through `states` one after the other.
pub open spec fn path(states: Seq<MachineState>, storage: Slots) -> bool {
    &&& states.len() > 0
    &&& forall|i: int|
        0 <= i < states.len() - 1 ==> #[trigger] advanced(states[i], storage) == Progress::Running(
            states[i + 1],
        )
}

/// What is logged along a path.
pub open spec fn path_lines(states: Seq<MachineState>) -> Seq<Seq<char>> {
    Seq::new(states.len(), |i: int| advance_lines(states[i])).flatten()
}

/// The rest of a path is a path.
proof fn lemma_path_rest(states: Seq<MachineState>, storage: Slots)
    requires
        path(states, storage),
        states.len() > 1,
    ensures
        path(states.drop_first(), storage),
        advanced(states[0], storage) == Progress::Running(states.drop_first()[0]),
        path_lines(states) == advance_lines(states[0]) + path_lines(states.drop_first()),
{
    let rest = states.drop_first();
    assert forall|i: int| 0 <= i < rest.len() - 1 implies #[trigger] advanced(rest[i], storage)
        == Progress::Running(rest[i + 1]) by {
        assert(rest[i] == states[i + 1]);
        assert(advanced(states[i + 1], storage) == Progress::Running(states[i + 2]));
    }
    let all = Seq::new(states.len(), |i: int| advance_lines(states[i]));
    assert(all.drop_first() =~= Seq::new(rest.len(), |i: int| advance_lines(rest[i])));
}

/// A run that comes to its end along a path has that end, and logs what there is to log along the
/// path, one instruction after the other. It takes as many instructions as the path has states.
pub proof fn law_run_to_end(
    states: Seq<MachineState>,
    storage: Slots,
    end: Outcome,
    limit: nat,
)
    requires
        path(states, storage),
        advanced(states[states.len() - 1], storage) == Progress::Finished(end),
        limit >= states.len(),
    ensures
        run(states[0], storage, limit) == Some((Run { outcome: end, log: path_lines(states) })),
    decreases states.len(),
{
    if states.len() == 1 {
        let all = Seq::new(states.len(), |i: int| advance_lines(states[i]));
        assert(all.drop_first() =~= seq![]);
        assert(all.drop_first().flatten() =~= seq![]);
        assert(path_lines(states) =~= advance_lines(states[0]));
    } else {
        lemma_path_rest(states, storage);
        law_run_to_end(states.drop_first(), storage, end, (limit - 1) as nat);
    }
}

/// A run that has only gone on for the given number of instructions has no end within them.
pub proof fn law_run_cut_off(states: Seq<MachineState>, storage: Slots, limit: nat)
    requires
        path(states, storage),
        limit < states.len(),
    ensures
        run(states[0], storage, limit) is None,
    decreases states.len(),
{
    if limit > 0 {
        lemma_path_rest(states, storage);
        law_run_cut_off(states.drop_first(), storage, (limit - 1) as nat);
    }
}

/// A run that gets stuck has no end.
pub proof fn law_run_stuck(states: Seq<MachineState>, storage: Slots, limit: nat)
    requires
        path(states, storage),
        advanced(states[states.len() - 1], storage) is Stuck,
    ensures
        run(states[0], storage, limit) is None,
    decreases states.len(),
{
    if limit > 0 && states.len() > 1 {
        lemma_path_rest(states, storage);
        law_run_stuck(states.drop_first(), storage, (limit - 1) as nat);
    }
}

/// A call starts at the first byte of the code, with an empty stack and an empty memory, room for
/// 1024 operands and for 1024 bytes. Its log is a line on the contract and then that of the run.
pub proof fn law_execution(
    address: Seq<u8>,
    code: Seq<u8>,
    data: Seq<u8>,
    storage: Slots,
    limit: nat,
)
    ensures
        ({
            let start = MachineState {
                code,
                data,
                position: Some(0),
                stack: seq![],
                stack_limit: 1024,
                memory: seq![],
                memory_size: 0,
                memory_limit: 1024,
                return_start: 0,
                return_len: 0,
            };
            let called = execution(address, code, data, storage, limit);
            match run(start, storage, limit) {
                Some(whole) => called matches Some(r) && r.outcome == whole.outcome && r.log.len()
                    == whole.log.len() + 1 && r.log[0] == "Trying contract: "@ + hex(address)
                    + " with "@ + decimal(jump_destinations(code).filter(|b: bool| b).len())
                    + " valid jump destinations (code len "@ + decimal(code.len()) + "))"@
                    && r.log.skip(1) == whole.log,
                None => called is None,
            }
        }),
{
    let start = MachineState {
        code,
        data,
        position: Some(0),
        stack: seq![],
        stack_limit: 1024,
        memory: seq![],
        memory_size: 0,
        memory_limit: 1024,
        return_start: 0,
        return_len: 0,
    };
    assert(start == initial_state(code, data, 1024, 1024));
    lemma_count(jump_destinations(code));
    match run(start, storage, limit) {
        Some(whole) => {
            let log = seq![opening_line(address, code)] + whole.log;
            assert(log.skip(1) =~= whole.log);
        },
        None => {},
    }
}

/// Counting set flags is counting what is left when the others are taken out.
proof fn lemma_count(flags: Seq<bool>)
    ensures
        count_set(flags) == flags.filter(|b: bool| b).len(),
    decreases flags.len(),
{
    reveal(Seq::filter);
    if flags.len() > 0 {
        lemma_count(flags.drop_last());
    }
}

/// Only a jump-destination marker is a jump destination.
pub proof fn law_jump_destinations(code: Seq<u8>)
    ensures
        jump_destinations(code).len() == code.len(),
        forall|at: int|
            0 <= at < code.len() && #[trigger] jump_destinations(code)[at] ==> code[at] == 0x5b,
{
}

/// Nothing inside the operand of a push is a jump destination, and a marker right behind it is one.
pub proof fn law_operands_are_no_destinations(code: Seq<u8>, push: int, at: int)
    requires
        0 <= push < code.len(),
        0x60 <= code[push] <= 0x7f,
        starts_at(code, 0, push),
        push < at < code.len(),
        at <= push + (code[push] - 0x5f) + 1,
    ensures
        at <= push + (code[push] - 0x5f) ==> !jump_destinations(code)[at],
        at == push + (code[push] - 0x5f) + 1 && code[at] == 0x5b ==> jump_destinations(code)[at],
{
    if at <= push + (code[push] - 0x5f) {
        lemma_inside(code, 0, push, at);
    } else {
        lemma_behind(code, 0, push);
    }
}

/// Nothing starts inside an instruction.
proof fn lemma_inside(code: Seq<u8>, from: int, start: int, at: int)
    requires
        0 <= from <= start < code.len(),
        starts_at(code, from, start),
        start < at < start + instruction_len(code[start]),
    ensures
        !starts_at(code, from, at),
    decreases start - from,
{
    if from < start {
        let next = from + instruction_len(code[from]);
        assert(starts_at(code, next, start));
        assert(next <= start);
        lemma_inside(code, next, start, at);
    } else {
        assert(!starts_at(code, start + instruction_len(code[start]), at));
    }
}

/// An instruction starts right behind another.
proof fn lemma_behind(code: Seq<u8>, from: int, start: int)
    requires
        0 <= from <= start < code.len(),
        starts_at(code, from, start),
    ensures
        starts_at(code, from, start + instruction_len(code[start])),
    decreases start - from,
{
    let behind = start + instruction_len(code[start]);
    if from < start {
        let next = from + instruction_len(code[from]);
        assert(starts_at(code, next, start));
        assert(next <= start);
        lemma_behind(code, next, start);
    } else {
        assert(starts_at(code, behind, behind));
    }
}

/// An error says what stopped the run.
pub proof fn law_error_text(reason: Seq<char>, key: Seq<u8>, opcode: u8)
    ensures
        error_text(ErrorView::Exit(reason)) == "Capture exit: "@ + reason,
        error_text(ErrorView::UnknownStorageKey(key)) == "SLOAD unknown storage key "@ + hex(key),
        error_text(ErrorView::UnhandledTrap(opcode)) == "Capture trap unhandled: \""@
            + opcode_name(opcode) + "\""@,
{
}

/// A result stands for the bytes or the error that it holds.
pub proof fn law_outcome(bytes: Vec<u8>, reason: String, key: [u8; 32], opcode: u8)
    ensures
        outcome(Ok(bytes)) == Ok::<Seq<u8>, ErrorView>(bytes@),
        outcome(Err(ExecutionError::Exit(reason))) == Err::<Seq<u8>, ErrorView>(
            ErrorView::Exit(reason@),
        ),
        outcome(Err(ExecutionError::UnknownStorageKey(key))) == Err::<Seq<u8>, ErrorView>(
            ErrorView::UnknownStorageKey(key@),
        ),
        outcome(Err(ExecutionError::UnhandledTrap(opcode))) == Err::<Seq<u8>, ErrorView>(
            ErrorView::UnhandledTrap(opcode),
        ),
{
}

/// A step of a run stands for the progress that it made.
pub proof fn law_progress(state: MachineState, result: Result<Vec<u8>, ExecutionError>)
    ensures
        progress(Advance::Running, state) == Progress::Running(state),
        progress(Advance::Stuck, state) == Progress::Stuck,
        progress(Advance::Finished(result), state) == Progress::Finished(outcome(result)),
{
}

} // verus!
