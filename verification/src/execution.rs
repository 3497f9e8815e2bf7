//! Running contract code against the storage that its constructor left.
//!
//! A run goes one instruction at a time. It can go on for ever, and it can come to a point where
//! nothing can be answered: [`run`] follows it for a number of instructions and has a value only
//! if it comes to a proper end within them.

use crate::evm::{
    initial_state, inspect, jump_destinations, machine_state, machine_step, new_machine,
    new_valids, next_opcode, peek, pop, push, return_value, returned, stack, stack_mut, step,
    valid_offsets, valids_is_valid, valids_len, word_from_slice, word_hex, MachineState,
    StepOutcome, StepView,
};
use crate::opcode::{
    display_opcode_input, display_opcode_output, input_text, opcode_name, opcode_to_string,
    output_text,
};
use crate::storage::Storage;
use crate::text::{
    big_endian, decimal, decimal_text, hex, hex_text, lines, log_line, read_big_endian,
};
use evm_core::Machine;
use std::rc::Rc;
use vstd::prelude::*;

verus! {

/// How many operands the stack of a run takes.
pub const STACK_LIMIT: usize = 1024;

/// How many bytes of memory a run can write.
pub const MEMORY_LIMIT: usize = 1024;

/// Why a run gave no value.
#[derive(Debug, PartialEq)]
pub enum ExecutionError {
    /// The machine exited, for the reason that the text gives.
    Exit(String),
    /// The code read a storage slot that was not written.
    UnknownStorageKey([u8; 32]),
    /// The code used an instruction that asks for something not at hand.
    UnhandledTrap(u8),
}

/// [`ExecutionError`] with its contents as sequences.
pub enum ErrorView {
    Exit(Seq<char>),
    UnknownStorageKey(Seq<u8>),
    UnhandledTrap(u8),
}

impl View for ExecutionError {
    type V = ErrorView;

    open spec fn view(&self) -> ErrorView {
        match self {
            ExecutionError::Exit(reason) => ErrorView::Exit(reason@),
            ExecutionError::UnknownStorageKey(key) => ErrorView::UnknownStorageKey(key@),
            ExecutionError::UnhandledTrap(opcode) => ErrorView::UnhandledTrap(*opcode),
        }
    }
}

/// What a run gives: the bytes that the code returned, or why there are none.
pub type Outcome = Result<Seq<u8>, ErrorView>;

/// The outcome that a result stands for.
pub open spec fn outcome(result: Result<Vec<u8>, ExecutionError>) -> Outcome {
    match result {
        Ok(bytes) => Ok(bytes@),
        Err(error) => Err(error@),
    }
}

/// What is said of an error.
pub open spec fn error_text(error: ErrorView) -> Seq<char> {
    match error {
        ErrorView::Exit(reason) => "Capture exit: "@ + reason,
        ErrorView::UnknownStorageKey(key) => "SLOAD unknown storage key "@ + hex(key),
        ErrorView::UnhandledTrap(opcode) => "Capture trap unhandled: \""@ + opcode_name(opcode)
            + "\""@,
    }
}

/// How far a run has come after an instruction.
pub enum Progress {
    /// It goes on from this state.
    Running(MachineState),
    /// It is over.
    Finished(Outcome),
    /// It cannot be carried on: an operand is missing, the stack has no room for an answer, or a
    /// value has an impossible size.
    Stuck,
}

/// The word that is zero.
pub open spec fn zero_word() -> Seq<u8> {
    Seq::new(32, |i: int| 0u8)
}

/// `state` with `word` on top of its stack, if there is room.
pub open spec fn answered(state: MachineState, word: Seq<u8>) -> Progress {
    if state.stack.len() < state.stack_limit {
        Progress::Running(MachineState { stack: state.stack.push(word), ..state })
    } else {
        Progress::Stuck
    }
}

/// How a run goes on after an instruction that is left to the embedder. The value of the call is
/// zero, storage slots hold what was written to them, and nothing else is known.
pub open spec fn after_trap(
    opcode: u8,
    state: MachineState,
    storage: Map<Seq<u8>, Seq<u8>>,
) -> Progress {
    if opcode == 0x34 {
        answered(state, zero_word())
    } else if opcode == 0x54 {
        if state.stack.len() == 0 {
            Progress::Stuck
        } else {
            let key = state.stack.last();
            if !storage.contains_key(key) {
                Progress::Finished(Err(ErrorView::UnknownStorageKey(key)))
            } else if storage[key].len() != 32 {
                Progress::Stuck
            } else {
                answered(
                    MachineState { stack: state.stack.drop_last(), ..state },
                    storage[key],
                )
            }
        }
    } else {
        Progress::Finished(Err(ErrorView::UnhandledTrap(opcode)))
    }
}

/// How a run goes on when an instruction has left the machine in `state` and reported `reported`.
pub open spec fn after_step(
    reported: StepView,
    state: MachineState,
    storage: Map<Seq<u8>, Seq<u8>>,
) -> Progress {
    match reported {
        StepView::Continue => Progress::Running(state),
        StepView::Stopped | StepView::Suicided => Progress::Finished(Ok(seq![])),
        StepView::Returned => if state.return_len <= isize::MAX {
            Progress::Finished(Ok(returned(state)))
        } else {
            Progress::Stuck
        },
        StepView::Failed(reason) => Progress::Finished(Err(ErrorView::Exit(reason))),
        StepView::Trap(opcode) => after_trap(opcode, state, storage),
    }
}

/// What is logged before an instruction.
pub open spec fn lines_before(state: MachineState) -> Seq<Seq<char>> {
    match next_opcode(state) {
        Some(opcode) => seq!["Machine active opcode is "@ + input_text(opcode, state.stack)],
        None => seq![],
    }
}

/// What is logged after the instruction `active` has left the machine in `state` and reported
/// `reported`.
pub open spec fn lines_after(
    active: Option<u8>,
    reported: StepView,
    state: MachineState,
) -> Seq<Seq<char>> {
    match reported {
        StepView::Continue => match active {
            Some(opcode) => match output_text(opcode, state.stack) {
                Some(text) => seq!["Machine executed opcode "@ + text],
                None => seq![],
            },
            None => seq![],
        },
        StepView::Stopped => seq!["EVM stopped gracefully"@],
        StepView::Suicided => seq!["EVM suicided gracefully"@],
        StepView::Returned => seq!["EVM returned gracefully "@ + hex(returned(state))],
        StepView::Failed(_) | StepView::Trap(_) => seq![],
    }
}

/// What running one instruction in `state` leaves and reports.
pub open spec fn stepped(state: MachineState) -> (MachineState, StepView) {
    machine_step(usize::BITS, state)
}

/// How a run in `state` goes on after one more instruction.
pub open spec fn advanced(state: MachineState, storage: Map<Seq<u8>, Seq<u8>>) -> Progress {
    after_step(stepped(state).1, stepped(state).0, storage)
}

/// What is logged of one more instruction.
pub open spec fn advance_lines(state: MachineState) -> Seq<Seq<char>> {
    lines_before(state) + lines_after(next_opcode(state), stepped(state).1, stepped(state).0)
}

/// What a run gives and logs.
pub struct Run {
    pub outcome: Outcome,
    pub log: Seq<Seq<char>>,
}

/// What a run from `state` gives and logs, if it comes to a proper end within `limit`
/// instructions.
pub open spec fn run(
    state: MachineState,
    storage: Map<Seq<u8>, Seq<u8>>,
    limit: nat,
) -> Option<Run>
    decreases limit,
{
    if limit == 0 {
        None
    } else {
        match advanced(state, storage) {
            Progress::Finished(outcome) => Some(Run { outcome, log: advance_lines(state) }),
            Progress::Stuck => None,
            Progress::Running(next) => match run(next, storage, (limit - 1) as nat) {
                Some(rest) => Some(
                    Run { outcome: rest.outcome, log: advance_lines(state) + rest.log },
                ),
                None => None,
            },
        }
    }
}

/// How many of `flags` are set.
pub open spec fn count_set(flags: Seq<bool>) -> nat
    decreases flags.len(),
{
    if flags.len() == 0 {
        0
    } else {
        count_set(flags.drop_last()) + if flags.last() {
            1nat
        } else {
            0nat
        }
    }
}

/// What is logged before a run.
pub open spec fn opening_line(address: Seq<u8>, code: Seq<u8>) -> Seq<char> {
    "Trying contract: "@ + hex(address) + " with "@ + decimal(count_set(jump_destinations(code)))
        + " valid jump destinations (code len "@ + decimal(code.len()) + "))"@
}

/// What calling the contract at `address` with `data` gives and logs, if the run comes to a
/// proper end within `limit` instructions.
pub open spec fn execution(
    address: Seq<u8>,
    code: Seq<u8>,
    data: Seq<u8>,
    storage: Map<Seq<u8>, Seq<u8>>,
    limit: nat,
) -> Option<Run> {
    match run(
        initial_state(code, data, STACK_LIMIT as nat, MEMORY_LIMIT as nat),
        storage,
        limit,
    ) {
        Some(r) => Some(
            Run { outcome: r.outcome, log: seq![opening_line(address, code)] + r.log },
        ),
        None => None,
    }
}

/// More instructions do not change what a run gives and logs.
pub proof fn law_run_stable(
    state: MachineState,
    storage: Map<Seq<u8>, Seq<u8>>,
    fewer: nat,
    more: nat,
)
    requires
        fewer <= more,
        run(state, storage, fewer) is Some,
    ensures
        run(state, storage, more) == run(state, storage, fewer),
    decreases fewer,
{
    match advanced(state, storage) {
        Progress::Running(next) => {
            law_run_stable(next, storage, (fewer - 1) as nat, (more - 1) as nat);
        },
        _ => {},
    }
}

/// What a call gives and logs does not depend on how long it is followed, once it has ended.
pub proof fn law_execution_stable(
    address: Seq<u8>,
    code: Seq<u8>,
    data: Seq<u8>,
    storage: Map<Seq<u8>, Seq<u8>>,
    fewer: nat,
    more: nat,
)
    requires
        fewer <= more,
        execution(address, code, data, storage, fewer) is Some,
    ensures
        execution(address, code, data, storage, more) == execution(
            address,
            code,
            data,
            storage,
            fewer,
        ),
{
    law_run_stable(
        initial_state(code, data, STACK_LIMIT as nat, MEMORY_LIMIT as nat),
        storage,
        fewer,
        more,
    );
}

impl ExecutionError {
    /// What is said of the error.
    pub fn message(&self) -> (r: String)
        ensures
            r@ == error_text(self@),
    {
        match self {
            ExecutionError::Exit(reason) => {
                let mut r = "Capture exit: ".to_owned();
                r.append(reason.as_str());
                r
            },
            ExecutionError::UnknownStorageKey(key) => {
                let mut r = "SLOAD unknown storage key ".to_owned();
                r.append(word_hex(key).as_str());
                r
            },
            ExecutionError::UnhandledTrap(opcode) => {
                let mut r = "Capture trap unhandled: \"".to_owned();
                r.append(opcode_to_string(*opcode).as_str());
                r.append("\"");
                r
            },
        }
    }
}

/// How far a run has come after an instruction.
pub enum Advance {
    /// It goes on.
    Running,
    /// It is over.
    Finished(Result<Vec<u8>, ExecutionError>),
    /// It cannot be carried on.
    Stuck,
}

/// The progress that `advance` stands for, of a run whose machine is in `state`.
pub open spec fn progress(advance: Advance, state: MachineState) -> Progress {
    match advance {
        Advance::Running => Progress::Running(state),
        Advance::Finished(result) => Progress::Finished(outcome(result)),
        Advance::Stuck => Progress::Stuck,
    }
}

/// Answers an instruction that is left to the embedder, or ends the run.
pub fn answer_trap(opcode: u8, machine: &mut Machine, storage: &Storage) -> (r: Advance)
    ensures
        progress(r, machine_state(*final(machine))) == after_trap(
            opcode,
            machine_state(*old(machine)),
            storage@,
        ),
{
    match opcode {
        0x34 => {
            let zero: [u8; 32] = [0u8; 32];
            assert(zero@ =~= zero_word());
            if push(stack_mut(machine), zero) {
                Advance::Running
            } else {
                Advance::Stuck
            }
        },
        0x54 => match pop(stack_mut(machine)) {
            Some(key) => match storage.get(&key) {
                Some(value) => {
                    if value.len() != 32 {
                        return Advance::Stuck;
                    }
                    if push(stack_mut(machine), word_from_slice(value.as_slice())) {
                        Advance::Running
                    } else {
                        Advance::Stuck
                    }
                },
                None => Advance::Finished(Err(ExecutionError::UnknownStorageKey(key))),
            },
            None => Advance::Stuck,
        },
        _ => Advance::Finished(Err(ExecutionError::UnhandledTrap(opcode))),
    }
}

/// Logs the instruction that is about to run, and tells its opcode.
fn log_before(machine: &Machine, log: &mut Vec<String>) -> (r: Option<u8>)
    ensures
        r == next_opcode(machine_state(*machine)),
        lines(final(log)@) == lines(old(log)@) + lines_before(machine_state(*machine)),
{
    match inspect(machine) {
        Some((opcode, operands)) => {
            let mut line = "Machine active opcode is ".to_owned();
            line.append(display_opcode_input(opcode, operands).as_str());
            log_line(log, line);
            assert(lines(log@) =~= lines(old(log)@) + lines_before(machine_state(*machine)));
            Some(opcode)
        },
        None => {
            assert(lines(log@) =~= lines(old(log)@) + lines_before(machine_state(*machine)));
            None
        },
    }
}

/// Logs an instruction that has run and lets the machine go on.
fn log_executed(active: Option<u8>, machine: &Machine, log: &mut Vec<String>)
    ensures
        lines(final(log)@) == lines(old(log)@) + lines_after(
            active,
            StepView::Continue,
            machine_state(*machine),
        ),
{
    let ghost expected = lines_after(active, StepView::Continue, machine_state(*machine));
    if let Some(opcode) = active {
        if let Some(text) = display_opcode_output(opcode, stack(machine)) {
            let mut line = "Machine executed opcode ".to_owned();
            line.append(text.as_str());
            log_line(log, line);
            assert(lines(log@) =~= lines(old(log)@) + expected);
            return;
        }
    }
    assert(lines(log@) =~= lines(old(log)@) + expected);
}

/// Goes on after the instruction `active` has reported `reported`. `length` is the operand below
/// the top of the stack that the instruction found: the size of the value that a return hands
/// back.
pub fn settle(
    active: Option<u8>,
    reported: StepOutcome,
    length: Option<[u8; 32]>,
    machine: &mut Machine,
    storage: &Storage,
    log: &mut Vec<String>,
) -> (r: Advance)
    requires
        reported is Returned ==> (length matches Some(word) && big_endian(word@) == machine_state(
            *old(machine),
        ).return_len),
    ensures
        progress(r, machine_state(*final(machine))) == after_step(
            reported@,
            machine_state(*old(machine)),
            storage@,
        ),
        !(r is Stuck) ==> lines(final(log)@) == lines(old(log)@) + lines_after(
            active,
            reported@,
            machine_state(*old(machine)),
        ),
{
    let ghost expected = lines(log@) + lines_after(active, reported@, machine_state(*machine));
    match reported {
        StepOutcome::Continue => {
            log_executed(active, machine, log);
            Advance::Running
        },
        StepOutcome::Stopped => {
            log_line(log, "EVM stopped gracefully".to_owned());
            assert(lines(log@) =~= expected);
            Advance::Finished(Ok(nothing()))
        },
        StepOutcome::Suicided => {
            log_line(log, "EVM suicided gracefully".to_owned());
            assert(lines(log@) =~= expected);
            Advance::Finished(Ok(nothing()))
        },
        StepOutcome::Returned => match length {
            Some(word) => {
                let limit: u64 = isize::MAX as u64;
                match read_big_endian(word.as_slice(), limit) {
                    Some(_) => {
                        let bytes = return_value(machine);
                        let mut line = "EVM returned gracefully ".to_owned();
                        line.append(hex_text(bytes.as_slice()).as_str());
                        log_line(log, line);
                        assert(lines(log@) =~= expected);
                        Advance::Finished(Ok(bytes))
                    },
                    None => Advance::Stuck,
                }
            },
            None => Advance::Stuck,
        },
        StepOutcome::Failed(reason) => {
            assert(lines(log@) =~= expected);
            Advance::Finished(Err(ExecutionError::Exit(reason)))
        },
        StepOutcome::Trap(opcode) => {
            assert(lines(log@) =~= expected);
            answer_trap(opcode, machine, storage)
        },
    }
}

/// No bytes.
fn nothing() -> (r: Vec<u8>)
    ensures
        r@ == Seq::<u8>::empty(),
{
    Vec::new()
}

/// Runs one more instruction.
pub fn advance(machine: &mut Machine, storage: &Storage, log: &mut Vec<String>) -> (r: Advance)
    requires
        machine_state(*old(machine)).position is Some,
    ensures
        progress(r, machine_state(*final(machine))) == advanced(
            machine_state(*old(machine)),
            storage@,
        ),
        r is Running ==> machine_state(*final(machine)).position is Some,
        !(r is Stuck) ==> lines(final(log)@) == lines(old(log)@) + advance_lines(
            machine_state(*old(machine)),
        ),
{
    let active = log_before(machine, log);
    let length = peek(stack(machine), 1);
    let reported = step(machine);
    let r = settle(active, reported, length, machine, storage, log);
    assert(r is Stuck || lines(log@) =~= lines(old(log)@) + advance_lines(
        machine_state(*old(machine)),
    ));
    r
}

/// Counts the valid jump destinations of `code`.
fn count_jump_destinations(code: &Vec<u8>) -> (r: usize)
    ensures
        r == count_set(jump_destinations(code@)),
{
    let valids = new_valids(code.as_slice());
    let ghost flags = jump_destinations(code@);
    let mut count: usize = 0;
    let mut i: usize = 0;
    assert(flags.take(0) =~= seq![]);
    while i < valids_len(&valids)
        invariant
            flags == valid_offsets(valids),
            i <= flags.len(),
            flags.len() == code@.len(),
            count <= i,
            count == count_set(flags.take(i as int)),
        decreases flags.len() - i,
    {
        assert(flags.take(i + 1).drop_last() =~= flags.take(i as int));
        if valids_is_valid(&valids, i) {
            count = count + 1;
        }
        i = i + 1;
    }
    assert(flags.take(i as int) =~= flags);
    count
}

/// Writes the line that is logged before a run.
fn opening(address: &Vec<u8>, code: &Vec<u8>) -> (r: String)
    ensures
        r@ == opening_line(address@, code@),
{
    let mut r = "Trying contract: ".to_owned();
    r.append(hex_text(address.as_slice()).as_str());
    r.append(" with ");
    r.append(decimal_text(count_jump_destinations(code) as u64).as_str());
    r.append(" valid jump destinations (code len ");
    r.append(decimal_text(code.len() as u64).as_str());
    r.append("))");
    r
}

/// Calls the contract at `address` with `data`, its code and storage as given: the bytes that it
/// returns, or why it returns none. The log tells of every instruction.
///
/// The call has to come to a proper end: see [`execute_within`] where that is not known.
pub fn execute_on(
    address: &Vec<u8>,
    code: Rc<Vec<u8>>,
    data: Vec<u8>,
    storage: &Storage,
    log: &mut Vec<String>,
) -> (r: Result<Vec<u8>, ExecutionError>)
    requires
        exists|limit: nat| execution(address@, code@, data@, storage@, limit) is Some,
    ensures
        forall|limit: nat|
            #![trigger execution(address@, code@, data@, storage@, limit)]
            execution(address@, code@, data@, storage@, limit) matches Some(run) ==> {
                &&& outcome(r) == run.outcome
                &&& lines(final(log)@) == lines(old(log)@) + run.log
            },
{
    let ghost start = initial_state(code@, data@, STACK_LIMIT as nat, MEMORY_LIMIT as nat);
    let ghost enough = choose|limit: nat|
        execution(address@, code@, data@, storage@, limit) is Some;
    let ghost whole = run(start, storage@, enough)->0;
    proof {
        assert forall|limit: nat|
            execution(address@, code@, data@, storage@, limit) is Some implies execution(
            address@,
            code@,
            data@,
            storage@,
            limit,
        ) == execution(address@, code@, data@, storage@, enough) by {
            if limit <= enough {
                law_execution_stable(address@, code@, data@, storage@, limit, enough);
            } else {
                law_execution_stable(address@, code@, data@, storage@, enough, limit);
            }
        }
    }
    log_line(log, opening(address, &code));
    let ghost opened = lines(log@);
    let mut machine = new_machine(code, Rc::new(data), STACK_LIMIT, MEMORY_LIMIT);
    let ghost mut left = enough;
    let ghost mut told: Seq<Seq<char>> = seq![];
    assert(opened =~= opened + told);
    loop
        invariant
            machine_state(machine).position is Some,
            run(machine_state(machine), storage@, left) is Some,
            run(machine_state(machine), storage@, left)->0.outcome == whole.outcome,
            told + run(machine_state(machine), storage@, left)->0.log == whole.log,
            lines(log@) == opened + told,
            opened == lines(old(log)@).push(opening_line(address@, code@)),
            execution(address@, code@, data@, storage@, enough) == Some(
                Run {
                    outcome: whole.outcome,
                    log: seq![opening_line(address@, code@)] + whole.log,
                },
            ),
            forall|limit: nat|
                #![trigger execution(address@, code@, data@, storage@, limit)]
                execution(address@, code@, data@, storage@, limit) is Some ==> execution(
                    address@,
                    code@,
                    data@,
                    storage@,
                    limit,
                ) == execution(address@, code@, data@, storage@, enough),
        decreases left,
    {
        let ghost state = machine_state(machine);
        match advance(&mut machine, storage, log) {
            Advance::Running => {
                proof {
                    let rest = run(machine_state(machine), storage@, (left - 1) as nat)->0;
                    assert(told + (advance_lines(state) + rest.log) =~= (told + advance_lines(
                        state,
                    )) + rest.log);
                    assert(lines(log@) =~= opened + (told + advance_lines(state)));
                    told = told + advance_lines(state);
                    left = (left - 1) as nat;
                }
            },
            Advance::Finished(result) => {
                assert(lines(log@) =~= lines(old(log)@) + (seq![opening_line(address@, code@)]
                    + whole.log));
                return result;
            },
            Advance::Stuck => {
                assert(false);
                return vstd::pervasive::unreached();
            },
        }
    }
}

/// Does what [`execute_on`] does if the call comes to a proper end within `limit` instructions.
/// Otherwise it gives nothing and logs nothing.
pub fn execute_within(
    address: &Vec<u8>,
    code: Rc<Vec<u8>>,
    data: Vec<u8>,
    storage: &Storage,
    limit: u64,
    log: &mut Vec<String>,
) -> (r: Option<Result<Vec<u8>, ExecutionError>>)
    ensures
        match r {
            Some(result) => execution(address@, code@, data@, storage@, limit as nat) matches Some(
                run,
            ) && outcome(result) == run.outcome && lines(final(log)@) == lines(old(log)@)
                + run.log,
            None => execution(address@, code@, data@, storage@, limit as nat) is None
                && final(log)@ == old(log)@,
        },
{
    let ghost start = initial_state(code@, data@, STACK_LIMIT as nat, MEMORY_LIMIT as nat);
    let ghost whole = run(start, storage@, limit as nat);
    let ghost opening_text = opening_line(address@, code@);
    let mut told: Vec<String> = Vec::new();
    assert(lines(told@) =~= seq![]);
    log_line(&mut told, opening(address, &code));
    assert(lines(told@) =~= seq![opening_text]);
    let mut machine = new_machine(code, Rc::new(data), STACK_LIMIT, MEMORY_LIMIT);
    let mut left: u64 = limit;
    let ghost mut so_far: Seq<Seq<char>> = seq![];
    assert(seq![opening_text] + so_far =~= seq![opening_text]);
    proof {
        if whole is Some {
            assert(so_far + whole->0.log =~= whole->0.log);
        }
    }
    while left > 0
        invariant
            machine_state(machine).position is Some,
            whole == run(start, storage@, limit as nat),
            run(machine_state(machine), storage@, left as nat) is Some == whole is Some,
            whole is Some ==> run(machine_state(machine), storage@, left as nat)->0.outcome
                == whole->0.outcome && so_far + run(
                machine_state(machine),
                storage@,
                left as nat,
            )->0.log == whole->0.log,
            lines(told@) == seq![opening_text] + so_far,
            execution(address@, code@, data@, storage@, limit as nat) == (match whole {
                Some(w) => Some(Run { outcome: w.outcome, log: seq![opening_text] + w.log }),
                None => None,
            }),
            log@ == old(log)@,
        decreases left,
    {
        let ghost state = machine_state(machine);
        match advance(&mut machine, storage, &mut told) {
            Advance::Running => {
                proof {
                    let next = run(machine_state(machine), storage@, (left - 1) as nat);
                    if next is Some {
                        assert(so_far + (advance_lines(state) + next->0.log) =~= (so_far
                            + advance_lines(state)) + next->0.log);
                    }
                    assert(lines(told@) =~= seq![opening_text] + (so_far + advance_lines(state)));
                    so_far = so_far + advance_lines(state);
                }
            },
            Advance::Finished(result) => {
                let ghost all = lines(told@);
                log.append(&mut told);
                assert(lines(log@) =~= lines(old(log)@) + all);
                assert(all =~= seq![opening_text] + whole->0.log);
                return Some(result);
            },
            Advance::Stuck => {
                return None;
            },
        }
        left = left - 1;
    }
    None
}

} // verus!
