//! What holds of the things that are found in a block.

use crate::abi::{approval_kind, event, transfer_kind};
use crate::block::{block_logs, Log, StorageChange, TransactionTrace, SUCCEEDED};
use crate::changes::{law_prefixed_hex_injective, prefixed_hex};
use crate::creations::{block_creations, stored};
use crate::evm::MachineState;
use crate::execution::{after_trap, ErrorView, Progress};
use crate::handlers::{
    approval_lines, approval_view, approvals_in, is_collection, transfer_lines, transfer_view,
    transfers_in,
};
use crate::ADDRESS;
use vstd::prelude::*;

verus! {

/// The log of a block is that of its transactions, one after the other.
pub proof fn law_logs_in_order(first: Seq<TransactionTrace>, second: Seq<TransactionTrace>)
    ensures
        block_logs(first + second) == block_logs(first) + block_logs(second),
    decreases second.len(),
{
    if second.len() == 0 {
        assert(first + second =~= first);
        assert(block_logs(first) + block_logs(second) =~= block_logs(first));
    } else {
        assert((first + second).drop_last() =~= first + second.drop_last());
        assert((first + second).last() == second.last());
        law_logs_in_order(first, second.drop_last());
        assert(block_logs(first + second) =~= block_logs(first) + block_logs(second));
    }
}

/// The transfers in a log, and what is logged of them, are those of its parts, one after the
/// other.
pub proof fn law_transfers_in_order(first: Seq<(Seq<u8>, Log)>, second: Seq<(Seq<u8>, Log)>)
    ensures
        transfers_in(first + second) == transfers_in(first) + transfers_in(second),
        transfer_lines(first + second) == transfer_lines(first) + transfer_lines(second),
    decreases second.len(),
{
    if second.len() == 0 {
        assert(first + second =~= first);
        assert(transfers_in(first) + transfers_in(second) =~= transfers_in(first));
        assert(transfer_lines(first) + transfer_lines(second) =~= transfer_lines(first));
    } else {
        assert((first + second).drop_last() =~= first + second.drop_last());
        assert((first + second).last() == second.last());
        law_transfers_in_order(first, second.drop_last());
        assert(transfers_in(first + second) =~= transfers_in(first) + transfers_in(second));
        assert(transfer_lines(first + second) =~= transfer_lines(first) + transfer_lines(second));
    }
}

/// The approvals in a log, and what is logged of them, are those of its parts, one after the
/// other.
pub proof fn law_approvals_in_order(first: Seq<(Seq<u8>, Log)>, second: Seq<(Seq<u8>, Log)>)
    ensures
        approvals_in(first + second) == approvals_in(first) + approvals_in(second),
        approval_lines(first + second) == approval_lines(first) + approval_lines(second),
    decreases second.len(),
{
    if second.len() == 0 {
        assert(first + second =~= first);
        assert(approvals_in(first) + approvals_in(second) =~= approvals_in(first));
        assert(approval_lines(first) + approval_lines(second) =~= approval_lines(first));
    } else {
        assert((first + second).drop_last() =~= first + second.drop_last());
        assert((first + second).last() == second.last());
        law_approvals_in_order(first, second.drop_last());
        assert(approvals_in(first + second) =~= approvals_in(first) + approvals_in(second));
        assert(approval_lines(first + second) =~= approval_lines(first) + approval_lines(second));
    }
}

/// The contracts that a block creates are those of its transactions, one after the other.
pub proof fn law_creations_in_order(first: Seq<TransactionTrace>, second: Seq<TransactionTrace>)
    ensures
        block_creations(first + second) == block_creations(first) + block_creations(second),
    decreases second.len(),
{
    if second.len() == 0 {
        assert(first + second =~= first);
        assert(block_creations(first) + block_creations(second) =~= block_creations(first));
    } else {
        assert((first + second).drop_last() =~= first + second.drop_last());
        assert((first + second).last() == second.last());
        law_creations_in_order(first, second.drop_last());
        assert(block_creations(first + second) =~= block_creations(first) + block_creations(
            second,
        ));
    }
}

/// A transaction that failed leaves nothing in the log and creates no contract.
pub proof fn law_failed_transaction_ignored(
    first: Seq<TransactionTrace>,
    failed: TransactionTrace,
    second: Seq<TransactionTrace>,
)
    requires
        failed.status != SUCCEEDED,
    ensures
        block_logs(first.push(failed) + second) == block_logs(first + second),
        block_creations(first.push(failed) + second) == block_creations(first + second),
{
    assert(first.push(failed).drop_last() =~= first);
    assert(block_logs(first.push(failed)) =~= block_logs(first));
    law_logs_in_order(first.push(failed), second);
    law_logs_in_order(first, second);
    law_creations_in_order(first.push(failed), second);
    law_creations_in_order(first, second);
}

/// Every transfer that is handed on stands in the log.
pub proof fn law_transfer_from_log(logs: Seq<(Seq<u8>, Log)>, n: int)
    requires
        0 <= n < transfers_in(logs).len(),
    ensures
        exists|i: int|
            0 <= i < logs.len() && (event((#[trigger] logs[i]).1, transfer_kind()) matches Some(
                parameters,
            ) && transfers_in(logs)[n] == transfer_view(logs[i].0, parameters)),
    decreases logs.len(),
{
    let front = logs.drop_last();
    if n < transfers_in(front).len() {
        law_transfer_from_log(front, n);
        let i = choose|i: int|
            0 <= i < front.len() && (event((#[trigger] front[i]).1, transfer_kind()) matches Some(
                parameters,
            ) && transfers_in(front)[n] == transfer_view(front[i].0, parameters));
        assert(logs[i] == front[i]);
    } else {
        assert(logs.last() == logs[logs.len() - 1]);
    }
}

/// Every approval that is handed on stands in the log, in an entry of the collection.
pub proof fn law_approval_from_collection(logs: Seq<(Seq<u8>, Log)>, n: int)
    requires
        0 <= n < approvals_in(logs).len(),
    ensures
        exists|i: int|
            0 <= i < logs.len() && is_collection((#[trigger] logs[i]).1.address@) && (event(
                logs[i].1,
                approval_kind(),
            ) matches Some(parameters) && approvals_in(logs)[n] == approval_view(
                logs[i].0,
                parameters,
            )),
    decreases logs.len(),
{
    let front = logs.drop_last();
    if n < approvals_in(front).len() {
        law_approval_from_collection(front, n);
        let i = choose|i: int|
            0 <= i < front.len() && is_collection((#[trigger] front[i]).1.address@) && (event(
                front[i].1,
                approval_kind(),
            ) matches Some(parameters) && approvals_in(front)[n] == approval_view(
                front[i].0,
                parameters,
            ));
        assert(logs[i] == front[i]);
    } else {
        assert(logs.last() == logs[logs.len() - 1]);
    }
}

/// The collection has one address, of twenty bytes.
pub proof fn law_one_collection(a: Seq<u8>, b: Seq<u8>)
    requires
        is_collection(a),
        is_collection(b),
    ensures
        a == b,
        a.len() == 20,
{
    law_prefixed_hex_injective(a, b);
    reveal_strlit("0xBC4CA0EdA7647A8aB7C2061c2E118A18a936f13D");
    assert(prefixed_hex(a).len() == ADDRESS@.len());
}

/// A slot holds what the last change of it wrote.
pub proof fn law_last_change_stays(changes: Seq<StorageChange>, i: int)
    requires
        0 <= i < changes.len(),
        forall|j: int|
            i < j < changes.len() ==> (#[trigger] changes[j]).key@ != changes[i].key@,
    ensures
        stored(changes).contains_key(changes[i].key@),
        stored(changes)[changes[i].key@] == changes[i].new_value@,
    decreases changes.len(),
{
    if i < changes.len() - 1 {
        let front = changes.drop_last();
        assert(changes.last() == changes[changes.len() - 1]);
        assert forall|j: int| i < j < front.len() implies (#[trigger] front[j]).key@
            != front[i].key@ by {
            assert(front[j] == changes[j]);
        }
        law_last_change_stays(front, i);
    }
}

/// Where the constructor wrote a word to a slot last, a read of the slot puts that word in place
/// of the key on the stack, and touches nothing else.
pub proof fn law_read_gives_last_write(
    changes: Seq<StorageChange>,
    i: int,
    state: MachineState,
)
    requires
        0 <= i < changes.len(),
        forall|j: int|
            i < j < changes.len() ==> (#[trigger] changes[j]).key@ != changes[i].key@,
        changes[i].new_value@.len() == 32,
        0 < state.stack.len() <= state.stack_limit,
        state.stack.last() == changes[i].key@,
    ensures
        after_trap(0x54, state, stored(changes)) == Progress::Running(
            (MachineState {
                stack: state.stack.drop_last().push(changes[i].new_value@),
                ..state
            }),
        ),
{
    law_last_change_stays(changes, i);
}

/// A read of a slot that the constructor did not write ends the run with an error.
pub proof fn law_unwritten_read_fails(
    changes: Seq<StorageChange>,
    state: MachineState,
)
    requires
        state.stack.len() > 0,
        forall|j: int|
            0 <= j < changes.len() ==> (#[trigger] changes[j]).key@ != state.stack.last(),
    ensures
        after_trap(0x54, state, stored(changes)) == Progress::Finished(
            Err(ErrorView::UnknownStorageKey(state.stack.last())),
        ),
{
    law_other_slots_empty(changes, state.stack.last());
}

/// A slot that no change names holds nothing.
pub proof fn law_other_slots_empty(changes: Seq<StorageChange>, key: Seq<u8>)
    requires
        forall|j: int| 0 <= j < changes.len() ==> (#[trigger] changes[j]).key@ != key,
    ensures
        !stored(changes).contains_key(key),
    decreases changes.len(),
{
    if changes.len() > 0 {
        let front = changes.drop_last();
        assert(changes.last() == changes[changes.len() - 1]);
        assert forall|j: int| 0 <= j < front.len() implies (#[trigger] front[j]).key@ != key by {
            assert(front[j] == changes[j]);
        }
        law_other_slots_empty(front, key);
    }
}

} // verus!
