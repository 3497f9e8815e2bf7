//! Finding the contracts that a block creates.

use crate::block::{Block, Call, StorageChange, TransactionTrace, CREATE, SUCCEEDED};
use crate::contract::{creation_views, ContractCreation, CreationView};
use crate::creation_laws::{
    lasting_creation, law_creations_complete, made_by, successful_calls,
};
use crate::evm::word_from_slice;
use crate::storage::Storage;
use vstd::prelude::*;
use vstd::slice::slice_to_vec;

verus! {

/// What storage holds after `changes`: the last value of each slot.
pub open spec fn stored(changes: Seq<StorageChange>) -> Map<Seq<u8>, Seq<u8>>
    decreases changes.len(),
{
    if changes.len() == 0 {
        Map::empty()
    } else {
        stored(changes.drop_last()).insert(changes.last().key@, changes.last().new_value@)
    }
}

/// Whether a call created a contract for good.
pub open spec fn creates(call: Call) -> bool {
    !call.state_reverted && call.call_type == CREATE
}

/// Whether a call that created a contract tells its code, and names storage slots by whole words.
pub open spec fn complete(call: Call) -> bool {
    &&& call.code_changes@.len() > 0
    &&& forall|i: int|
        0 <= i < call.storage_changes@.len() ==> (#[trigger] call.storage_changes@[i]).key@.len()
            == 32
}

/// The contract that a call created. Its code is what the last change made it.
pub open spec fn creation(call: Call) -> CreationView {
    CreationView {
        address: call.address@,
        code: call.code_changes@.last().new_code@,
        storage: stored(call.storage_changes@),
    }
}

/// The contracts that calls created, in order.
pub open spec fn call_creations(calls: Seq<Call>) -> Seq<CreationView>
    decreases calls.len(),
{
    if calls.len() == 0 {
        seq![]
    } else {
        let earlier = call_creations(calls.drop_last());
        if creates(calls.last()) {
            earlier.push(creation(calls.last()))
        } else {
            earlier
        }
    }
}

/// The contracts that the calls of successful transactions created, in order.
pub open spec fn block_creations(traces: Seq<TransactionTrace>) -> Seq<CreationView>
    decreases traces.len(),
{
    if traces.len() == 0 {
        seq![]
    } else {
        let earlier = block_creations(traces.drop_last());
        if traces.last().status == SUCCEEDED {
            earlier + call_creations(traces.last().calls@)
        } else {
            earlier
        }
    }
}

/// Whether each of `calls` that created a contract is complete.
pub open spec fn calls_complete(calls: Seq<Call>) -> bool {
    forall|i: int| 0 <= i < calls.len() && creates(#[trigger] calls[i]) ==> complete(calls[i])
}

/// Whether each call of a successful transaction that created a contract is complete.
pub open spec fn block_complete(traces: Seq<TransactionTrace>) -> bool {
    forall|i: int|
        0 <= i < traces.len() && (#[trigger] traces[i]).status == SUCCEEDED ==> calls_complete(
            traces[i].calls@,
        )
}

/// Plays storage changes back.
pub fn replay(changes: &Vec<StorageChange>) -> (r: Storage)
    requires
        forall|i: int| 0 <= i < changes@.len() ==> (#[trigger] changes@[i]).key@.len() == 32,
    ensures
        r@ == stored(changes@),
{
    let mut r = Storage::new();
    let mut i: usize = 0;
    assert(changes@.take(0) =~= seq![]);
    while i < changes.len()
        invariant
            i <= changes.len(),
            forall|j: int| 0 <= j < changes@.len() ==> (#[trigger] changes@[j]).key@.len() == 32,
            r@ == stored(changes@.take(i as int)),
        decreases changes.len() - i,
    {
        assert(changes@.take(i + 1).drop_last() =~= changes@.take(i as int));
        r.insert(
            word_from_slice(changes[i].key.as_slice()),
            slice_to_vec(changes[i].new_value.as_slice()),
        );
        i = i + 1;
    }
    assert(changes@.take(i as int) =~= changes@);
    r
}

/// The contract that a call created.
fn contract_creation(call: &Call) -> (r: ContractCreation)
    requires
        complete(*call),
    ensures
        r@ == creation(*call),
{
    ContractCreation {
        address: slice_to_vec(call.address.as_slice()),
        code: slice_to_vec(call.code_changes[call.code_changes.len() - 1].new_code.as_slice()),
        storage_changes: replay(&call.storage_changes),
    }
}

/// The contracts that the calls of successful transactions created, in order.
pub fn contract_creations(blk: &Block) -> (r: Vec<ContractCreation>)
    requires
        block_complete(blk.transaction_traces@),
    ensures
        creation_views(r@) == block_creations(blk.transaction_traces@),
        r@.len() == successful_calls(blk.transaction_traces@).filter(lasting_creation()).len(),
        forall|n: int|
            0 <= n < r@.len() ==> made_by(
                (#[trigger] r@[n])@,
                successful_calls(blk.transaction_traces@).filter(lasting_creation())[n],
            ),
{
    let traces = &blk.transaction_traces;
    let mut r: Vec<ContractCreation> = Vec::new();
    let mut i: usize = 0;
    assert(creation_views(r@) =~= block_creations(traces@.take(0)));
    while i < traces.len()
        invariant
            i <= traces.len(),
            block_complete(traces@),
            creation_views(r@) == block_creations(traces@.take(i as int)),
        decreases traces.len() - i,
    {
        let ghost earlier = creation_views(r@);
        assert(traces@.take(i + 1).drop_last() =~= traces@.take(i as int));
        let trace = &traces[i];
        if trace.status == SUCCEEDED {
            let calls = &trace.calls;
            let mut j: usize = 0;
            assert(creation_views(r@) =~= earlier + call_creations(calls@.take(0)));
            while j < calls.len()
                invariant
                    j <= calls.len(),
                    calls_complete(calls@),
                    creation_views(r@) == earlier + call_creations(calls@.take(j as int)),
                decreases calls.len() - j,
            {
                let ghost before = creation_views(r@);
                assert(calls@.take(j + 1).drop_last() =~= calls@.take(j as int));
                let call = &calls[j];
                if !call.state_reverted && call.call_type == CREATE {
                    let found = contract_creation(call);
                    r.push(found);
                    assert(creation_views(r@) =~= before.push(found@));
                }
                assert(creation_views(r@) =~= earlier + call_creations(calls@.take(j + 1)));
                j = j + 1;
            }
            assert(calls@.take(j as int) =~= calls@);
        }
        i = i + 1;
    }
    assert(traces@.take(i as int) =~= traces@);
    proof {
        law_creations_complete(traces@);
        assert(creation_views(r@).len() == r@.len());
        assert forall|n: int| 0 <= n < r@.len() implies made_by(
            (#[trigger] r@[n])@,
            successful_calls(traces@).filter(lasting_creation())[n],
        ) by {
            assert(creation_views(r@)[n] == block_creations(traces@)[n]);
        }
    }
    r
}

/// Tells whether a call tells the contract's code, and names storage slots by whole words.
fn is_complete(call: &Call) -> (r: bool)
    ensures
        r == complete(*call),
{
    if call.code_changes.len() == 0 {
        return false;
    }
    let changes = &call.storage_changes;
    let mut i: usize = 0;
    while i < changes.len()
        invariant
            i <= changes.len(),
            changes@ == call.storage_changes@,
            forall|j: int| 0 <= j < i ==> (#[trigger] changes@[j]).key@.len() == 32,
        decreases changes.len() - i,
    {
        if changes[i].key.len() != 32 {
            assert(call.storage_changes@[i as int].key@.len() != 32);
            return false;
        }
        i = i + 1;
    }
    true
}

/// Tells whether each call of a successful transaction that created a contract is complete.
pub fn creations_complete(blk: &Block) -> (r: bool)
    ensures
        r == block_complete(blk.transaction_traces@),
{
    let traces = &blk.transaction_traces;
    let mut i: usize = 0;
    while i < traces.len()
        invariant
            i <= traces.len(),
            traces@ == blk.transaction_traces@,
            forall|k: int|
                0 <= k < i && (#[trigger] traces@[k]).status == SUCCEEDED ==> calls_complete(
                    traces@[k].calls@,
                ),
        decreases traces.len() - i,
    {
        if traces[i].status == SUCCEEDED {
            let calls = &traces[i].calls;
            let mut j: usize = 0;
            while j < calls.len()
                invariant
                    j <= calls.len(),
                    i < traces@.len(),
                    traces@ == blk.transaction_traces@,
                    traces@[i as int].status == SUCCEEDED,
                    calls@ == traces@[i as int].calls@,
                    forall|k: int|
                        0 <= k < j && creates(#[trigger] calls@[k]) ==> complete(calls@[k]),
                decreases calls.len() - j,
            {
                let call = &calls[j];
                if !call.state_reverted && call.call_type == CREATE && !is_complete(call) {
                    assert(!calls_complete(calls@)) by {
                        assert(creates(calls@[j as int]));
                    }
                    assert(blk.transaction_traces@[i as int].status == SUCCEEDED);
                    return false;
                }
                j = j + 1;
            }
        }
        i = i + 1;
    }
    true
}

} // verus!
