//! What is known of the contracts that a block creates, told by the calls of its transactions.

use crate::block::{Call, StorageChange, TransactionTrace};
use crate::block_laws::{law_last_change_stays, law_other_slots_empty};
use crate::contract::{creation_views, ContractCreation, CreationView};
use crate::creations::{
    block_complete, block_creations, call_creations, calls_complete, complete, creates, creation,
    stored,
};
use vstd::prelude::*;

verus! {

/// Whether a call creates a contract, and was not reverted.
pub open spec fn lasting_creation() -> spec_fn(Call) -> bool {
    |call: Call| call.call_type == 5 && !call.state_reverted
}

/// Whether storage holds what a list of changes left: under each key that a change names the value
/// of the last such change, and nothing under any other key.
pub open spec fn left_by(
    storage: Map<Seq<u8>, Seq<u8>>,
    changes: Seq<StorageChange>,
) -> bool {
    &&& forall|i: int|
        0 <= i < changes.len() && (forall|j: int|
            i < j < changes.len() ==> (#[trigger] changes[j]).key@ != changes[i].key@)
            ==> storage.contains_key((#[trigger] changes[i]).key@) && storage[changes[i].key@]
            == changes[i].new_value@
    &&& forall|key: Seq<u8>| #[trigger]
        storage.contains_key(key) ==> exists|i: int|
            0 <= i < changes.len() && (#[trigger] changes[i]).key@ == key
}

/// Whether `made` is the contract that a call created: at the call's address, with the code of the
/// last code change, and with the storage that all the storage changes left.
pub open spec fn made_by(made: CreationView, call: Call) -> bool {
    &&& made.address == call.address@
    &&& made.code == call.code_changes@[call.code_changes@.len() - 1].new_code@
    &&& left_by(made.storage, call.storage_changes@)
}

/// A created contract has the address of its call, the last code, and the storage that all the
/// changes of the call left, the first one counted.
pub proof fn law_creation(call: Call)
    ensures
        made_by(creation(call), call),
{
    let changes = call.storage_changes@;
    let storage = creation(call).storage;
    assert forall|i: int|
        0 <= i < changes.len() && (forall|j: int|
            i < j < changes.len() ==> (#[trigger] changes[j]).key@
                != changes[i].key@) implies storage.contains_key((#[trigger] changes[i]).key@)
        && storage[changes[i].key@] == changes[i].new_value@ by {
        law_last_change_stays(changes, i);
    }
    assert forall|key: Seq<u8>| #[trigger] storage.contains_key(key) implies exists|i: int|
        0 <= i < changes.len() && (#[trigger] changes[i]).key@ == key by {
        if forall|i: int| 0 <= i < changes.len() ==> (#[trigger] changes[i]).key@ != key {
            law_other_slots_empty(changes, key);
        }
    }
}

/// Every key that a change names holds something.
pub proof fn law_written_slots_filled(changes: Seq<StorageChange>, i: int)
    requires
        0 <= i < changes.len(),
    ensures
        stored(changes).contains_key(changes[i].key@),
    decreases changes.len(),
{
    if i < changes.len() - 1 {
        law_written_slots_filled(changes.drop_last(), i);
    }
}

/// Every call that created a contract for good makes one, in order, and no other call does.
pub proof fn law_call_creations(calls: Seq<Call>)
    ensures
        call_creations(calls).len() == calls.filter(lasting_creation()).len(),
        forall|n: int|
            0 <= n < call_creations(calls).len() ==> made_by(
                #[trigger] call_creations(calls)[n],
                calls.filter(lasting_creation())[n],
            ),
    decreases calls.len(),
{
    reveal(Seq::filter);
    if calls.len() > 0 {
        let front = calls.drop_last();
        law_call_creations(front);
        law_creation(calls.last());
        assert forall|n: int| 0 <= n < call_creations(calls).len() implies made_by(
            #[trigger] call_creations(calls)[n],
            calls.filter(lasting_creation())[n],
        ) by {
            if n < call_creations(front).len() {
                assert(call_creations(calls)[n] == call_creations(front)[n]);
            }
        }
    }
}

/// The contracts of a block are those of its transactions with status 1, one transaction after the
/// other. Where those of a transaction start is how many the transactions before it created.
pub proof fn law_block_creations(traces: Seq<TransactionTrace>, i: int)
    requires
        0 <= i < traces.len(),
    ensures
        block_creations(traces.take(0)).len() == 0,
        traces[i].status != 1 ==> block_creations(traces.take(i + 1)) == block_creations(
            traces.take(i),
        ),
        traces[i].status == 1 ==> block_creations(traces.take(i + 1)) == block_creations(
            traces.take(i),
        ) + call_creations(traces[i].calls@),
        block_creations(traces.take(traces.len() as int)) == block_creations(traces),
{
    assert(traces.take(i + 1).drop_last() =~= traces.take(i));
    assert(traces.take(i + 1).last() == traces[i]);
    assert(traces.take(traces.len() as int) =~= traces);
}

/// The calls of the transactions with status 1, one transaction after the other.
pub open spec fn successful_calls(traces: Seq<TransactionTrace>) -> Seq<Call> {
    traces.filter(|trace: TransactionTrace| trace.status == 1).map_values(
        |trace: TransactionTrace| trace.calls@,
    ).flatten_alt()
}

/// Every call of a transaction with status 1 that created a contract for good makes one, in order,
/// and nothing else does.
pub proof fn law_creations_complete(traces: Seq<TransactionTrace>)
    ensures
        block_creations(traces).len() == successful_calls(traces).filter(lasting_creation()).len(),
        forall|n: int|
            0 <= n < block_creations(traces).len() ==> made_by(
                #[trigger] block_creations(traces)[n],
                successful_calls(traces).filter(lasting_creation())[n],
            ),
    decreases traces.len(),
{
    let succeeded = |trace: TransactionTrace| trace.status == 1;
    let calls_of = |trace: TransactionTrace| trace.calls@;
    reveal(Seq::filter);
    if traces.len() == 0 {
        assert(traces.filter(succeeded).map_values(calls_of) =~= seq![]);
    } else {
        let front = traces.drop_last();
        let last = traces.last();
        law_creations_complete(front);
        if last.status == 1 {
            let earlier = successful_calls(front);
            let all = traces.filter(succeeded).map_values(calls_of);
            assert(all.drop_last() =~= front.filter(succeeded).map_values(calls_of));
            assert(all.last() == last.calls@);
            assert(successful_calls(traces) == earlier + last.calls@);
            Seq::filter_distributes_over_add(earlier, last.calls@, lasting_creation());
            law_call_creations(last.calls@);
            let whole = successful_calls(traces).filter(lasting_creation());
            let before = block_creations(front).len();
            assert forall|n: int| 0 <= n < block_creations(traces).len() implies made_by(
                #[trigger] block_creations(traces)[n],
                whole[n],
            ) by {
                if n < before {
                    assert(block_creations(traces)[n] == block_creations(front)[n]);
                } else {
                    assert(block_creations(traces)[n] == call_creations(last.calls@)[n - before]);
                }
            }
        }
    }
}

/// A block tells enough of the contracts that it creates unless a call of a transaction with status
/// 1 that created one for good tells no code, or names a slot otherwise than by 32 bytes.
pub proof fn law_complete(traces: Seq<TransactionTrace>)
    ensures
        block_complete(traces) <==> forall|i: int, j: int|
            #![trigger traces[i].calls@[j]]
            0 <= i < traces.len() && traces[i].status == 1 && 0 <= j < traces[i].calls@.len()
                && lasting_creation()(traces[i].calls@[j]) ==> {
                &&& traces[i].calls@[j].code_changes@.len() > 0
                &&& forall|k: int|
                    0 <= k < traces[i].calls@[j].storage_changes@.len()
                        ==> (#[trigger] traces[i].calls@[j].storage_changes@[k]).key@.len() == 32
            },
{
    if block_complete(traces) {
        assert forall|i: int, j: int|
            #![trigger traces[i].calls@[j]]
            0 <= i < traces.len() && traces[i].status == 1 && 0 <= j < traces[i].calls@.len()
                && lasting_creation()(traces[i].calls@[j]) implies complete(
            traces[i].calls@[j],
        ) by {
            assert(calls_complete(traces[i].calls@));
            assert(creates(traces[i].calls@[j]));
        }
    } else {
        let i = choose|i: int|
            0 <= i < traces.len() && (#[trigger] traces[i]).status == 1 && !calls_complete(
                traces[i].calls@,
            );
        let calls = traces[i].calls@;
        let j = choose|j: int|
            0 <= j < calls.len() && creates(#[trigger] calls[j]) && !complete(calls[j]);
        assert(lasting_creation()(traces[i].calls@[j]));
    }
}

/// A created contract is seen by its fields, each under its own name, and a list of them item by
/// item.
pub proof fn law_creation_fields(made: ContractCreation, list: Seq<ContractCreation>)
    ensures
        made@.address == made.address@,
        made@.code == made.code@,
        made@.storage == made.storage_changes@,
        creation_views(list).len() == list.len(),
        forall|i: int| 0 <= i < list.len() ==> #[trigger] creation_views(list)[i] == list[i]@,
{
}

} // verus!
