//! The part of an Ethereum block that the handlers read.

use vstd::prelude::*;

verus! {

/// The status of a transaction that succeeded.
pub const SUCCEEDED: i32 = 1;

/// The type of a call that creates a contract.
pub const CREATE: i32 = 5;

/// An entry that a contract wrote to the log.
#[derive(Debug, PartialEq)]
pub struct Log {
    pub address: Vec<u8>,
    pub topics: Vec<Vec<u8>>,
    pub data: Vec<u8>,
    /// Its place among the entries of the block.
    pub block_index: u32,
}

/// What a transaction left behind.
#[derive(Debug, PartialEq)]
pub struct TransactionReceipt {
    pub logs: Vec<Log>,
}

/// A change of a contract's code.
#[derive(Debug, PartialEq)]
pub struct CodeChange {
    pub new_code: Vec<u8>,
}

/// A change of a storage slot.
#[derive(Debug, PartialEq)]
pub struct StorageChange {
    pub key: Vec<u8>,
    pub new_value: Vec<u8>,
}

/// A call between contracts.
#[derive(Debug, PartialEq)]
pub struct Call {
    pub call_type: i32,
    pub address: Vec<u8>,
    pub state_reverted: bool,
    pub storage_changes: Vec<StorageChange>,
    pub code_changes: Vec<CodeChange>,
}

/// A transaction and the calls that it made.
#[derive(Debug, PartialEq)]
pub struct TransactionTrace {
    pub hash: Vec<u8>,
    pub status: i32,
    pub receipt: Option<TransactionReceipt>,
    pub calls: Vec<Call>,
}

/// A block of transactions.
#[derive(Debug, PartialEq)]
pub struct Block {
    pub transaction_traces: Vec<TransactionTrace>,
}

/// A log entry with the transaction that it belongs to.
pub struct LogView<'a> {
    pub transaction: &'a TransactionTrace,
    pub log: &'a Log,
}

/// Whether every transaction that succeeded has a receipt.
pub open spec fn receipts_present(traces: Seq<TransactionTrace>) -> bool {
    forall|i: int|
        0 <= i < traces.len() && (#[trigger] traces[i]).status == SUCCEEDED
            ==> traces[i].receipt is Some
}

/// The log entries of one transaction, each with the transaction's hash. A transaction that
/// failed has none.
pub open spec fn trace_logs(trace: TransactionTrace) -> Seq<(Seq<u8>, Log)> {
    if trace.status == SUCCEEDED {
        trace.receipt->0.logs@.map_values(|log: Log| (trace.hash@, log))
    } else {
        seq![]
    }
}

/// The log entries of the transactions that succeeded, in order, each with its transaction's
/// hash.
pub open spec fn block_logs(traces: Seq<TransactionTrace>) -> Seq<(Seq<u8>, Log)>
    decreases traces.len(),
{
    if traces.len() == 0 {
        seq![]
    } else {
        block_logs(traces.drop_last()) + trace_logs(traces.last())
    }
}

/// The hashes and entries that log views stand for.
pub open spec fn viewed(views: Seq<LogView>) -> Seq<(Seq<u8>, Log)> {
    views.map_values(|v: LogView| (v.transaction.hash@, *v.log))
}

impl Block {
    /// Tells whether every transaction that succeeded has a receipt.
    pub fn has_receipts(&self) -> (r: bool)
        ensures
            r == receipts_present(self.transaction_traces@),
    {
        let traces = &self.transaction_traces;
        let mut i: usize = 0;
        while i < traces.len()
            invariant
                i <= traces.len(),
                traces@ == self.transaction_traces@,
                receipts_present(traces@.take(i as int)),
            decreases traces.len() - i,
        {
            if traces[i].status == SUCCEEDED && traces[i].receipt.is_none() {
                assert(!receipts_present(self.transaction_traces@)) by {
                    assert(self.transaction_traces@[i as int].status == SUCCEEDED);
                }
                return false;
            }
            assert forall|j: int|
                0 <= j < i + 1 && (#[trigger] traces@.take(i + 1)[j]).status
                    == SUCCEEDED implies traces@.take(i + 1)[j].receipt is Some by {
                if j < i {
                    assert(traces@.take(i as int)[j] == traces@[j]);
                }
            }
            i = i + 1;
        }
        assert(traces@.take(i as int) =~= traces@);
        true
    }

    /// The log entries in the receipts of the transactions that succeeded, in order.
    pub fn logs(&self) -> (r: Vec<LogView<'_>>)
        requires
            receipts_present(self.transaction_traces@),
        ensures
            viewed(r@) == block_logs(self.transaction_traces@),
    {
        let traces = &self.transaction_traces;
        let mut r: Vec<LogView<'_>> = Vec::new();
        let mut i: usize = 0;
        assert(viewed(r@) =~= block_logs(traces@.take(0)));
        while i < traces.len()
            invariant
                i <= traces.len(),
                receipts_present(traces@),
                viewed(r@) == block_logs(traces@.take(i as int)),
            decreases traces.len() - i,
        {
            let ghost earlier = viewed(r@);
            let ghost next = traces@.take(i + 1);
            assert(next.drop_last() =~= traces@.take(i as int));
            assert(next.last() == traces@[i as int]);
            let trace = &traces[i];
            if trace.status == SUCCEEDED {
                match &trace.receipt {
                    Some(receipt) => {
                        let mut j: usize = 0;
                        assert(viewed(r@) =~= earlier + trace_logs(*trace).take(0));
                        while j < receipt.logs.len()
                            invariant
                                j <= receipt.logs.len(),
                                trace.status == SUCCEEDED,
                                trace.receipt == Some(*receipt),
                                viewed(r@) == earlier + trace_logs(*trace).take(j as int),
                            decreases receipt.logs.len() - j,
                        {
                            let view = LogView { transaction: trace, log: &receipt.logs[j] };
                            let ghost before = viewed(r@);
                            r.push(view);
                            proof {
                                assert(viewed(r@) =~= before.push((trace.hash@, *view.log)));
                                assert(trace_logs(*trace)[j as int] == (trace.hash@, *view.log));
                                assert(trace_logs(*trace).take(j + 1) =~= trace_logs(*trace).take(
                                    j as int,
                                ).push((trace.hash@, *view.log)));
                                assert(viewed(r@) =~= earlier + trace_logs(*trace).take(j + 1));
                            }
                            j = j + 1;
                        }
                        assert(trace_logs(*trace).take(j as int) =~= trace_logs(*trace));
                    },
                    None => {
                        assert(false);
                    },
                }
            } else {
                assert(earlier =~= earlier + trace_logs(*trace));
            }
            i = i + 1;
        }
        assert(traces@.take(i as int) =~= traces@);
        r
    }
}

} // verus!
