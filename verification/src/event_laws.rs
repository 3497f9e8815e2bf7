//! What is handed on of the events in a log, told by the bytes of the log entries.

use crate::abi::{
    approval_kind, decoding_error, event, event_lines, transfer_kind, ApprovalEvent, EventView,
    TransferEvent, APPROVAL_TOPIC, TRANSFER_TOPIC,
};
use crate::block::{block_logs, receipts_present, viewed, Log, LogView, TransactionTrace};
use crate::changes::{law_prefixed_hex_injective, prefixed_hex};
use crate::handlers::{
    approval_lines, approval_view, approvals_in, is_collection, transfer_lines, transfer_view,
    transfers_in,
};
use crate::schema::{ApprovalView, TransferView};
use crate::text::{big_endian, decimal, hex, lower};
use crate::text_laws::{hexit, law_decimal, law_hex, writes_number, writes_prefixed};
use crate::ADDRESS;
use vstd::prelude::*;

verus! {

/// A log entry with the hash of its transaction.
pub type Entry = (Seq<u8>, Log);

/// Whether a log entry carries a topic, three parameters and nothing else.
pub open spec fn carries(log: Log, topic: Seq<u8>) -> bool {
    log.topics@.len() == 4 && log.topics@[0]@ == topic && log.data@.len() == 0
}

/// Whether each of the three parameters of a log entry is at least a word.
pub open spec fn whole_parameters(log: Log) -> bool {
    log.topics@[1]@.len() >= 32 && log.topics@[2]@.len() >= 32 && log.topics@[3]@.len() >= 32
}

/// The 20 bytes of the collection's address.
pub open spec fn collection_bytes() -> Seq<u8> {
    seq![
        0xbcu8, 0x4cu8, 0xa0u8, 0xedu8, 0xa7u8, 0x64u8, 0x7au8, 0x8au8, 0xb7u8, 0xc2u8,
        0x06u8, 0x1cu8, 0x2eu8, 0x11u8, 0x8au8, 0x18u8, 0xa9u8, 0x36u8, 0xf1u8, 0x3du8,
    ]
}

/// Whether an entry is a transfer that can be read.
pub open spec fn readable_transfer() -> spec_fn(Entry) -> bool {
    |entry: Entry| carries(entry.1, TRANSFER_TOPIC@) && whole_parameters(entry.1)
}

/// Whether an entry is a transfer that cannot be read.
pub open spec fn unreadable_transfer() -> spec_fn(Entry) -> bool {
    |entry: Entry| carries(entry.1, TRANSFER_TOPIC@) && !whole_parameters(entry.1)
}

/// Whether an entry is an approval of the collection that can be read.
pub open spec fn readable_approval() -> spec_fn(Entry) -> bool {
    |entry: Entry|
        entry.1.address@ == collection_bytes() && carries(entry.1, APPROVAL_TOPIC@)
            && whole_parameters(entry.1)
}

/// Whether an entry is an approval of the collection that cannot be read.
pub open spec fn unreadable_approval() -> spec_fn(Entry) -> bool {
    |entry: Entry|
        entry.1.address@ == collection_bytes() && carries(entry.1, APPROVAL_TOPIC@)
            && !whole_parameters(entry.1)
}

/// Whether `transfer` tells what stands in an entry: the addresses are the bytes from 12 to 32 of
/// the first two parameters, the token is the number in the third, and the transaction is the one
/// of the entry.
pub open spec fn tells_transfer(transfer: TransferView, entry: Entry) -> bool {
    &&& writes_prefixed(transfer.from, entry.1.topics@[1]@.subrange(12, 32))
    &&& writes_prefixed(transfer.to, entry.1.topics@[2]@.subrange(12, 32))
    &&& writes_number(transfer.token_id, big_endian(entry.1.topics@[3]@.subrange(0, 32)) as int)
    &&& writes_prefixed(transfer.tx_hash, entry.0)
    &&& transfer.token_name.len() == 0
    &&& transfer.token_symbol.len() == 0
    &&& transfer.token_uri.len() == 0
}

/// Whether `approval` tells what stands in an entry: the addresses are the bytes from 12 to 32 of
/// the first two parameters, the token is the number in the third, and the transaction is the one
/// of the entry.
pub open spec fn tells_approval(approval: ApprovalView, entry: Entry) -> bool {
    &&& writes_prefixed(approval.owner, entry.1.topics@[1]@.subrange(12, 32))
    &&& writes_prefixed(approval.approved, entry.1.topics@[2]@.subrange(12, 32))
    &&& writes_number(approval.token_id, big_endian(entry.1.topics@[3]@.subrange(0, 32)) as int)
    &&& writes_prefixed(approval.tx_hash, entry.0)
    &&& approval.token_name.len() == 0
    &&& approval.token_symbol.len() == 0
    &&& approval.token_uri.len() == 0
}

/// What is said of the first parameter of an entry that is shorter than a word.
pub open spec fn shortness(first: Seq<char>, second: Seq<char>, log: Log) -> Seq<char> {
    if log.topics@[1]@.len() < 32 {
        "unable to decode param '"@ + first + "' from topic of type '"@ + "address"@ + "': "@
            + decoding_error(log.topics@[1]@)
    } else if log.topics@[2]@.len() < 32 {
        "unable to decode param '"@ + second + "' from topic of type '"@ + "address"@ + "': "@
            + decoding_error(log.topics@[2]@)
    } else {
        "unable to decode param '"@ + "token_id"@ + "' from topic of type '"@ + "uint256"@ + "': "@
            + decoding_error(log.topics@[3]@)
    }
}

/// The line on a transfer that cannot be read.
pub open spec fn transfer_complaint(log: Log) -> Seq<char> {
    "Log for event `"@ + "Transfer"@ + "` at index "@ + decimal(log.block_index as nat)
        + " matched but failed to decode with error: "@ + shortness("from"@, "to"@, log)
}

/// The line on an approval that cannot be read.
pub open spec fn approval_complaint(log: Log) -> Seq<char> {
    "Log for event `"@ + "Approval"@ + "` at index "@ + decimal(log.block_index as nat)
        + " matched but failed to decode with error: "@ + shortness("owner"@, "approved"@, log)
}

/// An address or a hash is written as `0x` and two hexadecimal digits for each byte, in order.
pub proof fn law_prefixed_hex(bytes: Seq<u8>)
    ensures
        writes_prefixed(prefixed_hex(bytes), bytes),
{
    reveal_strlit("0x");
    law_hex(bytes);
    let text = prefixed_hex(bytes);
    assert forall|k: int| 0 <= k < bytes.len() implies text[2 + 2 * k] == hexit(
        (#[trigger] bytes[k]) as int / 16,
    ) && text[2 + 2 * k + 1] == hexit(bytes[k] as int % 16) by {
        assert(text[2 + 2 * k] == hex(bytes)[0 + 2 * k]);
        assert(text[2 + 2 * k + 1] == hex(bytes)[0 + 2 * k + 1]);
    }
}

/// A log entry is a transfer if it carries the transfer topic, and is read if its parameters are
/// whole: the addresses are the bytes from 12 to 32 of the first two parameters, and the token is
/// the first 32 bytes of the third.
pub proof fn law_transfer_event(log: Log)
    ensures
        event(log, transfer_kind()) is Some <==> carries(log, TRANSFER_TOPIC@)
            && whole_parameters(log),
        event(log, transfer_kind()) matches Some(found) ==> {
            &&& found.first == log.topics@[1]@.subrange(12, 32)
            &&& found.second == log.topics@[2]@.subrange(12, 32)
            &&& found.token_id == log.topics@[3]@.subrange(0, 32)
        },
        event_lines(log, transfer_kind()) == (if carries(log, TRANSFER_TOPIC@)
            && !whole_parameters(log) {
            seq![transfer_complaint(log)]
        } else {
            seq![]
        }),
{
}

/// A log entry is an approval if it carries the approval topic, and is read if its parameters are
/// whole: the addresses are the bytes from 12 to 32 of the first two parameters, and the token is
/// the first 32 bytes of the third.
pub proof fn law_approval_event(log: Log)
    ensures
        event(log, approval_kind()) is Some <==> carries(log, APPROVAL_TOPIC@)
            && whole_parameters(log),
        event(log, approval_kind()) matches Some(found) ==> {
            &&& found.first == log.topics@[1]@.subrange(12, 32)
            &&& found.second == log.topics@[2]@.subrange(12, 32)
            &&& found.token_id == log.topics@[3]@.subrange(0, 32)
        },
        event_lines(log, approval_kind()) == (if carries(log, APPROVAL_TOPIC@)
            && !whole_parameters(log) {
            seq![approval_complaint(log)]
        } else {
            seq![]
        }),
{
}

/// The digits of each byte of the collection's address are those of its text, in small letters.
proof fn lemma_collection_digits(k: int)
    requires
        0 <= k < 20,
    ensures
        ADDRESS@.len() == 42,
        lower(ADDRESS@[2 + 2 * k]) == hexit(collection_bytes()[k] as int / 16),
        lower(ADDRESS@[3 + 2 * k]) == hexit(collection_bytes()[k] as int % 16),
{
    reveal_strlit("0xBC4CA0EdA7647A8aB7C2061c2E118A18a936f13D");
    reveal_strlit("0123456789abcdef");
    if k == 0 {
        assert(ADDRESS@[2] == 'B' && ADDRESS@[3] == 'C');
    } else if k == 1 {
        assert(ADDRESS@[4] == '4' && ADDRESS@[5] == 'C');
    } else if k == 2 {
        assert(ADDRESS@[6] == 'A' && ADDRESS@[7] == '0');
    } else if k == 3 {
        assert(ADDRESS@[8] == 'E' && ADDRESS@[9] == 'd');
    } else if k == 4 {
        assert(ADDRESS@[10] == 'A' && ADDRESS@[11] == '7');
    } else if k == 5 {
        assert(ADDRESS@[12] == '6' && ADDRESS@[13] == '4');
    } else if k == 6 {
        assert(ADDRESS@[14] == '7' && ADDRESS@[15] == 'A');
    } else if k == 7 {
        assert(ADDRESS@[16] == '8' && ADDRESS@[17] == 'a');
    } else if k == 8 {
        assert(ADDRESS@[18] == 'B' && ADDRESS@[19] == '7');
    } else if k == 9 {
        assert(ADDRESS@[20] == 'C' && ADDRESS@[21] == '2');
    } else if k == 10 {
        assert(ADDRESS@[22] == '0' && ADDRESS@[23] == '6');
    } else if k == 11 {
        assert(ADDRESS@[24] == '1' && ADDRESS@[25] == 'c');
    } else if k == 12 {
        assert(ADDRESS@[26] == '2' && ADDRESS@[27] == 'E');
    } else if k == 13 {
        assert(ADDRESS@[28] == '1' && ADDRESS@[29] == '1');
    } else if k == 14 {
        assert(ADDRESS@[30] == '8' && ADDRESS@[31] == 'A');
    } else if k == 15 {
        assert(ADDRESS@[32] == '1' && ADDRESS@[33] == '8');
    } else if k == 16 {
        assert(ADDRESS@[34] == 'a' && ADDRESS@[35] == '9');
    } else if k == 17 {
        assert(ADDRESS@[36] == '3' && ADDRESS@[37] == '6');
    } else if k == 18 {
        assert(ADDRESS@[38] == 'f' && ADDRESS@[39] == '1');
    } else if k == 19 {
        assert(ADDRESS@[40] == '3' && ADDRESS@[41] == 'D');
    }
}

/// A contract is the collection if its address has the collection's 20 bytes.
pub proof fn law_collection_address(address: Seq<u8>)
    ensures
        is_collection(address) <==> address == collection_bytes(),
{
    let bytes = collection_bytes();
    let text = prefixed_hex(bytes);
    let expected = ADDRESS@.map_values(|c: char| lower(c));
    lemma_collection_digits(0);
    law_prefixed_hex(bytes);
    law_prefixed_hex_injective(address, bytes);
    assert forall|i: int| 0 <= i < 42 implies text[i] == expected[i] by {
        if i < 2 {
            reveal_strlit("0xBC4CA0EdA7647A8aB7C2061c2E118A18a936f13D");
        } else {
            let k = (i - 2) / 2;
            lemma_collection_digits(k);
            assert(bytes[k] == bytes[k]);
        }
    }
    assert(text =~= expected);
}

/// A transfer is handed on as its entry tells it.
proof fn lemma_transfer_told(entry: Entry, parameters: EventView)
    requires
        readable_transfer()(entry),
        event(entry.1, transfer_kind()) == Some(parameters),
    ensures
        tells_transfer(transfer_view(entry.0, parameters), entry),
{
    law_transfer_event(entry.1);
    law_prefixed_hex(parameters.first);
    law_prefixed_hex(parameters.second);
    law_prefixed_hex(entry.0);
    law_decimal(big_endian(parameters.token_id));
}

/// An approval is handed on as its entry tells it.
proof fn lemma_approval_told(entry: Entry, parameters: EventView)
    requires
        readable_approval()(entry),
        event(entry.1, approval_kind()) == Some(parameters),
    ensures
        tells_approval(approval_view(entry.0, parameters), entry),
{
    law_approval_event(entry.1);
    law_prefixed_hex(parameters.first);
    law_prefixed_hex(parameters.second);
    law_prefixed_hex(entry.0);
    law_decimal(big_endian(parameters.token_id));
}

/// Every entry that is a transfer and can be read is handed on, once and in order, and nothing
/// else is. Each that cannot be read is complained of, once and in order.
pub proof fn law_transfers_complete(logs: Seq<Entry>)
    ensures
        transfers_in(logs).len() == logs.filter(readable_transfer()).len(),
        forall|n: int|
            0 <= n < transfers_in(logs).len() ==> tells_transfer(
                #[trigger] transfers_in(logs)[n],
                logs.filter(readable_transfer())[n],
            ),
        transfer_lines(logs).len() == logs.filter(unreadable_transfer()).len(),
        forall|n: int|
            0 <= n < transfer_lines(logs).len() ==> #[trigger] transfer_lines(logs)[n]
                == transfer_complaint(logs.filter(unreadable_transfer())[n].1),
    decreases logs.len(),
{
    reveal(Seq::filter);
    if logs.len() > 0 {
        let front = logs.drop_last();
        let last = logs.last();
        law_transfers_complete(front);
        law_transfer_event(last.1);
        if readable_transfer()(last) {
            let parameters = event(last.1, transfer_kind())->0;
            lemma_transfer_told(last, parameters);
        }
        assert forall|n: int| 0 <= n < transfers_in(logs).len() implies tells_transfer(
            #[trigger] transfers_in(logs)[n],
            logs.filter(readable_transfer())[n],
        ) by {
            if n < transfers_in(front).len() {
                assert(transfers_in(logs)[n] == transfers_in(front)[n]);
            }
        }
        assert forall|n: int| 0 <= n < transfer_lines(logs).len() implies #[trigger] transfer_lines(
            logs,
        )[n] == transfer_complaint(logs.filter(unreadable_transfer())[n].1) by {
            if n < transfer_lines(front).len() {
                assert(transfer_lines(logs)[n] == transfer_lines(front)[n]);
            }
        }
    }
}

/// Every entry of the collection that is an approval and can be read is handed on, once and in
/// order, and nothing else is. Each that cannot be read is complained of, once and in order.
pub proof fn law_approvals_complete(logs: Seq<Entry>)
    ensures
        approvals_in(logs).len() == logs.filter(readable_approval()).len(),
        forall|n: int|
            0 <= n < approvals_in(logs).len() ==> tells_approval(
                #[trigger] approvals_in(logs)[n],
                logs.filter(readable_approval())[n],
            ),
        approval_lines(logs).len() == logs.filter(unreadable_approval()).len(),
        forall|n: int|
            0 <= n < approval_lines(logs).len() ==> #[trigger] approval_lines(logs)[n]
                == approval_complaint(logs.filter(unreadable_approval())[n].1),
    decreases logs.len(),
{
    reveal(Seq::filter);
    if logs.len() > 0 {
        let front = logs.drop_last();
        let last = logs.last();
        law_approvals_complete(front);
        law_approval_event(last.1);
        law_collection_address(last.1.address@);
        if readable_approval()(last) {
            let parameters = event(last.1, approval_kind())->0;
            lemma_approval_told(last, parameters);
        }
        assert forall|n: int| 0 <= n < approvals_in(logs).len() implies tells_approval(
            #[trigger] approvals_in(logs)[n],
            logs.filter(readable_approval())[n],
        ) by {
            if n < approvals_in(front).len() {
                assert(approvals_in(logs)[n] == approvals_in(front)[n]);
            }
        }
        assert forall|n: int| 0 <= n < approval_lines(logs).len() implies #[trigger] approval_lines(
            logs,
        )[n] == approval_complaint(logs.filter(unreadable_approval())[n].1) by {
            if n < approval_lines(front).len() {
                assert(approval_lines(logs)[n] == approval_lines(front)[n]);
            }
        }
    }
}

/// The log of a block holds every entry of every transaction with status 1, each with the hash of
/// its transaction, and no entry of any other transaction. Where in the log it stands is how many
/// entries the transactions before it left.
pub proof fn law_block_logs(traces: Seq<TransactionTrace>, i: int)
    requires
        0 <= i < traces.len(),
    ensures
        traces[i].status != 1 ==> block_logs(traces.take(i + 1)) == block_logs(traces.take(i)),
        traces[i].status == 1 ==> {
            let before = block_logs(traces.take(i)).len();
            let own = traces[i].receipt->0.logs@;
            &&& block_logs(traces.take(i + 1)).len() == before + own.len()
            &&& forall|j: int|
                0 <= j < own.len() ==> block_logs(traces)[before + j] == (
                    traces[i].hash@,
                    #[trigger] own[j],
                )
        },
        block_logs(traces.take(0)).len() == 0,
        block_logs(traces.take(i)) == block_logs(traces).take(
            block_logs(traces.take(i)).len() as int,
        ),
        block_logs(traces.take(i + 1)).len() <= block_logs(traces).len(),
    decreases traces.len(),
{
    let front = traces.drop_last();
    if i == traces.len() - 1 {
        assert(traces.take(i + 1) =~= traces);
        assert(traces.take(i) =~= front);
        assert(block_logs(traces.take(i)) =~= block_logs(traces).take(
            block_logs(traces.take(i)).len() as int,
        ));
    } else {
        law_block_logs(front, i);
        assert(front.take(i + 1) =~= traces.take(i + 1));
        assert(front.take(i) =~= traces.take(i));
        assert(block_logs(traces).take(block_logs(front).len() as int) =~= block_logs(front));
        assert(block_logs(traces.take(i)) =~= block_logs(traces).take(
            block_logs(traces.take(i)).len() as int,
        ));
    }
}

/// A block can be read unless a transaction with status 1 has no receipt.
pub proof fn law_receipts(traces: Seq<TransactionTrace>)
    ensures
        !receipts_present(traces) <==> exists|i: int|
            0 <= i < traces.len() && (#[trigger] traces[i]).status == 1
                && traces[i].receipt is None,
{
    if !receipts_present(traces) {
        let i = choose|i: int|
            0 <= i < traces.len() && (#[trigger] traces[i]).status == 1 && !(
            traces[i].receipt is Some);
        assert(traces[i].receipt is None);
    }
}

/// Events are seen by their fields: the two addresses in order, and the token.
pub proof fn law_event_fields(transfer: TransferEvent, approval: ApprovalEvent)
    ensures
        transfer@.first == transfer.from@,
        transfer@.second == transfer.to@,
        transfer@.token_id == transfer.token_id@,
        approval@.first == approval.owner@,
        approval@.second == approval.approved@,
        approval@.token_id == approval.token_id@,
{
}

/// Views of log entries stand for the entries and the hashes of their transactions.
pub proof fn law_viewed(views: Seq<LogView>)
    ensures
        viewed(views).len() == views.len(),
        forall|i: int|
            0 <= i < views.len() ==> #[trigger] viewed(views)[i] == (
                views[i].transaction.hash@,
                *views[i].log,
            ),
{
}

} // verus!
