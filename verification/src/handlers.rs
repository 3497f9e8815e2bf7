//! The handlers: what is made of a block, and of what other handlers made of it.

use crate::abi::{
    approval_kind, event, event_lines, transfer_kind, word_decimal, ApprovalEvent, EventView,
    TransferEvent,
};
use crate::block::{block_logs, receipts_present, viewed, Block, Log};
use crate::changes::{
    accepts_approvals, accepts_transfers, after_approvals, after_transfers,
    approvals_to_table_changes, created, format_hex, law_approvals_accepted_after_transfers,
    lemma_table_names, prefixed_hex, transfers_to_table_changes,
};
use crate::contract::{process_contracts, process_contracts_within, processed_all};
use crate::creations::{block_complete, block_creations, contract_creations, creations_complete};
use crate::event_laws::{
    law_approvals_complete, law_transfers_complete, readable_approval, readable_transfer,
    tells_approval, tells_transfer,
};
use crate::schema::{
    Approval, ApprovalView, Approvals, Clock, Contracts, Transfer, TransferView, Transfers,
};
use crate::tables::{
    change_list, create_row, no_rows, reports, table_rows, to_entity_changes, Rows,
};
use crate::text::{big_endian, decimal, lines, log_line, lower};
use crate::{ADDRESS, START_BLOCK};
use substreams::errors::Error;
use substreams_entity_change::pb::entity::EntityChanges;
use substreams_entity_change::tables::Tables;
use vstd::prelude::*;

verus! {

/// The error of a handler. None of the handlers here makes one.
#[verifier::external_type_specification]
#[verifier::external_body]
pub struct ExError(substreams::errors::Error);

/// A transfer as it is handed on.
pub open spec fn transfer_view(hash: Seq<u8>, parameters: EventView) -> TransferView {
    TransferView {
        from: prefixed_hex(parameters.first),
        to: prefixed_hex(parameters.second),
        token_id: decimal(big_endian(parameters.token_id)),
        tx_hash: prefixed_hex(hash),
        token_name: seq![],
        token_symbol: seq![],
        token_uri: seq![],
    }
}

/// The transfers among log entries, in order. Each entry comes with its transaction's hash.
pub open spec fn transfers_in(logs: Seq<(Seq<u8>, Log)>) -> Seq<TransferView>
    decreases logs.len(),
{
    if logs.len() == 0 {
        seq![]
    } else {
        let earlier = transfers_in(logs.drop_last());
        match event(logs.last().1, transfer_kind()) {
            Some(parameters) => earlier.push(transfer_view(logs.last().0, parameters)),
            None => earlier,
        }
    }
}

/// What is logged of the transfers among log entries: a line for each that cannot be read.
pub open spec fn transfer_lines(logs: Seq<(Seq<u8>, Log)>) -> Seq<Seq<char>>
    decreases logs.len(),
{
    if logs.len() == 0 {
        seq![]
    } else {
        transfer_lines(logs.drop_last()) + event_lines(logs.last().1, transfer_kind())
    }
}

/// An approval as it is handed on.
pub open spec fn approval_view(hash: Seq<u8>, parameters: EventView) -> ApprovalView {
    ApprovalView {
        owner: prefixed_hex(parameters.first),
        approved: prefixed_hex(parameters.second),
        token_id: decimal(big_endian(parameters.token_id)),
        tx_hash: prefixed_hex(hash),
        token_name: seq![],
        token_symbol: seq![],
        token_uri: seq![],
    }
}

/// Whether `address` is that of the collection. Its text is written in mixed case.
pub open spec fn is_collection(address: Seq<u8>) -> bool {
    prefixed_hex(address) == ADDRESS@.map_values(|c: char| lower(c))
}

/// The collection's approvals among log entries, in order. Each entry comes with its
/// transaction's hash.
pub open spec fn approvals_in(logs: Seq<(Seq<u8>, Log)>) -> Seq<ApprovalView>
    decreases logs.len(),
{
    if logs.len() == 0 {
        seq![]
    } else {
        let earlier = approvals_in(logs.drop_last());
        match event(logs.last().1, approval_kind()) {
            Some(parameters) if is_collection(logs.last().1.address@) => earlier.push(
                approval_view(logs.last().0, parameters),
            ),
            _ => earlier,
        }
    }
}

/// What is logged of the collection's approvals among log entries: a line for each that cannot
/// be read.
pub open spec fn approval_lines(logs: Seq<(Seq<u8>, Log)>) -> Seq<Seq<char>>
    decreases logs.len(),
{
    if logs.len() == 0 {
        seq![]
    } else {
        let earlier = approval_lines(logs.drop_last());
        if is_collection(logs.last().1.address@) {
            earlier + event_lines(logs.last().1, approval_kind())
        } else {
            earlier
        }
    }
}

/// The table changes that block `number` starts with: the first one creates the collection.
pub open spec fn opening_rows(number: u64) -> Rows {
    if number == START_BLOCK {
        created(no_rows(), "Collection"@, ADDRESS@)
    } else {
        no_rows()
    }
}

/// All the table changes of a block.
pub open spec fn graph_rows(
    number: u64,
    transfers: Seq<TransferView>,
    approvals: Seq<ApprovalView>,
) -> Rows {
    after_approvals(after_transfers(opening_rows(number), transfers), approvals)
}

/// The ASCII lower-case form of a character.
fn lower_char(c: char) -> (r: char)
    ensures
        r == lower(c),
{
    if 'A' <= c && c <= 'Z' {
        (c as u8 + 32) as char
    } else {
        c
    }
}

/// Tells whether `address` is that of the collection.
pub fn from_collection(address: &[u8]) -> (r: bool)
    ensures
        r == is_collection(address@),
{
    let text = format_hex(address);
    let text = text.as_str();
    let ghost expected = ADDRESS@.map_values(|c: char| lower(c));
    let length: usize = text.unicode_len();
    if length != ADDRESS.unicode_len() {
        assert(text@.len() != expected.len());
        return false;
    }
    let mut i: usize = 0;
    while i < length
        invariant
            i <= length,
            length == text@.len(),
            length == ADDRESS@.len(),
            expected == ADDRESS@.map_values(|c: char| lower(c)),
            text@ == prefixed_hex(address@),
            forall|j: int| 0 <= j < i ==> text@[j] == expected[j],
        decreases length - i,
    {
        if text.get_char(i) != lower_char(ADDRESS.get_char(i)) {
            assert(text@[i as int] != expected[i as int]);
            return false;
        }
        i = i + 1;
    }
    assert(text@ =~= expected);
    true
}

/// The transfers of tokens in a block, of whatever contract. Those that cannot be read are told of
/// in `log`.
pub fn map_transfers(block: Block, log: &mut Vec<String>) -> (r: Result<Transfers, Error>)
    requires
        receipts_present(block.transaction_traces@),
    ensures
        r matches Ok(found) && found@ == transfers_in(block_logs(block.transaction_traces@)),
        lines(final(log)@) == lines(old(log)@) + transfer_lines(
            block_logs(block.transaction_traces@),
        ),
        r matches Ok(found) && found@.len() == block_logs(block.transaction_traces@).filter(
            readable_transfer(),
        ).len(),
        r matches Ok(found) && forall|n: int|
            0 <= n < found@.len() ==> tells_transfer(
                #[trigger] found@[n],
                block_logs(block.transaction_traces@).filter(readable_transfer())[n],
            ),
{
    let logs = block.logs();
    let ghost entries = viewed(logs@);
    let mut transfers: Vec<Transfer> = Vec::new();
    let mut i: usize = 0;
    assert((Transfers { transfers })@ =~= transfers_in(entries.take(0)));
    assert(lines(log@) =~= lines(old(log)@) + transfer_lines(entries.take(0)));
    while i < logs.len()
        invariant
            i <= logs.len(),
            entries == viewed(logs@),
            transfers@.map_values(|t: Transfer| t@) == transfers_in(entries.take(i as int)),
            lines(log@) == lines(old(log)@) + transfer_lines(entries.take(i as int)),
        decreases logs.len() - i,
    {
        let ghost before = transfers@.map_values(|t: Transfer| t@);
        proof {
            assert(entries.take(i + 1).drop_last() =~= entries.take(i as int));
            assert(entries[i as int] == (logs@[i as int].transaction.hash@, *logs@[i as int].log));
        }
        if let Some(found) = TransferEvent::match_and_decode(logs[i].log, log) {
            let transfer = Transfer {
                from: format_hex(found.from.as_slice()),
                to: format_hex(found.to.as_slice()),
                token_id: word_decimal(&found.token_id),
                tx_hash: format_hex(logs[i].transaction.hash.as_slice()),
                token_name: String::new(),
                token_symbol: String::new(),
                token_uri: String::new(),
            };
            transfers.push(transfer);
            assert(transfers@.map_values(|t: Transfer| t@) =~= before.push(transfer@));
        }
        assert(lines(log@) =~= lines(old(log)@) + transfer_lines(entries.take(i + 1)));
        i = i + 1;
    }
    assert(entries.take(i as int) =~= entries);
    proof {
        law_transfers_complete(entries);
    }
    Ok(Transfers { transfers })
}

/// The approvals that a block holds for tokens of the collection. Those that cannot be read are
/// told of in `log`.
pub fn map_approvals(block: Block, log: &mut Vec<String>) -> (r: Result<Approvals, Error>)
    requires
        receipts_present(block.transaction_traces@),
    ensures
        r matches Ok(found) && found@ == approvals_in(block_logs(block.transaction_traces@)),
        lines(final(log)@) == lines(old(log)@) + approval_lines(
            block_logs(block.transaction_traces@),
        ),
        r matches Ok(found) && found@.len() == block_logs(block.transaction_traces@).filter(
            readable_approval(),
        ).len(),
        r matches Ok(found) && forall|n: int|
            0 <= n < found@.len() ==> tells_approval(
                #[trigger] found@[n],
                block_logs(block.transaction_traces@).filter(readable_approval())[n],
            ),
{
    let logs = block.logs();
    let ghost entries = viewed(logs@);
    let mut approvals: Vec<Approval> = Vec::new();
    let mut i: usize = 0;
    assert((Approvals { approvals })@ =~= approvals_in(entries.take(0)));
    assert(lines(log@) =~= lines(old(log)@) + approval_lines(entries.take(0)));
    while i < logs.len()
        invariant
            i <= logs.len(),
            entries == viewed(logs@),
            approvals@.map_values(|a: Approval| a@) == approvals_in(entries.take(i as int)),
            lines(log@) == lines(old(log)@) + approval_lines(entries.take(i as int)),
        decreases logs.len() - i,
    {
        let ghost before = approvals@.map_values(|a: Approval| a@);
        proof {
            assert(entries.take(i + 1).drop_last() =~= entries.take(i as int));
            assert(entries[i as int] == (logs@[i as int].transaction.hash@, *logs@[i as int].log));
        }
        if from_collection(logs[i].log.address.as_slice()) {
            if let Some(found) = ApprovalEvent::match_and_decode(logs[i].log, log) {
                let approval = Approval {
                    owner: format_hex(found.owner.as_slice()),
                    approved: format_hex(found.approved.as_slice()),
                    token_id: word_decimal(&found.token_id),
                    tx_hash: format_hex(logs[i].transaction.hash.as_slice()),
                    token_name: String::new(),
                    token_symbol: String::new(),
                    token_uri: String::new(),
                };
                approvals.push(approval);
                assert(approvals@.map_values(|a: Approval| a@) =~= before.push(approval@));
            }
        }
        assert(lines(log@) =~= lines(old(log)@) + approval_lines(entries.take(i + 1)));
        i = i + 1;
    }
    assert(entries.take(i as int) =~= entries);
    proof {
        law_approvals_complete(entries);
    }
    Ok(Approvals { approvals })
}

/// Nothing stands against the changes of any transfers and approvals at the start of a block, nor
/// against those of the approvals once the transfers are done.
pub proof fn law_graph_accepted(
    number: u64,
    transfers: Seq<TransferView>,
    approvals: Seq<ApprovalView>,
)
    ensures
        accepts_transfers(opening_rows(number), transfers),
        accepts_approvals(after_transfers(opening_rows(number), transfers), approvals),
{
    lemma_table_names();
    law_approvals_accepted_after_transfers(opening_rows(number), transfers, approvals);
}

/// The changes that a block makes to the tables of the collection.
pub fn graph_out(clock: Clock, transfers: Transfers, approvals: Approvals) -> (r: Result<
    EntityChanges,
    Error,
>)
    ensures
        r matches Ok(changes) && reports(
            change_list(changes),
            graph_rows(clock.number, transfers@, approvals@),
        ),
{
    proof {
        law_graph_accepted(clock.number, transfers@, approvals@);
    }
    let mut tables = Tables::new();
    if clock.number == START_BLOCK {
        create_row(&mut tables, "Collection", ADDRESS);
    }
    assert(table_rows(tables) == opening_rows(clock.number));
    transfers_to_table_changes(&mut tables, &transfers);
    approvals_to_table_changes(&mut tables, &approvals);
    Ok(to_entity_changes(tables))
}

/// What is logged when a block is looked through for contracts.
pub open spec fn blocks_line(params: Seq<char>) -> Seq<char> {
    "map_blocks: "@ + params
}

/// What the contracts that a block creates say of themselves.
///
/// The block has to tell the code of each, and each has to answer: see [`map_blocks_within`]
/// where that is not known.
pub fn map_blocks(params: String, blk: Block, log: &mut Vec<String>) -> (r: Result<
    Contracts,
    Error,
>)
    requires
        block_complete(blk.transaction_traces@),
        exists|limit: nat|
            processed_all(block_creations(blk.transaction_traces@), limit) is Some,
    ensures
        r is Ok,
        forall|limit: nat|
            #![trigger processed_all(block_creations(blk.transaction_traces@), limit)]
            processed_all(block_creations(blk.transaction_traces@), limit) matches Some(p) ==> {
                &&& r->Ok_0@ == p.contracts
                &&& lines(final(log)@) == lines(old(log)@).push(blocks_line(params@)) + p.log
            },
{
    let mut line = "map_blocks: ".to_owned();
    line.append(params.as_str());
    log_line(log, line);
    let creations = contract_creations(&blk);
    Ok(Contracts { contracts: process_contracts(creations, log) })
}

/// Does what [`map_blocks`] does if the block tells the code of each contract that it creates and
/// each answers, within `limit` instructions for each question. Otherwise it gives nothing and
/// logs nothing.
pub fn map_blocks_within(params: String, blk: Block, limit: u64, log: &mut Vec<String>) -> (r:
    Option<Result<Contracts, Error>>)
    ensures
        match r {
            Some(result) => {
                &&& block_complete(blk.transaction_traces@)
                &&& processed_all(
                    block_creations(blk.transaction_traces@),
                    limit as nat,
                ) matches Some(p)
                &&& result matches Ok(found)
                &&& found@ == p.contracts
                &&& lines(final(log)@) == lines(old(log)@).push(blocks_line(params@)) + p.log
            },
            None => {
                &&& final(log)@ == old(log)@
                &&& !block_complete(blk.transaction_traces@) || processed_all(
                    block_creations(blk.transaction_traces@),
                    limit as nat,
                ) is None
            },
        },
{
    if !creations_complete(&blk) {
        return None;
    }
    let mut line = "map_blocks: ".to_owned();
    line.append(params.as_str());
    let mut told: Vec<String> = Vec::new();
    match process_contracts_within(contract_creations(&blk), limit, &mut told) {
        Some(contracts) => {
            let ghost all = lines(told@);
            log_line(log, line);
            let ghost opened = lines(log@);
            log.append(&mut told);
            assert(lines(log@) =~= opened + all);
            Some(Ok(Contracts { contracts }))
        },
        None => None,
    }
}

} // verus!
