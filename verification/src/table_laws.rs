//! What holds of the table changes as a whole.

use crate::changes::{
    accepts_approvals, accepts_transfers, after_approval, after_approvals, after_transfer,
    after_transfers, lemma_table_names, with_columns,
};
use crate::handlers::{graph_rows, opening_rows};
use crate::schema::{ApprovalView, TransferView};
use crate::tables::{
    for_creation, for_update, reports, row_at, tells_row, Change, Columns,
    Operation, RowChange, Rows, Value,
};
use crate::{ADDRESS, START_BLOCK};
use vstd::prelude::*;

verus! {

/// The columns that a transfer writes to a row, if it names the row.
pub open spec fn transfer_touch(
    transfer: TransferView,
    table: Seq<char>,
    key: Seq<char>,
) -> Option<Columns> {
    if table == "Transfer"@ && key == transfer.tx_hash + "-"@ + transfer.token_id {
        Some(
            map![
                "from"@ => Value::Text(transfer.from),
                "to"@ => Value::Text(transfer.to),
                "tokenId"@ => Value::Text(transfer.token_id)
            ],
        )
    } else if table == "Account"@ && (key == transfer.from || key == transfer.to) {
        Some(Map::empty())
    } else if table == "Token"@ && key == transfer.token_id {
        Some(
            map!["collection"@ => Value::Text(ADDRESS@), "owner"@ => Value::Text(transfer.to)],
        )
    } else {
        None
    }
}

/// The columns that the last transfer to name a row writes to it, if one names it.
pub open spec fn last_transfer_touch(
    transfers: Seq<TransferView>,
    table: Seq<char>,
    key: Seq<char>,
) -> Option<Columns>
    decreases transfers.len(),
{
    if transfers.len() == 0 {
        None
    } else {
        match transfer_touch(transfers.last(), table, key) {
            Some(columns) => Some(columns),
            None => last_transfer_touch(transfers.drop_last(), table, key),
        }
    }
}

/// The columns that an approval writes to a row, if it names the row.
pub open spec fn approval_touch(
    approval: ApprovalView,
    table: Seq<char>,
    key: Seq<char>,
) -> Option<Columns> {
    if table == "Approval"@ && key == approval.tx_hash + "-"@ + approval.token_id {
        Some(
            map![
                "owner"@ => Value::Text(approval.owner),
                "approved"@ => Value::Text(approval.approved),
                "tokenId"@ => Value::Text(approval.token_id)
            ],
        )
    } else if table == "Account"@ && (key == approval.owner || key == approval.approved) {
        Some(Map::empty())
    } else {
        None
    }
}

/// The columns that the last approval to name a row writes to it, if one names it.
pub open spec fn last_approval_touch(
    approvals: Seq<ApprovalView>,
    table: Seq<char>,
    key: Seq<char>,
) -> Option<Columns>
    decreases approvals.len(),
{
    if approvals.len() == 0 {
        None
    } else {
        match approval_touch(approvals.last(), table, key) {
            Some(columns) => Some(columns),
            None => last_approval_touch(approvals.drop_last(), table, key),
        }
    }
}

/// A row of `table` once it was named: accounts are created, everything else is updated.
pub open spec fn named(table: Seq<char>, row: RowChange) -> RowChange {
    if table == "Account"@ {
        for_creation(row)
    } else {
        for_update(row)
    }
}

/// A row of `table` after it was named and given new columns, or as it was.
pub open spec fn touched(table: Seq<char>, row: RowChange, touch: Option<Columns>) -> RowChange {
    match touch {
        Some(columns) => with_columns(named(table, row), columns),
        None => row,
    }
}

/// What one transfer makes of a row.
proof fn lemma_transfer_row(rows: Rows, transfer: TransferView, table: Seq<char>, key: Seq<char>)
    ensures
        row_at(after_transfer(rows, transfer), table, key) == touched(
            table,
            row_at(rows, table, key),
            transfer_touch(transfer, table, key),
        ),
        after_transfer(rows, transfer).contains_key((table, key)) == (rows.contains_key(
            (table, key),
        ) || transfer_touch(transfer, table, key) is Some),
{
    lemma_table_names();
    let row = row_at(rows, table, key);
    assert(with_columns(named(table, row), Map::empty()).columns =~= named(table, row).columns);
}

/// What one approval makes of a row.
proof fn lemma_approval_row(rows: Rows, approval: ApprovalView, table: Seq<char>, key: Seq<char>)
    ensures
        row_at(after_approval(rows, approval), table, key) == touched(
            table,
            row_at(rows, table, key),
            approval_touch(approval, table, key),
        ),
        after_approval(rows, approval).contains_key((table, key)) == (rows.contains_key(
            (table, key),
        ) || approval_touch(approval, table, key) is Some),
{
    lemma_table_names();
    let row = row_at(rows, table, key);
    assert(with_columns(named(table, row), Map::empty()).columns =~= named(table, row).columns);
}

/// Two transfers that name the same row write the same columns of it.
proof fn lemma_transfer_touch_columns(
    a: TransferView,
    b: TransferView,
    table: Seq<char>,
    key: Seq<char>,
)
    requires
        transfer_touch(a, table, key) is Some,
        transfer_touch(b, table, key) is Some,
    ensures
        transfer_touch(a, table, key)->0.dom() == transfer_touch(b, table, key)->0.dom(),
{
    lemma_table_names();
    let (x, y) = (transfer_touch(a, table, key)->0, transfer_touch(b, table, key)->0);
    assert(x.dom() =~= y.dom());
}

/// Two approvals that name the same row write the same columns of it.
proof fn lemma_approval_touch_columns(
    a: ApprovalView,
    b: ApprovalView,
    table: Seq<char>,
    key: Seq<char>,
)
    requires
        approval_touch(a, table, key) is Some,
        approval_touch(b, table, key) is Some,
    ensures
        approval_touch(a, table, key)->0.dom() == approval_touch(b, table, key)->0.dom(),
{
    lemma_table_names();
    let (x, y) = (approval_touch(a, table, key)->0, approval_touch(b, table, key)->0);
    assert(x.dom() =~= y.dom());
}

/// The last touch is that of one of the transfers.
proof fn lemma_last_transfer_touch(transfers: Seq<TransferView>, table: Seq<char>, key: Seq<char>)
    requires
        last_transfer_touch(transfers, table, key) is Some,
    ensures
        exists|i: int|
            0 <= i < transfers.len() && last_transfer_touch(transfers, table, key)
                == #[trigger] transfer_touch(transfers[i], table, key),
    decreases transfers.len(),
{
    if transfer_touch(transfers.last(), table, key) is Some {
        let i = transfers.len() - 1;
        assert(last_transfer_touch(transfers, table, key) == transfer_touch(
            transfers[i],
            table,
            key,
        ));
    } else {
        let front = transfers.drop_last();
        lemma_last_transfer_touch(front, table, key);
        let i = choose|i: int|
            0 <= i < front.len() && last_transfer_touch(front, table, key)
                == #[trigger] transfer_touch(front[i], table, key);
        assert(last_transfer_touch(transfers, table, key) == transfer_touch(
            transfers[i],
            table,
            key,
        ));
    }
}

/// The last touch is that of one of the approvals.
proof fn lemma_last_approval_touch(approvals: Seq<ApprovalView>, table: Seq<char>, key: Seq<char>)
    requires
        last_approval_touch(approvals, table, key) is Some,
    ensures
        exists|i: int|
            0 <= i < approvals.len() && last_approval_touch(approvals, table, key)
                == #[trigger] approval_touch(approvals[i], table, key),
    decreases approvals.len(),
{
    if approval_touch(approvals.last(), table, key) is Some {
        let i = approvals.len() - 1;
        assert(last_approval_touch(approvals, table, key) == approval_touch(
            approvals[i],
            table,
            key,
        ));
    } else {
        let front = approvals.drop_last();
        lemma_last_approval_touch(front, table, key);
        let i = choose|i: int|
            0 <= i < front.len() && last_approval_touch(front, table, key)
                == #[trigger] approval_touch(front[i], table, key);
        assert(last_approval_touch(approvals, table, key) == approval_touch(
            approvals[i],
            table,
            key,
        ));
    }
}

/// Naming a row twice is naming it once, and of columns written twice the second value stays.
proof fn lemma_touched_again(table: Seq<char>, row: RowChange, first: Columns, second: Columns)
    requires
        first.dom() == second.dom(),
    ensures
        touched(table, touched(table, row, Some(first)), Some(second)) == touched(
            table,
            row,
            Some(second),
        ),
{
    let twice = touched(table, touched(table, row, Some(first)), Some(second));
    let once = touched(table, row, Some(second));
    assert(twice.columns =~= once.columns);
}

/// What transfers make of a row: it is as it was, unless one of them names it; then it is named,
/// and its columns are what the last of those says.
pub proof fn law_row_after_transfers(
    rows: Rows,
    transfers: Seq<TransferView>,
    table: Seq<char>,
    key: Seq<char>,
)
    ensures
        row_at(after_transfers(rows, transfers), table, key) == touched(
            table,
            row_at(rows, table, key),
            last_transfer_touch(transfers, table, key),
        ),
        after_transfers(rows, transfers).contains_key((table, key)) == (rows.contains_key(
            (table, key),
        ) || last_transfer_touch(transfers, table, key) is Some),
    decreases transfers.len(),
{
    if transfers.len() > 0 {
        let front = transfers.drop_last();
        law_row_after_transfers(rows, front, table, key);
        lemma_transfer_row(after_transfers(rows, front), transfers.last(), table, key);
        let earlier = last_transfer_touch(front, table, key);
        let latest = transfer_touch(transfers.last(), table, key);
        if earlier is Some && latest is Some {
            lemma_last_transfer_touch(front, table, key);
            let i = choose|i: int|
                0 <= i < front.len() && earlier == #[trigger] transfer_touch(front[i], table, key);
            lemma_transfer_touch_columns(front[i], transfers.last(), table, key);
            lemma_touched_again(table, row_at(rows, table, key), earlier->0, latest->0);
        }
    }
}

/// What approvals make of a row: it is as it was, unless one of them names it; then it is named,
/// and its columns are what the last of those says.
pub proof fn law_row_after_approvals(
    rows: Rows,
    approvals: Seq<ApprovalView>,
    table: Seq<char>,
    key: Seq<char>,
)
    ensures
        row_at(after_approvals(rows, approvals), table, key) == touched(
            table,
            row_at(rows, table, key),
            last_approval_touch(approvals, table, key),
        ),
        after_approvals(rows, approvals).contains_key((table, key)) == (rows.contains_key(
            (table, key),
        ) || last_approval_touch(approvals, table, key) is Some),
    decreases approvals.len(),
{
    if approvals.len() > 0 {
        let front = approvals.drop_last();
        law_row_after_approvals(rows, front, table, key);
        lemma_approval_row(after_approvals(rows, front), approvals.last(), table, key);
        let earlier = last_approval_touch(front, table, key);
        let latest = approval_touch(approvals.last(), table, key);
        if earlier is Some && latest is Some {
            lemma_last_approval_touch(front, table, key);
            let i = choose|i: int|
                0 <= i < front.len() && earlier == #[trigger] approval_touch(front[i], table, key);
            lemma_approval_touch_columns(front[i], approvals.last(), table, key);
            lemma_touched_again(table, row_at(rows, table, key), earlier->0, latest->0);
        }
    }
}

/// Table changes with the same rows are the same.
proof fn lemma_same_rows(a: Rows, b: Rows)
    requires
        forall|table: Seq<char>, key: Seq<char>|
            a.contains_key((table, key)) == #[trigger] b.contains_key((table, key)) && row_at(
                a,
                table,
                key,
            ) == row_at(b, table, key),
    ensures
        a == b,
{
    assert forall|k: (Seq<char>, Seq<char>)| a.dom().contains(k) == b.dom().contains(k) by {
        assert(b.contains_key((k.0, k.1)) == a.contains_key((k.0, k.1)));
    }
    assert(a.dom() =~= b.dom());
    assert forall|k: (Seq<char>, Seq<char>)| a.dom().contains(k) implies a[k] == b[k] by {
        assert(b.contains_key((k.0, k.1)));
        assert(row_at(a, k.0, k.1) == row_at(b, k.0, k.1));
    }
    assert(a =~= b);
}

/// Adding the changes of the same transfers a second time changes nothing.
pub proof fn law_transfers_idempotent(rows: Rows, transfers: Seq<TransferView>)
    ensures
        after_transfers(after_transfers(rows, transfers), transfers) == after_transfers(
            rows,
            transfers,
        ),
{
    let once = after_transfers(rows, transfers);
    let twice = after_transfers(once, transfers);
    assert forall|table: Seq<char>, key: Seq<char>|
        twice.contains_key((table, key)) == #[trigger] once.contains_key((table, key)) && row_at(
            twice,
            table,
            key,
        ) == row_at(once, table, key) by {
        law_row_after_transfers(rows, transfers, table, key);
        law_row_after_transfers(once, transfers, table, key);
        let touch = last_transfer_touch(transfers, table, key);
        if touch is Some {
            lemma_touched_again(table, row_at(rows, table, key), touch->0, touch->0);
        }
    }
    lemma_same_rows(twice, once);
}

/// Adding the changes of the same approvals a second time changes nothing.
pub proof fn law_approvals_idempotent(rows: Rows, approvals: Seq<ApprovalView>)
    ensures
        after_approvals(after_approvals(rows, approvals), approvals) == after_approvals(
            rows,
            approvals,
        ),
{
    let once = after_approvals(rows, approvals);
    let twice = after_approvals(once, approvals);
    assert forall|table: Seq<char>, key: Seq<char>|
        twice.contains_key((table, key)) == #[trigger] once.contains_key((table, key)) && row_at(
            twice,
            table,
            key,
        ) == row_at(once, table, key) by {
        law_row_after_approvals(rows, approvals, table, key);
        law_row_after_approvals(once, approvals, table, key);
        let touch = last_approval_touch(approvals, table, key);
        if touch is Some {
            lemma_touched_again(table, row_at(rows, table, key), touch->0, touch->0);
        }
    }
    lemma_same_rows(twice, once);
}

/// It does not matter whether transfers or approvals come first.
pub proof fn law_transfers_approvals_commute(
    rows: Rows,
    transfers: Seq<TransferView>,
    approvals: Seq<ApprovalView>,
)
    ensures
        after_approvals(after_transfers(rows, transfers), approvals) == after_transfers(
            after_approvals(rows, approvals),
            transfers,
        ),
{
    let transfers_first = after_transfers(rows, transfers);
    let approvals_first = after_approvals(rows, approvals);
    let a = after_approvals(transfers_first, approvals);
    let b = after_transfers(approvals_first, transfers);
    assert forall|table: Seq<char>, key: Seq<char>|
        a.contains_key((table, key)) == #[trigger] b.contains_key((table, key)) && row_at(
            a,
            table,
            key,
        ) == row_at(b, table, key) by {
        law_row_after_transfers(rows, transfers, table, key);
        law_row_after_approvals(transfers_first, approvals, table, key);
        law_row_after_approvals(rows, approvals, table, key);
        law_row_after_transfers(approvals_first, transfers, table, key);
        let row = row_at(rows, table, key);
        let first = last_transfer_touch(transfers, table, key);
        let second = last_approval_touch(approvals, table, key);
        if first is Some && second is Some {
            lemma_last_transfer_touch(transfers, table, key);
            lemma_last_approval_touch(approvals, table, key);
            lemma_table_names();
            assert(table == "Account"@);
            assert(first->0 =~= second->0);
            lemma_touched_again(table, row, first->0, second->0);
            lemma_touched_again(table, row, second->0, first->0);
        }
    }
    lemma_same_rows(a, b);
}

/// Where no later transfer names a row, the last touch is that of the transfer at `i`.
proof fn lemma_last_transfer_touch_at(
    transfers: Seq<TransferView>,
    table: Seq<char>,
    key: Seq<char>,
    i: int,
)
    requires
        0 <= i < transfers.len(),
        transfer_touch(transfers[i], table, key) is Some,
        forall|j: int|
            i < j < transfers.len() ==> transfer_touch(#[trigger] transfers[j], table, key) is None,
    ensures
        last_transfer_touch(transfers, table, key) == transfer_touch(transfers[i], table, key),
    decreases transfers.len(),
{
    if i < transfers.len() - 1 {
        let front = transfers.drop_last();
        assert(transfers.last() == transfers[transfers.len() - 1]);
        assert forall|j: int| i < j < front.len() implies transfer_touch(
            #[trigger] front[j],
            table,
            key,
        ) is None by {
            assert(front[j] == transfers[j]);
        }
        lemma_last_transfer_touch_at(front, table, key, i);
    }
}

/// A row is touched if one of the transfers names it.
proof fn lemma_transfer_touches(
    transfers: Seq<TransferView>,
    table: Seq<char>,
    key: Seq<char>,
    i: int,
)
    requires
        0 <= i < transfers.len(),
        transfer_touch(transfers[i], table, key) is Some,
    ensures
        last_transfer_touch(transfers, table, key) is Some,
    decreases transfers.len(),
{
    if i < transfers.len() - 1 {
        lemma_transfer_touches(transfers.drop_last(), table, key, i);
    }
}

/// A row is touched if one of the approvals names it.
proof fn lemma_approval_touches(
    approvals: Seq<ApprovalView>,
    table: Seq<char>,
    key: Seq<char>,
    i: int,
)
    requires
        0 <= i < approvals.len(),
        approval_touch(approvals[i], table, key) is Some,
    ensures
        last_approval_touch(approvals, table, key) is Some,
    decreases approvals.len(),
{
    if i < approvals.len() - 1 {
        lemma_approval_touches(approvals.drop_last(), table, key, i);
    }
}

/// A token belongs to the receiver of its last transfer, and to the collection.
pub proof fn law_last_receiver_owns(rows: Rows, transfers: Seq<TransferView>, i: int)
    requires
        0 <= i < transfers.len(),
        forall|j: int|
            i < j < transfers.len() ==> (#[trigger] transfers[j]).token_id
                != transfers[i].token_id,
    ensures
        ({
            let row = row_at(after_transfers(rows, transfers), "Token"@, transfers[i].token_id);
            &&& row.columns.contains_key("owner"@)
            &&& row.columns["owner"@] == Value::Text(transfers[i].to)
            &&& row.columns.contains_key("collection"@)
            &&& row.columns["collection"@] == Value::Text(ADDRESS@)
        }),
{
    let key = transfers[i].token_id;
    lemma_table_names();
    lemma_last_transfer_touch_at(transfers, "Token"@, key, i);
    law_row_after_transfers(rows, transfers, "Token"@, key);
    reveal_strlit("owner");
    reveal_strlit("collection");
    assert("owner"@.len() != "collection"@.len());
}

/// Whether one of the transfers or approvals names a row.
pub open spec fn mentioned(
    transfers: Seq<TransferView>,
    approvals: Seq<ApprovalView>,
    table: Seq<char>,
    key: Seq<char>,
) -> bool {
    ||| exists|i: int|
        0 <= i < transfers.len() && transfer_touch(#[trigger] transfers[i], table, key) is Some
    ||| exists|i: int|
        0 <= i < approvals.len() && approval_touch(#[trigger] approvals[i], table, key) is Some
}

/// A block changes the rows that its transfers and approvals name and, if it is the first one,
/// that of the collection. It changes no others.
pub proof fn law_graph_changes(
    number: u64,
    transfers: Seq<TransferView>,
    approvals: Seq<ApprovalView>,
    table: Seq<char>,
    key: Seq<char>,
)
    ensures
        graph_rows(number, transfers, approvals).contains_key((table, key)) <==> mentioned(
            transfers,
            approvals,
            table,
            key,
        ) || (number == START_BLOCK && table == "Collection"@ && key == ADDRESS@),
{
    let middle = after_transfers(opening_rows(number), transfers);
    law_row_after_transfers(opening_rows(number), transfers, table, key);
    law_row_after_approvals(middle, approvals, table, key);
    if last_transfer_touch(transfers, table, key) is Some {
        lemma_last_transfer_touch(transfers, table, key);
    }
    if last_approval_touch(approvals, table, key) is Some {
        lemma_last_approval_touch(approvals, table, key);
    }
    if exists|i: int|
        0 <= i < transfers.len() && transfer_touch(#[trigger] transfers[i], table, key) is Some {
        let i = choose|i: int|
            0 <= i < transfers.len() && transfer_touch(#[trigger] transfers[i], table, key) is Some;
        lemma_transfer_touches(transfers, table, key, i);
    }
    if exists|i: int|
        0 <= i < approvals.len() && approval_touch(#[trigger] approvals[i], table, key) is Some {
        let i = choose|i: int|
            0 <= i < approvals.len() && approval_touch(#[trigger] approvals[i], table, key) is Some;
        lemma_approval_touches(approvals, table, key, i);
    }
}

/// A block creates accounts and the collection, and updates everything else. It deletes nothing
/// and marks nothing as final.
pub proof fn law_graph_operations(
    number: u64,
    transfers: Seq<TransferView>,
    approvals: Seq<ApprovalView>,
    table: Seq<char>,
    key: Seq<char>,
)
    requires
        graph_rows(number, transfers, approvals).contains_key((table, key)),
    ensures
        graph_rows(number, transfers, approvals)[(table, key)].operation == (if table == "Account"@
            || table == "Collection"@ {
            Operation::Create
        } else {
            Operation::Update
        }),
        !graph_rows(number, transfers, approvals)[(table, key)].finalized,
{
    lemma_table_names();
    let middle = after_transfers(opening_rows(number), transfers);
    law_row_after_transfers(opening_rows(number), transfers, table, key);
    law_row_after_approvals(middle, approvals, table, key);
    assert(row_at(graph_rows(number, transfers, approvals), table, key) == graph_rows(
        number,
        transfers,
        approvals,
    )[(table, key)]);
    if last_transfer_touch(transfers, table, key) is Some {
        lemma_last_transfer_touch(transfers, table, key);
    }
    if last_approval_touch(approvals, table, key) is Some {
        lemma_last_approval_touch(approvals, table, key);
    }
}

/// The list of a block's changes tells of each changed row once.
pub proof fn law_graph_reported_once(
    number: u64,
    transfers: Seq<TransferView>,
    approvals: Seq<ApprovalView>,
    changes: Seq<Change>,
)
    requires
        reports(changes, graph_rows(number, transfers, approvals)),
    ensures
        forall|i: int|
            0 <= i < changes.len() ==> tells_row(
                #[trigger] changes[i],
                graph_rows(number, transfers, approvals),
            ),
        forall|i: int, j: int|
            0 <= i < j < changes.len() ==> (#[trigger] changes[i]).table != (
            #[trigger] changes[j]).table || changes[i].key != changes[j].key,
        forall|table: Seq<char>, key: Seq<char>| #[trigger]
            graph_rows(number, transfers, approvals).contains_key((table, key)) ==> exists|i: int|
                0 <= i < changes.len() && (#[trigger] changes[i]).table == table && changes[i].key
                    == key,
{
    let rows = graph_rows(number, transfers, approvals);
    assert forall|i: int| 0 <= i < changes.len() implies tells_row(#[trigger] changes[i], rows)
        && !rows[(changes[i].table, changes[i].key)].finalized by {
        assert(rows.contains_key((changes[i].table, changes[i].key)));
        law_graph_operations(number, transfers, approvals, changes[i].table, changes[i].key);
    }
    assert forall|table: Seq<char>, key: Seq<char>| #[trigger]
        rows.contains_key((table, key)) implies exists|i: int|
        0 <= i < changes.len() && (#[trigger] changes[i]).table == table && changes[i].key
            == key by {
        law_graph_operations(number, transfers, approvals, table, key);
    }
}

/// Where no later approval names a row, the last touch is that of the approval at `i`.
proof fn lemma_last_approval_touch_at(
    approvals: Seq<ApprovalView>,
    table: Seq<char>,
    key: Seq<char>,
    i: int,
)
    requires
        0 <= i < approvals.len(),
        approval_touch(approvals[i], table, key) is Some,
        forall|j: int|
            i < j < approvals.len() ==> approval_touch(#[trigger] approvals[j], table, key) is None,
    ensures
        last_approval_touch(approvals, table, key) == approval_touch(approvals[i], table, key),
    decreases approvals.len(),
{
    if i < approvals.len() - 1 {
        let front = approvals.drop_last();
        assert(approvals.last() == approvals[approvals.len() - 1]);
        assert forall|j: int| i < j < front.len() implies approval_touch(
            #[trigger] front[j],
            table,
            key,
        ) is None by {
            assert(front[j] == approvals[j]);
        }
        lemma_last_approval_touch_at(front, table, key, i);
    }
}

/// The columns have different names.
proof fn lemma_column_names()
    ensures
        "from"@ != "to"@,
        "from"@ != "tokenId"@,
        "to"@ != "tokenId"@,
        "owner"@ != "approved"@,
        "owner"@ != "tokenId"@,
        "approved"@ != "tokenId"@,
        "owner"@ != "collection"@,
{
    reveal_strlit("from");
    reveal_strlit("to");
    reveal_strlit("tokenId");
    reveal_strlit("owner");
    reveal_strlit("approved");
    reveal_strlit("collection");
    assert("from"@.len() != "to"@.len());
    assert("from"@.len() != "tokenId"@.len());
    assert("to"@.len() != "tokenId"@.len());
    assert("owner"@.len() != "approved"@.len());
    assert("owner"@.len() != "tokenId"@.len());
    assert("approved"@.len() != "tokenId"@.len());
    assert("owner"@.len() != "collection"@.len());
}

/// The row of a transfer says from whom to whom which token went, in the words of the last transfer
/// of the same transaction and token. It has no other columns but those that it had before.
pub proof fn law_transfer_row(rows: Rows, transfers: Seq<TransferView>, i: int)
    requires
        0 <= i < transfers.len(),
        forall|j: int|
            i < j < transfers.len() ==> (#[trigger] transfers[j]).tx_hash + "-"@
                + transfers[j].token_id != transfers[i].tx_hash + "-"@ + transfers[i].token_id,
    ensures
        ({
            let key = transfers[i].tx_hash + "-"@ + transfers[i].token_id;
            let before = row_at(rows, "Transfer"@, key);
            let row = row_at(after_transfers(rows, transfers), "Transfer"@, key);
            &&& after_transfers(rows, transfers).contains_key(("Transfer"@, key))
            &&& row.columns.contains_key("from"@)
            &&& row.columns["from"@] == Value::Text(transfers[i].from)
            &&& row.columns.contains_key("to"@)
            &&& row.columns["to"@] == Value::Text(transfers[i].to)
            &&& row.columns.contains_key("tokenId"@)
            &&& row.columns["tokenId"@] == Value::Text(transfers[i].token_id)
            &&& forall|name: Seq<char>|
                name != "from"@ && name != "to"@ && name != "tokenId"@ ==> (
                #[trigger] row.columns.contains_key(name) <==> before.columns.contains_key(name))
                    && (row.columns.contains_key(name) ==> row.columns[name]
                    == before.columns[name])
            &&& row.operation == (if before.operation is Unspecified {
                Operation::Update
            } else {
                before.operation
            })
            &&& row.finalized == before.finalized
        }),
{
    let key = transfers[i].tx_hash + "-"@ + transfers[i].token_id;
    lemma_table_names();
    lemma_column_names();
    lemma_last_transfer_touch_at(transfers, "Transfer"@, key, i);
    law_row_after_transfers(rows, transfers, "Transfer"@, key);
}

/// The row of a token says which collection it is of and who owns it, in the words of its last
/// transfer. It has no other columns but those that it had before.
pub proof fn law_token_row(rows: Rows, transfers: Seq<TransferView>, i: int)
    requires
        0 <= i < transfers.len(),
        forall|j: int|
            i < j < transfers.len() ==> (#[trigger] transfers[j]).token_id
                != transfers[i].token_id,
    ensures
        ({
            let key = transfers[i].token_id;
            let before = row_at(rows, "Token"@, key);
            let row = row_at(after_transfers(rows, transfers), "Token"@, key);
            &&& after_transfers(rows, transfers).contains_key(("Token"@, key))
            &&& row.columns.contains_key("owner"@)
            &&& row.columns["owner"@] == Value::Text(transfers[i].to)
            &&& row.columns.contains_key("collection"@)
            &&& row.columns["collection"@] == Value::Text(ADDRESS@)
            &&& forall|name: Seq<char>|
                name != "owner"@ && name != "collection"@ ==> (
                #[trigger] row.columns.contains_key(name) <==> before.columns.contains_key(name))
                    && (row.columns.contains_key(name) ==> row.columns[name]
                    == before.columns[name])
            &&& row.operation == (if before.operation is Unspecified {
                Operation::Update
            } else {
                before.operation
            })
            &&& row.finalized == before.finalized
        }),
{
    let key = transfers[i].token_id;
    lemma_table_names();
    lemma_column_names();
    lemma_last_transfer_touch_at(transfers, "Token"@, key, i);
    law_row_after_transfers(rows, transfers, "Token"@, key);
}

/// The row of an approval says who let whom transfer which token, in the words of the last approval
/// of the same transaction and token. It has no other columns but those that it had before.
pub proof fn law_approval_row(rows: Rows, approvals: Seq<ApprovalView>, i: int)
    requires
        0 <= i < approvals.len(),
        forall|j: int|
            i < j < approvals.len() ==> (#[trigger] approvals[j]).tx_hash + "-"@
                + approvals[j].token_id != approvals[i].tx_hash + "-"@ + approvals[i].token_id,
    ensures
        ({
            let key = approvals[i].tx_hash + "-"@ + approvals[i].token_id;
            let before = row_at(rows, "Approval"@, key);
            let row = row_at(after_approvals(rows, approvals), "Approval"@, key);
            &&& after_approvals(rows, approvals).contains_key(("Approval"@, key))
            &&& row.columns.contains_key("owner"@)
            &&& row.columns["owner"@] == Value::Text(approvals[i].owner)
            &&& row.columns.contains_key("approved"@)
            &&& row.columns["approved"@] == Value::Text(approvals[i].approved)
            &&& row.columns.contains_key("tokenId"@)
            &&& row.columns["tokenId"@] == Value::Text(approvals[i].token_id)
            &&& forall|name: Seq<char>|
                name != "owner"@ && name != "approved"@ && name != "tokenId"@ ==> (
                #[trigger] row.columns.contains_key(name) <==> before.columns.contains_key(name))
                    && (row.columns.contains_key(name) ==> row.columns[name]
                    == before.columns[name])
            &&& row.operation == (if before.operation is Unspecified {
                Operation::Update
            } else {
                before.operation
            })
            &&& row.finalized == before.finalized
        }),
{
    let key = approvals[i].tx_hash + "-"@ + approvals[i].token_id;
    lemma_table_names();
    lemma_column_names();
    lemma_last_approval_touch_at(approvals, "Approval"@, key, i);
    law_row_after_approvals(rows, approvals, "Approval"@, key);
}

/// What naming an account makes of its row: a row to be created if nothing was to happen to it yet,
/// and the same row otherwise.
pub open spec fn account_named(row: RowChange, before: RowChange) -> bool {
    &&& row.columns == before.columns
    &&& row.finalized == before.finalized
    &&& row.operation == (if before.operation is Unspecified {
        Operation::Create
    } else {
        before.operation
    })
}

/// Both accounts of a transfer are named, and get no columns.
pub proof fn law_transfer_accounts(rows: Rows, transfers: Seq<TransferView>, i: int)
    requires
        0 <= i < transfers.len(),
    ensures
        ({
            let after = after_transfers(rows, transfers);
            let (from, to) = (transfers[i].from, transfers[i].to);
            &&& after.contains_key(("Account"@, from))
            &&& after.contains_key(("Account"@, to))
            &&& account_named(row_at(after, "Account"@, from), row_at(rows, "Account"@, from))
            &&& account_named(row_at(after, "Account"@, to), row_at(rows, "Account"@, to))
        }),
{
    lemma_table_names();
    lemma_transfer_account(rows, transfers, i, transfers[i].from);
    lemma_transfer_account(rows, transfers, i, transfers[i].to);
}

/// An account that a transfer names.
proof fn lemma_transfer_account(
    rows: Rows,
    transfers: Seq<TransferView>,
    i: int,
    key: Seq<char>,
)
    requires
        0 <= i < transfers.len(),
        key == transfers[i].from || key == transfers[i].to,
    ensures
        after_transfers(rows, transfers).contains_key(("Account"@, key)),
        account_named(
            row_at(after_transfers(rows, transfers), "Account"@, key),
            row_at(rows, "Account"@, key),
        ),
{
    lemma_table_names();
    let before = row_at(rows, "Account"@, key);
    lemma_transfer_touches(transfers, "Account"@, key, i);
    lemma_last_transfer_touch(transfers, "Account"@, key);
    law_row_after_transfers(rows, transfers, "Account"@, key);
    assert(before.columns.union_prefer_right(Map::empty()) =~= before.columns);
}

/// Both accounts of an approval are named, and get no columns.
pub proof fn law_approval_accounts(rows: Rows, approvals: Seq<ApprovalView>, i: int)
    requires
        0 <= i < approvals.len(),
    ensures
        ({
            let after = after_approvals(rows, approvals);
            let (owner, approved) = (approvals[i].owner, approvals[i].approved);
            &&& after.contains_key(("Account"@, owner))
            &&& after.contains_key(("Account"@, approved))
            &&& account_named(row_at(after, "Account"@, owner), row_at(rows, "Account"@, owner))
            &&& account_named(
                row_at(after, "Account"@, approved),
                row_at(rows, "Account"@, approved),
            )
        }),
{
    lemma_table_names();
    lemma_approval_account(rows, approvals, i, approvals[i].owner);
    lemma_approval_account(rows, approvals, i, approvals[i].approved);
}

/// An account that an approval names.
proof fn lemma_approval_account(
    rows: Rows,
    approvals: Seq<ApprovalView>,
    i: int,
    key: Seq<char>,
)
    requires
        0 <= i < approvals.len(),
        key == approvals[i].owner || key == approvals[i].approved,
    ensures
        after_approvals(rows, approvals).contains_key(("Account"@, key)),
        account_named(
            row_at(after_approvals(rows, approvals), "Account"@, key),
            row_at(rows, "Account"@, key),
        ),
{
    lemma_table_names();
    let before = row_at(rows, "Account"@, key);
    lemma_approval_touches(approvals, "Account"@, key, i);
    lemma_last_approval_touch(approvals, "Account"@, key);
    law_row_after_approvals(rows, approvals, "Account"@, key);
    assert(before.columns.union_prefer_right(Map::empty()) =~= before.columns);
}

/// A row that no transfer is on stays as it is.
pub proof fn law_transfers_leave_others(
    rows: Rows,
    transfers: Seq<TransferView>,
    table: Seq<char>,
    key: Seq<char>,
)
    requires
        forall|i: int|
            0 <= i < transfers.len() ==> {
                &&& !(table == "Transfer"@ && key == (#[trigger] transfers[i]).tx_hash + "-"@
                    + transfers[i].token_id)
                &&& !(table == "Account"@ && (key == transfers[i].from || key == transfers[i].to))
                &&& !(table == "Token"@ && key == transfers[i].token_id)
            },
    ensures
        after_transfers(rows, transfers).contains_key((table, key)) == rows.contains_key(
            (table, key),
        ),
        row_at(after_transfers(rows, transfers), table, key) == row_at(rows, table, key),
{
    law_row_after_transfers(rows, transfers, table, key);
    if last_transfer_touch(transfers, table, key) is Some {
        lemma_last_transfer_touch(transfers, table, key);
    }
}

/// A row that no approval is on stays as it is.
pub proof fn law_approvals_leave_others(
    rows: Rows,
    approvals: Seq<ApprovalView>,
    table: Seq<char>,
    key: Seq<char>,
)
    requires
        forall|i: int|
            0 <= i < approvals.len() ==> {
                &&& !(table == "Approval"@ && key == (#[trigger] approvals[i]).tx_hash + "-"@
                    + approvals[i].token_id)
                &&& !(table == "Account"@ && (key == approvals[i].owner || key
                    == approvals[i].approved))
            },
    ensures
        after_approvals(rows, approvals).contains_key((table, key)) == rows.contains_key(
            (table, key),
        ),
        row_at(after_approvals(rows, approvals), table, key) == row_at(rows, table, key),
{
    law_row_after_approvals(rows, approvals, table, key);
    if last_approval_touch(approvals, table, key) is Some {
        lemma_last_approval_touch(approvals, table, key);
    }
}

/// Block 12287507 starts with a row for the collection that is to be created and has no columns.
/// Every other block starts with nothing.
pub proof fn law_opening(number: u64, table: Seq<char>, key: Seq<char>)
    ensures
        opening_rows(number).contains_key((table, key)) <==> number == 12287507 && table
            == "Collection"@ && key == ADDRESS@,
        opening_rows(number).contains_key((table, key)) ==> {
            let row = opening_rows(number)[(table, key)];
            &&& row.operation is Create
            &&& row.columns == Map::<Seq<char>, Value>::empty()
            &&& !row.finalized
        },
{
}

/// The changes of a block are those of its transfers and its approvals, on top of those that it
/// starts with. The rows of the transfers and of the tokens are left to the transfers, those of the
/// approvals to the approvals, and the collection to neither.
pub proof fn law_graph_rows(
    number: u64,
    transfers: Seq<TransferView>,
    approvals: Seq<ApprovalView>,
    key: Seq<char>,
)
    ensures
        ({
            let rows = graph_rows(number, transfers, approvals);
            let opening = opening_rows(number);
            let moved = after_transfers(opening, transfers);
            let allowed = after_approvals(opening, approvals);
            &&& row_at(rows, "Transfer"@, key) == row_at(moved, "Transfer"@, key)
            &&& row_at(rows, "Token"@, key) == row_at(moved, "Token"@, key)
            &&& row_at(rows, "Approval"@, key) == row_at(allowed, "Approval"@, key)
            &&& row_at(rows, "Collection"@, key) == row_at(opening, "Collection"@, key)
            &&& rows == after_approvals(moved, approvals)
            &&& rows == after_transfers(allowed, transfers)
        }),
{
    lemma_table_names();
    let opening = opening_rows(number);
    let moved = after_transfers(opening, transfers);
    let allowed = after_approvals(opening, approvals);
    law_transfers_approvals_commute(opening, transfers, approvals);
    law_approvals_leave_others(moved, approvals, "Transfer"@, key);
    law_approvals_leave_others(moved, approvals, "Token"@, key);
    law_approvals_leave_others(moved, approvals, "Collection"@, key);
    law_transfers_leave_others(opening, transfers, "Collection"@, key);
    law_transfers_leave_others(allowed, transfers, "Approval"@, key);
}

/// The row of a transfer in the changes of a block has the three columns of the transfer and no
/// others.
pub proof fn law_graph_transfer_row(
    number: u64,
    transfers: Seq<TransferView>,
    approvals: Seq<ApprovalView>,
    i: int,
)
    requires
        0 <= i < transfers.len(),
        forall|j: int|
            i < j < transfers.len() ==> (#[trigger] transfers[j]).tx_hash + "-"@
                + transfers[j].token_id != transfers[i].tx_hash + "-"@ + transfers[i].token_id,
    ensures
        ({
            let key = transfers[i].tx_hash + "-"@ + transfers[i].token_id;
            let rows = graph_rows(number, transfers, approvals);
            let columns = rows[("Transfer"@, key)].columns;
            &&& rows.contains_key(("Transfer"@, key))
            &&& forall|name: Seq<char>| #[trigger]
                columns.contains_key(name) <==> name == "from"@ || name == "to"@ || name
                    == "tokenId"@
            &&& columns["from"@] == Value::Text(transfers[i].from)
            &&& columns["to"@] == Value::Text(transfers[i].to)
            &&& columns["tokenId"@] == Value::Text(transfers[i].token_id)
        }),
{
    let key = transfers[i].tx_hash + "-"@ + transfers[i].token_id;
    let opening = opening_rows(number);
    lemma_table_names();
    law_opening(number, "Transfer"@, key);
    law_transfer_row(opening, transfers, i);
    law_graph_rows(number, transfers, approvals, key);
    law_graph_changes(number, transfers, approvals, "Transfer"@, key);
    assert(transfer_touch(transfers[i], "Transfer"@, key) is Some);
}

/// The row of a token in the changes of a block has two columns, the collection and the receiver of
/// its last transfer, and no others.
pub proof fn law_graph_token_row(
    number: u64,
    transfers: Seq<TransferView>,
    approvals: Seq<ApprovalView>,
    i: int,
)
    requires
        0 <= i < transfers.len(),
        forall|j: int|
            i < j < transfers.len() ==> (#[trigger] transfers[j]).token_id
                != transfers[i].token_id,
    ensures
        ({
            let key = transfers[i].token_id;
            let rows = graph_rows(number, transfers, approvals);
            let columns = rows[("Token"@, key)].columns;
            &&& rows.contains_key(("Token"@, key))
            &&& forall|name: Seq<char>| #[trigger]
                columns.contains_key(name) <==> name == "collection"@ || name == "owner"@
            &&& columns["collection"@] == Value::Text(ADDRESS@)
            &&& columns["owner"@] == Value::Text(transfers[i].to)
        }),
{
    let key = transfers[i].token_id;
    let opening = opening_rows(number);
    lemma_table_names();
    law_opening(number, "Token"@, key);
    law_token_row(opening, transfers, i);
    law_graph_rows(number, transfers, approvals, key);
    law_graph_changes(number, transfers, approvals, "Token"@, key);
    assert(transfer_touch(transfers[i], "Token"@, key) is Some);
}

/// The row of an approval in the changes of a block has the three columns of the approval and no
/// others.
pub proof fn law_graph_approval_row(
    number: u64,
    transfers: Seq<TransferView>,
    approvals: Seq<ApprovalView>,
    i: int,
)
    requires
        0 <= i < approvals.len(),
        forall|j: int|
            i < j < approvals.len() ==> (#[trigger] approvals[j]).tx_hash + "-"@
                + approvals[j].token_id != approvals[i].tx_hash + "-"@ + approvals[i].token_id,
    ensures
        ({
            let key = approvals[i].tx_hash + "-"@ + approvals[i].token_id;
            let rows = graph_rows(number, transfers, approvals);
            let columns = rows[("Approval"@, key)].columns;
            &&& rows.contains_key(("Approval"@, key))
            &&& forall|name: Seq<char>| #[trigger]
                columns.contains_key(name) <==> name == "owner"@ || name == "approved"@ || name
                    == "tokenId"@
            &&& columns["owner"@] == Value::Text(approvals[i].owner)
            &&& columns["approved"@] == Value::Text(approvals[i].approved)
            &&& columns["tokenId"@] == Value::Text(approvals[i].token_id)
        }),
{
    let key = approvals[i].tx_hash + "-"@ + approvals[i].token_id;
    let opening = opening_rows(number);
    lemma_table_names();
    law_opening(number, "Approval"@, key);
    law_approval_row(opening, approvals, i);
    law_graph_rows(number, transfers, approvals, key);
    law_graph_changes(number, transfers, approvals, "Approval"@, key);
    assert(approval_touch(approvals[i], "Approval"@, key) is Some);
}

/// The row of an account in the changes of a block has no columns, nor has that of the collection.
pub proof fn law_graph_bare_rows(
    number: u64,
    transfers: Seq<TransferView>,
    approvals: Seq<ApprovalView>,
    table: Seq<char>,
    key: Seq<char>,
)
    requires
        table == "Account"@ || table == "Collection"@,
        graph_rows(number, transfers, approvals).contains_key((table, key)),
    ensures
        graph_rows(number, transfers, approvals)[(table, key)].columns == Map::<
            Seq<char>,
            Value,
        >::empty(),
{
    lemma_table_names();
    let opening = opening_rows(number);
    let moved = after_transfers(opening, transfers);
    let rows = graph_rows(number, transfers, approvals);
    law_opening(number, table, key);
    law_row_after_transfers(opening, transfers, table, key);
    law_row_after_approvals(moved, approvals, table, key);
    if last_transfer_touch(transfers, table, key) is Some {
        lemma_last_transfer_touch(transfers, table, key);
    }
    if last_approval_touch(approvals, table, key) is Some {
        lemma_last_approval_touch(approvals, table, key);
    }
    assert(rows[(table, key)] == row_at(rows, table, key));
    assert(row_at(moved, table, key).columns =~= Map::empty());
    assert(rows[(table, key)].columns =~= Map::empty());
}

/// Nothing stands against the changes of transfers but a transfer or token that is to be deleted or
/// is final, and an account that is to be updated or deleted.
pub proof fn law_accepted_transfers(rows: Rows, transfers: Seq<TransferView>)
    ensures
        accepts_transfers(rows, transfers) <==> forall|i: int|
            0 <= i < transfers.len() ==> {
                let key = (#[trigger] transfers[i]).tx_hash + "-"@ + transfers[i].token_id;
                let noted = row_at(rows, "Transfer"@, key).operation;
                let token = row_at(rows, "Token"@, transfers[i].token_id).operation;
                let from = row_at(rows, "Account"@, transfers[i].from).operation;
                let to = row_at(rows, "Account"@, transfers[i].to).operation;
                &&& !(noted is Delete) && !(noted is Final)
                &&& !(token is Delete) && !(token is Final)
                &&& !(from is Update) && !(from is Delete)
                &&& !(to is Update) && !(to is Delete)
            },
{
}

/// Nothing stands against the changes of approvals but an approval that is to be deleted or is
/// final, and an account that is to be updated or deleted.
pub proof fn law_accepted_approvals(rows: Rows, approvals: Seq<ApprovalView>)
    ensures
        accepts_approvals(rows, approvals) <==> forall|i: int|
            0 <= i < approvals.len() ==> {
                let key = (#[trigger] approvals[i]).tx_hash + "-"@ + approvals[i].token_id;
                let noted = row_at(rows, "Approval"@, key).operation;
                let owner = row_at(rows, "Account"@, approvals[i].owner).operation;
                let approved = row_at(rows, "Account"@, approvals[i].approved).operation;
                &&& !(noted is Delete) && !(noted is Final)
                &&& !(owner is Update) && !(owner is Delete)
                &&& !(approved is Update) && !(approved is Delete)
            },
{
}

} // verus!
