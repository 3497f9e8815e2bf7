//! Turning transfers and approvals into changes to tables.

use crate::event_laws::law_prefixed_hex;
use crate::schema::{Approval, ApprovalView, Approvals, Transfer, TransferView, Transfers};
use crate::table_laws::{
    last_approval_touch, last_transfer_touch, law_row_after_approvals, law_row_after_transfers,
    touched,
};
use crate::tables::{
    can_create, can_update, create_row, for_creation, for_update, row_at, row_change, set_text,
    table_rows, update_row, Columns, RowChange, Rows, Value,
};
use crate::text::{decimal, digit, hex, hex_text, law_decimal_injective, law_hex_injective};
use crate::text_laws::writes_prefixed;
use crate::ADDRESS;
use substreams_entity_change::tables::Tables;
use vstd::prelude::*;

verus! {

/// The text of an address or a hash: `0x` and the bytes in hexadecimal.
pub open spec fn prefixed_hex(bytes: Seq<u8>) -> Seq<char> {
    "0x"@ + hex(bytes)
}

/// The key of the row of an event: the transaction and the token, with a dash between them.
pub open spec fn event_key(tx_hash: Seq<char>, token_id: Seq<char>) -> Seq<char> {
    tx_hash + "-"@ + token_id
}

/// A row with new values for some of its columns.
pub open spec fn with_columns(row: RowChange, columns: Columns) -> RowChange {
    RowChange { columns: row.columns.union_prefer_right(columns), ..row }
}

/// Table changes with one more row named for creation.
pub open spec fn created(rows: Rows, table: Seq<char>, key: Seq<char>) -> Rows {
    rows.insert((table, key), for_creation(row_at(rows, table, key)))
}

/// Table changes with one more row named for an update, and new values for its columns.
pub open spec fn updated(rows: Rows, table: Seq<char>, key: Seq<char>, columns: Columns) -> Rows {
    rows.insert((table, key), with_columns(for_update(row_at(rows, table, key)), columns))
}

/// What the row of a transfer says.
pub open spec fn transfer_columns(transfer: TransferView) -> Columns {
    map![
        "from"@ => Value::Text(transfer.from),
        "to"@ => Value::Text(transfer.to),
        "tokenId"@ => Value::Text(transfer.token_id)
    ]
}

/// What the row of a token says once it was transferred to `owner`.
pub open spec fn token_columns(owner: Seq<char>) -> Columns {
    map!["collection"@ => Value::Text(ADDRESS@), "owner"@ => Value::Text(owner)]
}

/// What the row of an approval says.
pub open spec fn approval_columns(approval: ApprovalView) -> Columns {
    map![
        "owner"@ => Value::Text(approval.owner),
        "approved"@ => Value::Text(approval.approved),
        "tokenId"@ => Value::Text(approval.token_id)
    ]
}

/// Table changes with those of a transfer added: the transfer itself, both accounts, and the
/// token with its new owner.
pub open spec fn after_transfer(rows: Rows, transfer: TransferView) -> Rows {
    let noted = updated(
        rows,
        "Transfer"@,
        event_key(transfer.tx_hash, transfer.token_id),
        transfer_columns(transfer),
    );
    let sender = created(noted, "Account"@, transfer.from);
    let receiver = created(sender, "Account"@, transfer.to);
    updated(receiver, "Token"@, transfer.token_id, token_columns(transfer.to))
}

/// Table changes with those of transfers added, one after the other.
pub open spec fn after_transfers(rows: Rows, transfers: Seq<TransferView>) -> Rows
    decreases transfers.len(),
{
    if transfers.len() == 0 {
        rows
    } else {
        after_transfer(after_transfers(rows, transfers.drop_last()), transfers.last())
    }
}

/// Table changes with those of an approval added: the approval itself and both accounts.
pub open spec fn after_approval(rows: Rows, approval: ApprovalView) -> Rows {
    let noted = updated(
        rows,
        "Approval"@,
        event_key(approval.tx_hash, approval.token_id),
        approval_columns(approval),
    );
    let owner = created(noted, "Account"@, approval.owner);
    created(owner, "Account"@, approval.approved)
}

/// Table changes with those of approvals added, one after the other.
pub open spec fn after_approvals(rows: Rows, approvals: Seq<ApprovalView>) -> Rows
    decreases approvals.len(),
{
    if approvals.len() == 0 {
        rows
    } else {
        after_approval(after_approvals(rows, approvals.drop_last()), approvals.last())
    }
}

/// Whether nothing in `rows` stands against the changes of a transfer.
pub open spec fn accepts_transfer(rows: Rows, transfer: TransferView) -> bool {
    &&& can_update(rows, "Transfer"@, event_key(transfer.tx_hash, transfer.token_id))
    &&& can_create(rows, "Account"@, transfer.from)
    &&& can_create(rows, "Account"@, transfer.to)
    &&& can_update(rows, "Token"@, transfer.token_id)
}

/// Whether nothing in `rows` stands against the changes of transfers.
pub open spec fn accepts_transfers(rows: Rows, transfers: Seq<TransferView>) -> bool {
    forall|i: int| 0 <= i < transfers.len() ==> accepts_transfer(rows, #[trigger] transfers[i])
}

/// Whether nothing in `rows` stands against the changes of an approval.
pub open spec fn accepts_approval(rows: Rows, approval: ApprovalView) -> bool {
    &&& can_update(rows, "Approval"@, event_key(approval.tx_hash, approval.token_id))
    &&& can_create(rows, "Account"@, approval.owner)
    &&& can_create(rows, "Account"@, approval.approved)
}

/// Whether nothing in `rows` stands against the changes of approvals.
pub open spec fn accepts_approvals(rows: Rows, approvals: Seq<ApprovalView>) -> bool {
    forall|i: int| 0 <= i < approvals.len() ==> accepts_approval(rows, #[trigger] approvals[i])
}

/// The tables have different names.
pub proof fn lemma_table_names()
    ensures
        "Transfer"@ != "Account"@,
        "Transfer"@ != "Token"@,
        "Transfer"@ != "Approval"@,
        "Transfer"@ != "Collection"@,
        "Account"@ != "Token"@,
        "Account"@ != "Approval"@,
        "Account"@ != "Collection"@,
        "Token"@ != "Approval"@,
        "Token"@ != "Collection"@,
        "Approval"@ != "Collection"@,
{
    reveal_strlit("Transfer");
    reveal_strlit("Account");
    reveal_strlit("Token");
    reveal_strlit("Approval");
    reveal_strlit("Collection");
    assert("Transfer"@[0] != "Account"@[0]);
    assert("Transfer"@[1] != "Token"@[1]);
    assert("Transfer"@[0] != "Approval"@[0]);
    assert("Transfer"@[0] != "Collection"@[0]);
    assert("Account"@[0] != "Token"@[0]);
    assert("Account"@[1] != "Approval"@[1]);
    assert("Account"@[0] != "Collection"@[0]);
    assert("Token"@[0] != "Approval"@[0]);
    assert("Token"@[0] != "Collection"@[0]);
    assert("Approval"@[0] != "Collection"@[0]);
}

/// Writes an address or a hash.
pub fn format_hex(address: &[u8]) -> (r: String)
    ensures
        r@ == prefixed_hex(address@),
        writes_prefixed(r@, address@),
{
    proof {
        law_prefixed_hex(address@);
    }
    let mut r = "0x".to_owned();
    r.append(hex_text(address).as_str());
    r
}

/// Writes the key of the row of an event.
fn format_key(tx_hash: &str, token_id: &str) -> (r: String)
    ensures
        r@ == event_key(tx_hash@, token_id@),
{
    let mut r = tx_hash.to_owned();
    r.append("-");
    r.append(token_id);
    r
}

/// A transfer does not stand against the changes of another.
proof fn lemma_transfer_accepted(rows: Rows, done: TransferView, next: TransferView)
    requires
        accepts_transfer(rows, done),
        accepts_transfer(rows, next),
    ensures
        accepts_transfer(after_transfer(rows, done), next),
{
    lemma_table_names();
}

/// An approval does not stand against the changes of another.
proof fn lemma_approval_accepted(rows: Rows, done: ApprovalView, next: ApprovalView)
    requires
        accepts_approval(rows, done),
        accepts_approval(rows, next),
    ensures
        accepts_approval(after_approval(rows, done), next),
{
    lemma_table_names();
}

/// Adds the table changes of one transfer.
fn transfer_to_table_changes(tables: &mut Tables, transfer: &Transfer)
    requires
        accepts_transfer(table_rows(*old(tables)), transfer@),
    ensures
        table_rows(*final(tables)) == after_transfer(table_rows(*old(tables)), transfer@),
{
    proof {
        lemma_table_names();
    }
    let ghost rows = table_rows(*tables);
    let key = format_key(transfer.tx_hash.as_str(), transfer.token_id.as_str());
    let row = update_row(tables, "Transfer", key.as_str());
    let ghost fresh = row_change(*row);
    set_text(row, "from", transfer.from.as_str());
    set_text(row, "to", transfer.to.as_str());
    set_text(row, "tokenId", transfer.token_id.as_str());
    assert(row_change(*row).columns =~= with_columns(fresh, transfer_columns(transfer@)).columns);
    assert(table_rows(*tables) == updated(rows, "Transfer"@, key@, transfer_columns(transfer@)));

    create_row(tables, "Account", transfer.from.as_str());
    create_row(tables, "Account", transfer.to.as_str());

    let row = update_row(tables, "Token", transfer.token_id.as_str());
    let ghost fresh = row_change(*row);
    set_text(row, "collection", ADDRESS);
    set_text(row, "owner", transfer.to.as_str());
    assert(row_change(*row).columns =~= with_columns(
        fresh,
        token_columns(transfer.to@),
    ).columns);
}

/// Adds the table changes of transfers: a row for each transfer, rows for the accounts, and the
/// new owners of the tokens.
///
/// Nothing in `tables` may stand against them: no account may be up for an update or a deletion,
/// no transfer or token for a deletion.
pub fn transfers_to_table_changes(tables: &mut Tables, transfers: &Transfers)
    requires
        accepts_transfers(table_rows(*old(tables)), transfers@),
    ensures
        table_rows(*final(tables)) == after_transfers(table_rows(*old(tables)), transfers@),
        forall|table: Seq<char>, key: Seq<char>|
            #![trigger row_at(table_rows(*final(tables)), table, key)]
            row_at(table_rows(*final(tables)), table, key) == touched(
                table,
                row_at(table_rows(*old(tables)), table, key),
                last_transfer_touch(transfers@, table, key),
            ),
{
    let ghost start = table_rows(*tables);
    let mut i: usize = 0;
    assert(transfers@.take(0) =~= seq![]);
    while i < transfers.transfers.len()
        invariant
            i <= transfers.transfers.len(),
            transfers@.len() == transfers.transfers.len(),
            table_rows(*tables) == after_transfers(start, transfers@.take(i as int)),
            accepts_transfers(table_rows(*tables), transfers@),
        decreases transfers.transfers.len() - i,
    {
        let ghost rows = table_rows(*tables);
        let transfer = &transfers.transfers[i];
        assert(transfers@[i as int] == transfer@);
        transfer_to_table_changes(tables, transfer);
        proof {
            let done = transfers@.take(i + 1);
            assert(done.drop_last() =~= transfers@.take(i as int));
            assert forall|j: int| 0 <= j < transfers@.len() implies accepts_transfer(
                table_rows(*tables),
                #[trigger] transfers@[j],
            ) by {
                lemma_transfer_accepted(rows, transfer@, transfers@[j]);
            }
        }
        i = i + 1;
    }
    assert(transfers@.take(i as int) =~= transfers@);
    assert forall|table: Seq<char>, key: Seq<char>|
        #![trigger row_at(table_rows(*tables), table, key)]
        row_at(table_rows(*tables), table, key) == touched(
            table,
            row_at(start, table, key),
            last_transfer_touch(transfers@, table, key),
        ) by {
        law_row_after_transfers(start, transfers@, table, key);
    }
}

/// Adds the table changes of one approval.
fn approval_to_table_changes(tables: &mut Tables, approval: &Approval)
    requires
        accepts_approval(table_rows(*old(tables)), approval@),
    ensures
        table_rows(*final(tables)) == after_approval(table_rows(*old(tables)), approval@),
{
    proof {
        lemma_table_names();
    }
    let ghost rows = table_rows(*tables);
    let key = format_key(approval.tx_hash.as_str(), approval.token_id.as_str());
    let row = update_row(tables, "Approval", key.as_str());
    let ghost fresh = row_change(*row);
    set_text(row, "owner", approval.owner.as_str());
    set_text(row, "approved", approval.approved.as_str());
    set_text(row, "tokenId", approval.token_id.as_str());
    assert(row_change(*row).columns =~= with_columns(fresh, approval_columns(approval@)).columns);
    assert(table_rows(*tables) == updated(rows, "Approval"@, key@, approval_columns(approval@)));

    create_row(tables, "Account", approval.owner.as_str());
    create_row(tables, "Account", approval.approved.as_str());
}

/// Adds the table changes of approvals: a row for each approval, and rows for the accounts.
///
/// Nothing in `tables` may stand against them: no account may be up for an update or a deletion,
/// no approval for a deletion.
pub fn approvals_to_table_changes(tables: &mut Tables, approvals: &Approvals)
    requires
        accepts_approvals(table_rows(*old(tables)), approvals@),
    ensures
        table_rows(*final(tables)) == after_approvals(table_rows(*old(tables)), approvals@),
        forall|table: Seq<char>, key: Seq<char>|
            #![trigger row_at(table_rows(*final(tables)), table, key)]
            row_at(table_rows(*final(tables)), table, key) == touched(
                table,
                row_at(table_rows(*old(tables)), table, key),
                last_approval_touch(approvals@, table, key),
            ),
{
    let ghost start = table_rows(*tables);
    let mut i: usize = 0;
    assert(approvals@.take(0) =~= seq![]);
    while i < approvals.approvals.len()
        invariant
            i <= approvals.approvals.len(),
            approvals@.len() == approvals.approvals.len(),
            table_rows(*tables) == after_approvals(start, approvals@.take(i as int)),
            accepts_approvals(table_rows(*tables), approvals@),
        decreases approvals.approvals.len() - i,
    {
        let ghost rows = table_rows(*tables);
        let approval = &approvals.approvals[i];
        assert(approvals@[i as int] == approval@);
        approval_to_table_changes(tables, approval);
        proof {
            let done = approvals@.take(i + 1);
            assert(done.drop_last() =~= approvals@.take(i as int));
            assert forall|j: int| 0 <= j < approvals@.len() implies accepts_approval(
                table_rows(*tables),
                #[trigger] approvals@[j],
            ) by {
                lemma_approval_accepted(rows, approval@, approvals@[j]);
            }
        }
        i = i + 1;
    }
    assert(approvals@.take(i as int) =~= approvals@);
    assert forall|table: Seq<char>, key: Seq<char>|
        #![trigger row_at(table_rows(*tables), table, key)]
        row_at(table_rows(*tables), table, key) == touched(
            table,
            row_at(start, table, key),
            last_approval_touch(approvals@, table, key),
        ) by {
        law_row_after_approvals(start, approvals@, table, key);
    }
}

/// A transfer does not stand against the changes of an approval.
proof fn lemma_approval_accepted_after_transfer(
    rows: Rows,
    done: TransferView,
    next: ApprovalView,
)
    requires
        accepts_transfer(rows, done),
        accepts_approval(rows, next),
    ensures
        accepts_approval(after_transfer(rows, done), next),
{
    lemma_table_names();
}

/// Transfers do not stand against one another's changes.
pub proof fn law_transfers_accepted(
    rows: Rows,
    done: Seq<TransferView>,
    next: Seq<TransferView>,
)
    requires
        accepts_transfers(rows, done),
        accepts_transfers(rows, next),
    ensures
        accepts_transfers(after_transfers(rows, done), next),
    decreases done.len(),
{
    if done.len() > 0 {
        let front = done.drop_last();
        law_transfers_accepted(rows, front, next);
        law_transfers_accepted(rows, front, done);
        let middle = after_transfers(rows, front);
        assert(accepts_transfer(middle, done[done.len() - 1]));
        assert forall|i: int| 0 <= i < next.len() implies accepts_transfer(
            after_transfers(rows, done),
            #[trigger] next[i],
        ) by {
            lemma_transfer_accepted(middle, done.last(), next[i]);
        }
    }
}

/// Transfers do not stand against the changes of approvals.
pub proof fn law_approvals_accepted_after_transfers(
    rows: Rows,
    done: Seq<TransferView>,
    next: Seq<ApprovalView>,
)
    requires
        accepts_transfers(rows, done),
        accepts_approvals(rows, next),
    ensures
        accepts_approvals(after_transfers(rows, done), next),
    decreases done.len(),
{
    if done.len() > 0 {
        let front = done.drop_last();
        law_approvals_accepted_after_transfers(rows, front, next);
        law_transfers_accepted(rows, front, done);
        let middle = after_transfers(rows, front);
        assert(accepts_transfer(middle, done[done.len() - 1]));
        assert forall|i: int| 0 <= i < next.len() implies accepts_approval(
            after_transfers(rows, done),
            #[trigger] next[i],
        ) by {
            lemma_approval_accepted_after_transfer(middle, done.last(), next[i]);
        }
    }
}

/// The text of an address or a hash is longer by two characters than twice the bytes, and
/// different bytes have different texts.
pub proof fn law_prefixed_hex_injective(a: Seq<u8>, b: Seq<u8>)
    ensures
        prefixed_hex(a).len() == 2 + 2 * a.len(),
        prefixed_hex(a) == prefixed_hex(b) ==> a == b,
{
    reveal_strlit("0x");
    if prefixed_hex(a) == prefixed_hex(b) {
        assert(prefixed_hex(a).skip(2) =~= hex(a));
        assert(prefixed_hex(b).skip(2) =~= hex(b));
        law_hex_injective(a, b);
    }
}

/// There is no dash in the text of a hash.
proof fn lemma_no_dash(bytes: Seq<u8>, i: int)
    requires
        0 <= i < prefixed_hex(bytes).len(),
    ensures
        prefixed_hex(bytes)[i] != '-',
{
    reveal_strlit("0x");
    if i >= 2 {
        let b = bytes[(i - 2) / 2] as int;
        assert(prefixed_hex(bytes)[i] == hex(bytes)[i - 2]);
        assert(digit(b / 16) != '-' && digit(b % 16) != '-');
    }
}

/// Two events share a row only if they are of the same transaction and the same token.
pub proof fn law_event_key_injective(
    hash: Seq<u8>,
    token: nat,
    other_hash: Seq<u8>,
    other_token: nat,
)
    requires
        event_key(prefixed_hex(hash), decimal(token)) == event_key(
            prefixed_hex(other_hash),
            decimal(other_token),
        ),
    ensures
        hash == other_hash,
        token == other_token,
{
    reveal_strlit("-");
    let a = prefixed_hex(hash);
    let b = prefixed_hex(other_hash);
    let key = event_key(a, decimal(token));
    let other_key = event_key(b, decimal(other_token));
    assert(key[a.len() as int] == '-');
    assert(other_key[b.len() as int] == '-');
    if a.len() < b.len() {
        lemma_no_dash(other_hash, a.len() as int);
        assert(other_key[a.len() as int] == b[a.len() as int]);
    }
    if b.len() < a.len() {
        lemma_no_dash(hash, b.len() as int);
        assert(key[b.len() as int] == a[b.len() as int]);
    }
    assert(key.take(a.len() as int) =~= a);
    assert(other_key.take(b.len() as int) =~= b);
    assert(key.skip(a.len() as int + 1) =~= decimal(token));
    assert(other_key.skip(b.len() as int + 1) =~= decimal(other_token));
    law_prefixed_hex_injective(hash, other_hash);
    law_decimal_injective(token, other_token);
}

} // verus!
