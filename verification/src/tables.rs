//! The table changes that a handler collects, as the `substreams-entity-change` crate provides
//! them.

use substreams_entity_change::pb::entity::EntityChanges;
use substreams_entity_change::tables::{Row, Tables};
use vstd::prelude::*;

verus! {

/// Changes to the rows of tables.
#[verifier::external_type_specification]
#[verifier::external_body]
pub struct ExTables(substreams_entity_change::tables::Tables);

/// Changes to one row.
#[verifier::external_type_specification]
#[verifier::external_body]
pub struct ExRow(substreams_entity_change::tables::Row);

/// A list of row changes, ready to be sent.
#[verifier::external_type_specification]
#[verifier::external_body]
pub struct ExEntityChanges(substreams_entity_change::pb::entity::EntityChanges);

/// What is to happen to a row.
pub enum Operation {
    Unspecified,
    Create,
    Update,
    Delete,
    Final,
}

/// The new value of a column. Only texts are told apart here.
pub enum Value {
    Text(Seq<char>),
    Other,
}

/// The new values of a row's columns, by name.
pub type Columns = Map<Seq<char>, Value>;

/// The changes to one row.
pub struct RowChange {
    pub operation: Operation,
    pub columns: Columns,
    /// Whether the row is not to change any more.
    pub finalized: bool,
}

/// The changes to the rows of tables, by table name and row key.
pub type Rows = Map<(Seq<char>, Seq<char>), RowChange>;

/// What an entry of a list of row changes says of a column.
pub struct ColumnChange {
    pub name: Seq<char>,
    pub new_value: Option<Value>,
    pub old_value: Option<Value>,
}

/// One entry of a list of row changes.
pub struct Change {
    pub table: Seq<char>,
    pub key: Seq<char>,
    pub ordinal: u64,
    pub operation: Operation,
    pub columns: Seq<ColumnChange>,
}

/// The changes that `t` holds.
pub uninterp spec fn table_rows(t: Tables) -> Rows;

/// What is to happen to the row of `r`.
pub uninterp spec fn row_operation(r: Row) -> Operation;

/// The new column values that `r` holds.
pub uninterp spec fn row_columns(r: Row) -> Columns;

/// Whether the row of `r` is marked as final.
pub uninterp spec fn row_finalized(r: Row) -> bool;

/// The entries of `e`, in order.
pub uninterp spec fn change_list(e: EntityChanges) -> Seq<Change>;

/// What `r` holds.
pub open spec fn row_change(r: Row) -> RowChange {
    RowChange {
        operation: row_operation(r),
        columns: row_columns(r),
        finalized: row_finalized(r),
    }
}

/// No table changes.
pub open spec fn no_rows() -> Rows {
    Map::empty()
}

/// The changes to a row so far: none, if it was not named yet.
pub open spec fn row_at(rows: Rows, table: Seq<char>, key: Seq<char>) -> RowChange {
    if rows.contains_key((table, key)) {
        rows[(table, key)]
    } else {
        RowChange { operation: Operation::Unspecified, columns: Map::empty(), finalized: false }
    }
}

/// Whether a row can still be created.
pub open spec fn can_create(rows: Rows, table: Seq<char>, key: Seq<char>) -> bool {
    match row_at(rows, table, key).operation {
        Operation::Update | Operation::Delete => false,
        _ => true,
    }
}

/// Whether a row can still be updated.
pub open spec fn can_update(rows: Rows, table: Seq<char>, key: Seq<char>) -> bool {
    match row_at(rows, table, key).operation {
        Operation::Delete | Operation::Final => false,
        _ => true,
    }
}

/// A row after it was named for creation.
pub open spec fn for_creation(row: RowChange) -> RowChange {
    if row.operation is Unspecified {
        RowChange { operation: Operation::Create, ..row }
    } else {
        row
    }
}

/// A row after it was named for an update.
pub open spec fn for_update(row: RowChange) -> RowChange {
    if row.operation is Unspecified {
        RowChange { operation: Operation::Update, ..row }
    } else {
        row
    }
}

/// Whether `entries` list the new value of each of `columns` once, and nothing else. No old
/// values are given.
pub open spec fn lists_columns(entries: Seq<ColumnChange>, columns: Columns) -> bool {
    &&& forall|i: int|
        0 <= i < entries.len() ==> columns.contains_key((#[trigger] entries[i]).name)
            && entries[i].new_value == Some(columns[entries[i].name])
            && entries[i].old_value is None
    &&& forall|i: int, j: int| 0 <= i < j < entries.len() ==> entries[i].name != entries[j].name
    &&& forall|name: Seq<char>| #[trigger]
        columns.contains_key(name) ==> exists|i: int|
            0 <= i < entries.len() && (#[trigger] entries[i]).name == name
}

/// Whether `change` tells what is to happen to a row.
pub open spec fn tells_row(change: Change, rows: Rows) -> bool {
    let row = rows[(change.table, change.key)];
    &&& rows.contains_key((change.table, change.key))
    &&& !(row.operation is Unspecified)
    &&& change.ordinal == 0
    &&& change.operation == row.operation
    &&& lists_columns(change.columns, row.columns)
}

/// Whether `change` tells that a row is final.
pub open spec fn tells_final(change: Change, rows: Rows) -> bool {
    let row = rows[(change.table, change.key)];
    &&& rows.contains_key((change.table, change.key))
    &&& !(row.operation is Unspecified)
    &&& row.finalized
    &&& change.ordinal == 0
    &&& change.operation is Final
    &&& change.columns.len() == 0
}

/// Whether `changes` tell of every row with something to happen to it, once, and of nothing else.
/// The order is open. A row that is marked as final is told of a second time, as final.
pub open spec fn reports(changes: Seq<Change>, rows: Rows) -> bool {
    &&& forall|i: int|
        0 <= i < changes.len() ==> tells_row(#[trigger] changes[i], rows) || tells_final(
            changes[i],
            rows,
        )
    &&& forall|table: Seq<char>, key: Seq<char>| #[trigger]
        rows.contains_key((table, key)) && !(rows[(table, key)].operation is Unspecified)
            ==> exists|i: int|
            0 <= i < changes.len() && (#[trigger] changes[i]).table == table && changes[i].key
                == key && tells_row(changes[i], rows)
    &&& forall|i: int, j: int|
        0 <= i < j < changes.len() && (#[trigger] changes[i]).table == (#[trigger] changes[j]).table
            && changes[i].key == changes[j].key ==> rows[(
            changes[i].table,
            changes[i].key,
        )].finalized
}

/// `Tables::new`: no table changes.
pub assume_specification[ Tables::new ]() -> (t: Tables)
    ensures
        table_rows(t) == no_rows(),
;

/// `Tables::create_row`: names a row for creation and hands out its changes, to be added to. It
/// panics for a row that is to be updated or deleted.
#[verifier::external_body]
pub(crate) fn create_row<'a>(tables: &'a mut Tables, table: &str, key: &str) -> (row: &'a mut Row)
    requires
        can_create(table_rows(*old(tables)), table@, key@),
    ensures
        row_change(*row) == for_creation(row_at(table_rows(*old(tables)), table@, key@)),
        table_rows(*final(tables)) == table_rows(*old(tables)).insert(
            (table@, key@),
            row_change(*final(row)),
        ),
{
    tables.create_row(table, key)
}

/// `Tables::update_row`: names a row for an update and hands out its changes, to be added to. It
/// panics for a row that is to be deleted or is final.
#[verifier::external_body]
pub(crate) fn update_row<'a>(tables: &'a mut Tables, table: &str, key: &str) -> (row: &'a mut Row)
    requires
        can_update(table_rows(*old(tables)), table@, key@),
    ensures
        row_change(*row) == for_update(row_at(table_rows(*old(tables)), table@, key@)),
        table_rows(*final(tables)) == table_rows(*old(tables)).insert(
            (table@, key@),
            row_change(*final(row)),
        ),
{
    tables.update_row(table, key)
}

/// `Row::set` of a text: gives a column a new value. It panics for a row that is to be deleted.
#[verifier::external_body]
pub(crate) fn set_text(row: &mut Row, name: &str, value: &str)
    requires
        !(row_operation(*old(row)) is Delete),
    ensures
        row_operation(*final(row)) == row_operation(*old(row)),
        row_columns(*final(row)) == row_columns(*old(row)).insert(name@, Value::Text(value@)),
        row_finalized(*final(row)) == row_finalized(*old(row)),
{
    row.set(name, value);
}

/// `Tables::to_entity_changes`: lists the changes, each with ordinal zero and without old values.
/// In what order they stand, and the columns within one, is not said: both follow a hash map.
#[verifier::external_body]
pub(crate) fn to_entity_changes(tables: Tables) -> (r: EntityChanges)
    ensures
        reports(change_list(r), table_rows(tables)),
{
    tables.to_entity_changes()
}

} // verus!
