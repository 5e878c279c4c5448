//! The write path of the host's storage: how a transaction's state evolves,
//! and what each row operation does to the stored snapshots. Reading and
//! writing the bytes of the store is done by the caller.

use crate::error::StorageError;
use crate::snapshot::{Snapshot, WriteState};
use vstd::prelude::*;
use vstd::string::*;

verus! {

/// The state of the write that the transaction counter `counter` starts, and
/// the counter after it (the counter wraps around as an atomic does).
pub fn start_write(counter: u64) -> (r: (WriteState, u64))
    ensures
        r.0.tx_id == counter,
        r.0.in_progress,
        r.1 == (if counter == u64::MAX { 0 } else { counter + 1 }),
{
    let next = if counter == u64::MAX { 0 } else { counter + 1 };
    (WriteState { tx_id: counter, in_progress: true }, next)
}

/// On start-up, the transaction counter to resume from when the stored write
/// state shows an unfinished write.
pub fn recovered_tx_counter(stored: Option<WriteState>) -> (r: Option<u64>)
    ensures
        r == (match stored {
            Some(s) => if s.in_progress { Some(s.tx_id) } else { None },
            None => None,
        }),
{
    match stored {
        Some(s) => if s.in_progress { Some(s.tx_id) } else { None },
        None => None,
    }
}

/// The row operations of a write transaction.
#[derive(Clone, Copy, Debug, PartialEq, Eq)]
pub enum RowWrite {
    /// Adds a row under a new key.
    Insert,
    /// Writes a row, whether or not its key is taken.
    Save,
    /// Changes one column of a row.
    UpdateField,
    /// Removes a row.
    Delete,
}

/// Why a row operation was refused.
#[derive(Clone, Copy, Debug, PartialEq, Eq)]
pub enum WriteRefusal {
    /// An insert under a key that already holds a row.
    DuplicateInsertion,
    /// A delete of a key that holds no row.
    MissingRow,
}

/// Whether a row operation may proceed, given whether its key holds a row
/// visible to the writing transaction: an insert needs a free key, a delete
/// an existing row; saves and field updates always proceed.
pub fn row_write_guard(op: RowWrite, row_exists: bool) -> (r: Result<(), WriteRefusal>)
    ensures
        r == (match op {
            RowWrite::Insert => if row_exists {
                Err(WriteRefusal::DuplicateInsertion)
            } else {
                Ok(())
            },
            RowWrite::Delete => if row_exists {
                Ok(())
            } else {
                Err(WriteRefusal::MissingRow)
            },
            _ => Ok(()),
        }),
{
    match op {
        RowWrite::Insert => if row_exists {
            Err(WriteRefusal::DuplicateInsertion)
        } else {
            Ok(())
        },
        RowWrite::Delete => if row_exists {
            Ok(())
        } else {
            Err(WriteRefusal::MissingRow)
        },
        _ => Ok(()),
    }
}

/// Begins a transaction: only auto-committed, non-nested transactions are
/// supported; a writing connection marks its state as in progress (the
/// caller then records it).
pub fn begin_transaction(state: &mut WriteState, readonly: bool, autocommit: bool) -> (r: Result<bool, StorageError>)
    ensures
        autocommit ==> r == Ok::<bool, StorageError>(true),
        !autocommit ==> (r matches Err(StorageError::Msg(m)) && m@
            == "nested and non-autocommitted transactions are not supported"@),
        (autocommit && !readonly) ==> *final(state) == (WriteState { in_progress: true, ..*old(state) }),
        !(autocommit && !readonly) ==> *final(state) == *old(state),
{
    if !autocommit {
        return Err(
            StorageError::Msg(
                String::from_str("nested and non-autocommitted transactions are not supported"),
            ),
        );
    }
    if !readonly {
        state.in_progress = true;
    }
    Ok(true)
}

/// Commits a transaction: a writing connection marks its state as finished
/// (the caller then records it).
pub fn commit_transaction(state: &mut WriteState, readonly: bool)
    ensures
        !readonly ==> *final(state) == (WriteState { in_progress: false, ..*old(state) }),
        readonly ==> *final(state) == *old(state),
{
    if !readonly {
        state.in_progress = false;
    }
}

/// Refuses writes on a connection opened for reading.
pub fn check_writable(readonly: bool) -> (r: Result<(), StorageError>)
    ensures
        !readonly ==> r == Ok::<(), StorageError>(()),
        readonly ==> (r matches Err(StorageError::Msg(m)) && m@ == "can't write inside of read statement"@),
{
    if readonly {
        Err(StorageError::Msg(String::from_str("can't write inside of read statement")))
    } else {
        Ok(())
    }
}

/// The snapshot to store when transaction `state` writes `row` under a key
/// that held `existing`.
pub fn upsert_snapshot<T: Clone>(existing: Option<Snapshot<T>>, state: WriteState, row: T) -> (r: Snapshot<T>)
    ensures
        r == (match existing {
            Some(s) => s.updated(state, row),
            None => Snapshot::created(state.tx_id, row),
        }),
{
    match existing {
        Some(mut s) => {
            s.update(state, row);
            s
        },
        None => Snapshot::new(state.tx_id, row),
    }
}

/// What deleting the row under a key that held `existing` does: an error when
/// there is no such row, otherwise the snapshot to store, or `None` when the
/// stored snapshot stays as it is.
pub fn delete_snapshot<T: Clone>(existing: Option<Snapshot<T>>, state: WriteState) -> (r: Result<Option<Snapshot<T>>, StorageError>)
    ensures
        existing is None ==> (r matches Err(StorageError::Msg(m)) && m@ == "not found item to delete"@),
        existing matches Some(s) ==> r == Ok::<Option<Snapshot<T>>, StorageError>(s.deleted(state)),
{
    match existing {
        None => Err(StorageError::Msg(String::from_str("not found item to delete"))),
        Some(s) => Ok(s.delete(state)),
    }
}

/// The row a range read returns for a stored snapshot: its visible value, an
/// error when none is visible.
pub fn visible_row<T: Clone>(snapshot: Snapshot<T>, state: WriteState) -> (r: Result<T, StorageError>)
    ensures
        match snapshot.visible(state) {
            Some(v) => r == Ok::<T, StorageError>(v),
            None => r matches Err(StorageError::Msg(m)) && m@ == "unexpected DataRow variant"@,
        },
{
    match snapshot.take(state) {
        Some(v) => Ok(v),
        None => Err(StorageError::Msg(String::from_str("unexpected DataRow variant"))),
    }
}

/// Sets column `field` of the row a snapshot holds to `value`, in place
/// (no backup is taken); `None` when the snapshot holds no row, and nothing
/// is to be stored.
pub fn update_cell<T>(snapshot: Snapshot<Vec<T>>, field: usize, value: T) -> (r: Option<Snapshot<Vec<T>>>)
    requires
        snapshot.data matches Some(row) ==> field < row@.len(),
    ensures
        match snapshot.data {
            None => r is None,
            Some(row) => r matches Some(s) && s.data_txid == snapshot.data_txid && s.backup_txid
                == snapshot.backup_txid && s.backup == snapshot.backup && (s.data matches Some(
                new_row) && new_row@ == row@.update(field as int, value)),
        },
{
    let mut s = snapshot;
    match &mut s.data {
        Some(row) => {
            row.set(field, value);
        },
        None => {
            return None;
        },
    }
    Some(s)
}

/// The changes a rollback of `state` makes, in store order: for each touched
/// key, the snapshot to put back, or `None` to remove the key.
pub open spec fn rollback_plan<T>(entries: Seq<(Vec<u8>, Snapshot<T>)>, state: WriteState) -> Seq<(Seq<u8>, Option<Snapshot<T>>)>
    decreases entries.len(),
{
    if entries.len() == 0 {
        Seq::empty()
    } else {
        let rest = rollback_plan(entries.drop_last(), state);
        match entries.last().1.rolled_back(state) {
            None => rest,
            Some(o) => rest.push((entries.last().0@, o)),
        }
    }
}

/// Plans the rollback of transaction `state` over the stored entries: the
/// changes to make, in store order (their number is the count of affected
/// rows).
pub fn plan_rollback<T: Clone>(entries: Vec<(Vec<u8>, Snapshot<T>)>, state: WriteState) -> (r: Vec<(Vec<u8>, Option<Snapshot<T>>)>)
    requires
        forall|i: int| 0 <= i < entries@.len() ==> (#[trigger] entries@[i]).1.can_roll_back(state),
    ensures
        r@.len() == rollback_plan(entries@, state).len(),
        forall|i: int|
            0 <= i < r@.len() ==> (#[trigger] r@[i]).0@ == rollback_plan(entries@, state)[i].0
                && r@[i].1 == rollback_plan(entries@, state)[i].1,
{
    let ghost all = entries@;
    let mut out: Vec<(Vec<u8>, Option<Snapshot<T>>)> = Vec::new();
    let mut rest = entries;
    let mut pending: Vec<(Vec<u8>, Snapshot<T>)> = Vec::new();
    // move the entries over, so that popping them walks them in store order
    while rest.len() > 0
        invariant
            all =~= rest@ + pending@.reverse(),
        decreases rest.len(),
    {
        let ghost old_rest = rest@;
        let ghost old_pending = pending@;
        let e = rest.pop().unwrap();
        pending.push(e);
        proof {
            assert(pending@.reverse() =~= seq![e] + old_pending.reverse());
            assert(old_rest =~= rest@.push(e));
        }
    }
    let ghost n = all.len();
    while pending.len() > 0
        invariant
            pending@.len() <= n,
            n == all.len(),
            pending@.reverse() =~= all.subrange(n - pending@.len(), n as int),
            forall|i: int| 0 <= i < all.len() ==> (#[trigger] all[i]).1.can_roll_back(state),
            out@.len() == rollback_plan(all.take(n - pending@.len()), state).len(),
            forall|i: int|
                0 <= i < out@.len() ==> (#[trigger] out@[i]).0@ == rollback_plan(
                    all.take(n - pending@.len()),
                    state,
                )[i].0 && out@[i].1 == rollback_plan(all.take(n - pending@.len()), state)[i].1,
        decreases pending.len(),
    {
        let ghost done = n - pending@.len();
        let ghost old_pending = pending@;
        let (key, snapshot) = pending.pop().unwrap();
        proof {
            assert(old_pending.reverse()[0] == old_pending.last());
            assert(all.subrange(done, n as int)[0] == all[done]);
            assert(all[done] == (key, snapshot));
            assert(pending@.reverse() =~= old_pending.reverse().drop_first());
            assert(all.take(done + 1).drop_last() =~= all.take(done));
            assert(all.take(done + 1).last() == all[done]);
        }
        let ghost before = out@;
        match snapshot.rollback(state) {
            None => {},
            Some(change) => {
                out.push((key, change));
            },
        }
        proof {
            let plan = rollback_plan(all.take(done + 1), state);
            assert forall|i: int| 0 <= i < out@.len() implies (#[trigger] out@[i]).0@ == plan[i].0
                && out@[i].1 == plan[i].1 by {
                if i < before.len() {
                    assert(out@[i] == before[i]);
                }
            }
        }
    }
    assert(all.take(n as int) =~= all);
    out
}

/// Why a column cannot be added.
#[derive(Clone, Debug)]
pub enum AddColumnError {
    TableNotFound(String),
    SchemalessTableFound(String),
    AlreadyExistingColumn(String),
    /// The column, named here, has neither a default nor `NULL` allowed.
    DefaultValueRequired(String),
}

/// The value the rows get in a new column.
#[derive(Clone, Copy, Debug, PartialEq, Eq)]
pub enum NewColumnValue {
    /// The column's default expression, evaluated.
    EvaluateDefault,
    /// `NULL`, for a nullable column without a default.
    Null,
}

/// Checks that a column can be added to a table: the table must exist
/// (`None` otherwise) and have a schema (`Some(None)` otherwise), the column
/// must be new, and it needs a default unless it is nullable.
pub fn check_add_column(
    table_name: &str,
    columns: Option<Option<&Vec<String>>>,
    column_name: &str,
    has_default: bool,
    nullable: bool,
) -> (r: Result<NewColumnValue, AddColumnError>)
    ensures
        columns is None ==> (r matches Err(AddColumnError::TableNotFound(t)) && t@ == table_name@),
        columns matches Some(None) ==> (r matches Err(AddColumnError::SchemalessTableFound(t)) && t@
            == table_name@),
        columns matches Some(Some(cols)) ==> (if exists|i: int| 0 <= i < cols@.len() && cols@[i]@ == column_name@ {
            r matches Err(AddColumnError::AlreadyExistingColumn(c)) && c@ == column_name@
        } else if has_default {
            r == Ok::<NewColumnValue, AddColumnError>(NewColumnValue::EvaluateDefault)
        } else if nullable {
            r == Ok::<NewColumnValue, AddColumnError>(NewColumnValue::Null)
        } else {
            r matches Err(AddColumnError::DefaultValueRequired(c)) && c@ == column_name@
        }),
{
    let cols = match columns {
        None => {
            return Err(AddColumnError::TableNotFound(String::from_str(table_name)));
        },
        Some(None) => {
            return Err(AddColumnError::SchemalessTableFound(String::from_str(table_name)));
        },
        Some(Some(cols)) => cols,
    };
    let mut i: usize = 0;
    while i < cols.len()
        invariant
            i <= cols@.len(),
            columns == Some(Some(cols)),
            forall|k: int| 0 <= k < i ==> cols@[k]@ != column_name@,
        decreases cols.len() - i,
    {
        if crate::text::str_eq(cols[i].as_str(), column_name) {
            let c = String::from_str(column_name);
            assert(columns matches Some(Some(cc)) && cc@ == cols@ && cc@[i as int]@ == column_name@);
            return Err(AddColumnError::AlreadyExistingColumn(c));
        }
        i = i + 1;
    }
    if has_default {
        Ok(NewColumnValue::EvaluateDefault)
    } else if nullable {
        Ok(NewColumnValue::Null)
    } else {
        Err(AddColumnError::DefaultValueRequired(String::from_str(column_name)))
    }
}

/// What a transaction writes, every other reader reads back: the stored
/// snapshot shows the written row to everyone except readers inside that
/// transaction while it is still in progress.
pub proof fn lemma_read_after_write<T>(existing: Option<Snapshot<T>>, state: WriteState, row: T, reader: WriteState)
    requires
        !(reader.in_progress && reader.tx_id == state.tx_id),
    ensures
        (match existing {
            Some(s) => s.updated(state, row),
            None => Snapshot::created(state.tx_id, row),
        }).visible(reader) == Some(row),
{
}

/// After a row is deleted, readers outside a running transaction no longer
/// see it: either the snapshot is removed or it shows no value.
pub proof fn lemma_read_after_delete<T>(s: Snapshot<T>, state: WriteState, reader: WriteState)
    requires
        !reader.in_progress,
    ensures
        s.deleted(state) matches Some(d) ==> d.visible(reader) is None,
{
}

/// The rollback plan of one stored entry: the entry's change, if the
/// rollback touches it.
pub proof fn lemma_rollback_plan_single<T>(e: (Vec<u8>, Snapshot<T>), state: WriteState)
    ensures
        rollback_plan(seq![e], state) == (match e.1.rolled_back(state) {
            None => Seq::<(Seq<u8>, Option<Snapshot<T>>)>::empty(),
            Some(change) => seq![(e.0@, change)],
        }),
{
    let none = Seq::<(Vec<u8>, Snapshot<T>)>::empty();
    assert(seq![e].drop_last() =~= none);
    assert(seq![e].last() == e);
    assert(rollback_plan(none, state).len() == 0);
    match e.1.rolled_back(state) {
        None => {},
        Some(change) => {
            assert(rollback_plan(none, state).push((e.0@, change)) =~= seq![(e.0@, change)]);
        },
    }
}

/// Every stored entry takes part in a rollback: the plan of a run of entries
/// is the plan of its first part followed by the plan of the rest, so the
/// plan is the changes of all entries, one after the other, in store order.
pub proof fn lemma_rollback_plan_concat<T>(
    a: Seq<(Vec<u8>, Snapshot<T>)>,
    b: Seq<(Vec<u8>, Snapshot<T>)>,
    state: WriteState,
)
    ensures
        rollback_plan(a + b, state) == rollback_plan(a, state) + rollback_plan(b, state),
    decreases b.len(),
{
    if b.len() == 0 {
        assert(a + b =~= a);
        assert(rollback_plan(a, state) + rollback_plan(b, state) =~= rollback_plan(a, state));
    } else {
        lemma_rollback_plan_concat(a, b.drop_last(), state);
        assert((a + b).drop_last() =~= a + b.drop_last());
        assert((a + b).last() == b.last());
        let e = b.last();
        match e.1.rolled_back(state) {
            None => {},
            Some(o) => {
                assert((rollback_plan(a, state) + rollback_plan(b.drop_last(), state)).push((e.0@, o))
                    =~= rollback_plan(a, state) + rollback_plan(b.drop_last(), state).push(
                    (e.0@, o),
                ));
            },
        }
    }
}

/// A rollback plan changes exactly the rows the transaction touched: an
/// entry written by an earlier transaction never appears in it.
pub proof fn lemma_rollback_plan_skips_older<T>(entries: Seq<(Vec<u8>, Snapshot<T>)>, state: WriteState)
    requires
        forall|i: int| 0 <= i < entries.len() ==> (#[trigger] entries[i]).1.data_txid < state.tx_id,
    ensures
        rollback_plan(entries, state).len() == 0,
    decreases entries.len(),
{
    if entries.len() > 0 {
        lemma_rollback_plan_skips_older(entries.drop_last(), state);
        assert(entries.drop_last().len() < entries.len());
        assert(entries.last() == entries[entries.len() - 1]);
    }
}

} // verus!
