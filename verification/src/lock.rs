//! Transaction records and the store-wide lock of the shared sled storage:
//! what releasing or unregistering a transaction writes back.

use crate::error::StorageError;
use vstd::prelude::*;
use vstd::string::*;

verus! {

/// The record of one transaction.
#[derive(Clone, Copy, Debug)]
pub struct TxData {
    pub txid: u64,
    pub alive: bool,
    pub created_at: u128,
}

/// The store-wide lock: the transaction holding it (if any), when it took
/// it, and the transaction of the last garbage collection.
#[derive(Clone, Copy, Debug)]
pub struct Lock {
    pub lock_txid: Option<u64>,
    pub lock_created_at: u128,
    pub gc_txid: Option<u64>,
}

impl Default for Lock {
    fn default() -> (r: Self)
        ensures
            r.lock_txid is None,
            r.lock_created_at == 0,
            r.gc_txid is None,
    {
        Lock { lock_txid: None, lock_created_at: 0, gc_txid: None }
    }
}

/// The records that releasing a transaction writes back: each is `None` when
/// it stays as stored.
#[derive(Clone, Copy, Debug)]
pub struct ReleaseWrites {
    pub lock: Option<Lock>,
    pub tx_data: Option<TxData>,
}

/// Releases transaction `txid`: frees the lock if it holds it (keeping the
/// garbage-collection mark) and marks its record as no longer alive. A
/// missing lock counts as a free one; a missing record is left missing.
pub fn release(stored_lock: Option<Lock>, txid: u64, stored_tx_data: Option<TxData>) -> (r:
    ReleaseWrites)
    ensures
        ({
            let held = stored_lock matches Some(l) && l.lock_txid == Some(txid);
            &&& held ==> r.lock == Some(
                Lock { lock_txid: None, lock_created_at: 0, gc_txid: stored_lock.unwrap().gc_txid },
            )
            &&& !held ==> r.lock is None
        }),
        r.tx_data == (match stored_tx_data {
            Some(t) => Some(TxData { alive: false, ..t }),
            None => None,
        }),
{
    let lock = match stored_lock {
        Some(l) => l,
        None => Lock::default(),
    };
    let new_lock = match lock.lock_txid {
        Some(holder) => if holder == txid {
            Some(Lock { lock_txid: None, lock_created_at: 0, gc_txid: lock.gc_txid })
        } else {
            None
        },
        None => None,
    };
    let new_tx_data = match stored_tx_data {
        Some(t) => Some(TxData { alive: false, ..t }),
        None => None,
    };
    ReleaseWrites { lock: new_lock, tx_data: new_tx_data }
}

/// Marks the record of a transaction as no longer alive; the record must
/// exist.
pub fn unregister(stored_tx_data: Option<TxData>) -> (r: Result<TxData, StorageError>)
    ensures
        match stored_tx_data {
            Some(t) => r == Ok::<TxData, StorageError>(TxData { alive: false, ..t }),
            None => r matches Err(StorageError::Msg(m)) && m@ == "conflict - lock does not exist"@,
        },
{
    match stored_tx_data {
        Some(t) => Ok(TxData { alive: false, ..t }),
        None => Err(StorageError::Msg(String::from_str("conflict - lock does not exist"))),
    }
}

/// The id offset to record after importing data exported with offset
/// `imported`: the larger of the two, written only when it grows.
pub fn import_id_offset(current: u64, imported: u64) -> (r: Option<u64>)
    ensures
        r == (if imported > current { Some(imported) } else { None::<u64> }),
{
    if imported > current {
        Some(imported)
    } else {
        None
    }
}

/// Whether the shared sled storage is inside a transaction.
#[derive(Clone, Copy, Debug)]
pub enum SledState {
    Idle,
    Transaction { txid: u64, created_at: u128, autocommit: bool },
}

/// The transaction (id and creation time) that a read must run in: reading
/// outside a transaction is a conflict.
pub fn active_transaction(state: &SledState, operation: &str) -> (r: Result<(u64, u128), StorageError>)
    ensures
        match *state {
            SledState::Idle => r matches Err(StorageError::Msg(m)) && m@ == "conflict - "@ + operation@
                + " failed, lock does not exist"@,
            SledState::Transaction { txid, created_at, .. } => r == Ok::<(u64, u128), StorageError>(
                (txid, created_at),
            ),
        },
{
    match state {
        SledState::Idle => {
            let mut m = String::from_str("conflict - ");
            m.append(operation);
            m.append(" failed, lock does not exist");
            Err(StorageError::Msg(m))
        },
        SledState::Transaction { txid, created_at, .. } => Ok((*txid, *created_at)),
    }
}

} // verus!
