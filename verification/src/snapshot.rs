//! Multi-version storage cell: the value written by the latest transaction,
//! plus a backup of the value it replaced, so that a running transaction can
//! be rolled back and concurrent readers see the last committed value.

use vstd::prelude::*;

verus! {

/// Identity of the current write transaction and whether it is still open.
#[derive(Clone, Copy, Debug)]
pub struct WriteState {
    pub tx_id: u64,
    pub in_progress: bool,
}

/// A stored value together with the transaction that last wrote it and the
/// value (and its transaction) that this write replaced.
#[derive(Clone, Debug)]
pub struct Snapshot<T> {
    pub data_txid: u64,
    pub data: Option<T>,
    pub backup_txid: Option<u64>,
    pub backup: Option<T>,
}

impl<T> Snapshot<T> {
    /// A snapshot freshly created by transaction `txid`.
    pub open spec fn created(txid: u64, data: T) -> Self {
        Snapshot { data_txid: txid, data: Some(data), backup_txid: None, backup: None }
    }

    /// The value a reader in `state` sees: while a transaction is open, the
    /// value it is rewriting is hidden behind its backup.
    pub open spec fn visible(self, state: WriteState) -> Option<T> {
        if state.in_progress && state.tx_id == self.data_txid {
            self.backup
        } else {
            self.data
        }
    }

    /// The snapshot after transaction `state` writes `data`.
    pub open spec fn updated(self, state: WriteState, data: T) -> Self {
        if self.data_txid < state.tx_id {
            Snapshot {
                data_txid: state.tx_id,
                data: Some(data),
                backup_txid: Some(self.data_txid),
                backup: self.data,
            }
        } else {
            Snapshot { data_txid: state.tx_id, data: Some(data), ..self }
        }
    }

    /// The snapshot after transaction `state` deletes the value; `None` when
    /// nothing is left to keep.
    pub open spec fn deleted(self, state: WriteState) -> Option<Self> {
        if self.data_txid < state.tx_id {
            if self.data is Some {
                Some(
                    Snapshot {
                        data_txid: self.data_txid,
                        data: None,
                        backup_txid: Some(self.data_txid),
                        backup: self.data,
                    },
                )
            } else {
                None
            }
        } else {
            if self.backup is Some {
                Some(Snapshot { data_txid: state.tx_id, data: None, ..self })
            } else {
                None
            }
        }
    }

    /// What rolling back transaction `state` does to the snapshot: `None` when
    /// it is untouched, `Some(None)` when it must be removed, `Some(Some(s))`
    /// when it must be replaced by `s`.
    pub open spec fn rolled_back(self, state: WriteState) -> Option<Option<Self>> {
        if self.data_txid < state.tx_id {
            None
        } else if self.backup is Some {
            Some(
                Some(
                    Snapshot {
                        data_txid: self.backup_txid.unwrap(),
                        data: self.backup,
                        backup_txid: None,
                        backup: None,
                    },
                ),
            )
        } else {
            Some(None)
        }
    }

    /// A rollback of `state` can restore this snapshot: a backup that would be
    /// restored carries the transaction that wrote it.
    pub open spec fn can_roll_back(self, state: WriteState) -> bool {
        self.data_txid >= state.tx_id && self.backup is Some ==> self.backup_txid is Some
    }
}

impl<T: Clone> Snapshot<T> {
    pub fn new(txid: u64, data: T) -> (s: Self)
        ensures
            s == Self::created(txid, data),
    {
        Self { data: Some(data), data_txid: txid, backup: None, backup_txid: None }
    }

    pub fn update(&mut self, state: WriteState, data: T)
        ensures
            *final(self) == old(self).updated(state, data),
    {
        // if last modification was in a previous tx then backup current data
        if self.data_txid < state.tx_id {
            self.backup = self.data.take();
            self.backup_txid = Some(self.data_txid);
        }
        self.data = Some(data);
        self.data_txid = state.tx_id;
    }

    pub fn delete(self, state: WriteState) -> (r: Option<Self>)
        ensures
            r == self.deleted(state),
    {
        let mut this = self;
        if this.data_txid < state.tx_id {
            // last modification was in a previous tx: back up its data, if any
            match this.data.take() {
                Some(data) => {
                    this.backup = Some(data);
                    this.backup_txid = Some(this.data_txid);
                    Some(this)
                },
                None => None,
            }
        } else {
            // last modification was by the current tx: keep it only if it has a backup
            if this.backup.is_some() {
                this.data = None;
                this.data_txid = state.tx_id;
                Some(this)
            } else {
                None
            }
        }
    }

    pub fn rollback(self, state: WriteState) -> (r: Option<Option<Self>>)
        requires
            self.can_roll_back(state),
        ensures
            r == self.rolled_back(state),
    {
        let mut this = self;
        // nothing to do if modified by a previous tx
        if this.data_txid < state.tx_id {
            return None;
        }
        match this.backup.take() {
            Some(backup) => {
                this.data = Some(backup);
                let backup_txid = this.backup_txid.take();
                this.data_txid = backup_txid.unwrap();
                Some(Some(this))
            },
            // just created: remove
            None => Some(None),
        }
    }

    pub fn take(self, state: WriteState) -> (r: Option<T>)
        ensures
            r == self.visible(state),
    {
        let mut this = self;
        if state.in_progress && state.tx_id == this.data_txid {
            this.backup.take()
        } else {
            this.data.take()
        }
    }

    pub fn get(&self, state: WriteState) -> (r: Option<T>)
        ensures
            r is Some <==> self.visible(state) is Some,
            r is Some ==> cloned(self.visible(state).unwrap(), r.unwrap()),
    {
        if state.in_progress && state.tx_id == self.data_txid {
            self.backup.clone()
        } else {
            self.data.clone()
        }
    }

    pub fn get_mut(&mut self, state: WriteState) -> (r: Option<&mut T>)
        ensures
            r is Some <==> old(self).data is Some,
            r matches Some(v) ==> {
                &&& old(self).data == Some(*v)
                &&& *final(self) == Snapshot { data: Some(*final(v)), ..*old(self) }
            },
            r is None ==> *final(self) == *old(self),
    {
        match &mut self.data {
            Some(data) => Some(data),
            None => None,
        }
    }
}

/// A reader inside the transaction that rewrites a committed value keeps
/// seeing the committed value, while every other reader (including the same
/// transaction once it is no longer in progress) sees the new one.
pub proof fn lemma_update_isolated<T>(s: Snapshot<T>, state: WriteState, data: T, reader: WriteState)
    requires
        s.data_txid < state.tx_id,
    ensures
        state.in_progress ==> s.updated(state, data).visible(state) == s.data,
        !(reader.in_progress && reader.tx_id == state.tx_id) ==> s.updated(state, data).visible(reader)
            == Some(data),
{
}

/// Writing again inside the same transaction keeps the backup of the value
/// committed before it: the last write wins, the committed value survives.
pub proof fn lemma_update_twice_keeps_backup<T>(s: Snapshot<T>, state: WriteState, first: T, second: T)
    requires
        s.data_txid < state.tx_id,
    ensures
        s.updated(state, first).updated(state, second) == s.updated(state, second),
{
}

/// Rolling back a transaction that overwrote a committed value restores that
/// value (and the transaction that wrote it); a value that did not exist
/// before is removed.
pub proof fn lemma_rollback_undoes_update<T>(s: Snapshot<T>, state: WriteState, data: T)
    requires
        s.data_txid < state.tx_id,
    ensures
        s.updated(state, data).can_roll_back(state),
        s.updated(state, data).rolled_back(state) == (if s.data is Some {
            Some(Some(Snapshot::<T> { data_txid: s.data_txid, data: s.data, backup_txid: None, backup: None }))
        } else {
            Some(None)
        }),
{
}

/// Rolling back a transaction that overwrote and then deleted a committed
/// value brings the committed value back.
pub proof fn lemma_rollback_undoes_update_then_delete<T>(s: Snapshot<T>, state: WriteState, data: T)
    requires
        s.data_txid < state.tx_id,
        s.data is Some,
    ensures
        s.updated(state, data).deleted(state) matches Some(d) && d.can_roll_back(state)
            && d.rolled_back(state) == Some(Some(
            Snapshot::<T> { data_txid: s.data_txid, data: s.data, backup_txid: None, backup: None },
        )),
{
}

/// A value created by a transaction disappears when that transaction rolls
/// back, and deleting it inside the same transaction removes it outright.
pub proof fn lemma_created_then_rolled_back_or_deleted<T>(data: T, state: WriteState)
    ensures
        Snapshot::<T>::created(state.tx_id, data).can_roll_back(state),
        Snapshot::<T>::created(state.tx_id, data).rolled_back(state) == Some(None::<Snapshot<T>>),
        Snapshot::<T>::created(state.tx_id, data).deleted(state) is None,
{
}

/// Reading a value with `get` gives what `take` would give, whenever a
/// clone of a payload equals the payload (as for integers): `got` is what
/// `get` returned, `take` returns the visible value.
pub proof fn lemma_get_agrees_with_take<T: Clone>(s: Snapshot<T>, state: WriteState, got: Option<T>)
    requires
        got is Some <==> s.visible(state) is Some,
        got is Some ==> cloned(s.visible(state).unwrap(), got.unwrap()),
        forall|a: T, b: T| #[trigger] cloned(a, b) ==> a == b,
    ensures
        got == s.visible(state),
{
    if got is Some {
        assert(cloned(s.visible(state).unwrap(), got.unwrap()));
    }
}

/// A rollback leaves alone every snapshot last written by an earlier
/// transaction.
pub proof fn lemma_rollback_ignores_older<T>(s: Snapshot<T>, state: WriteState)
    requires
        s.data_txid < state.tx_id,
    ensures
        s.rolled_back(state) is None,
{
}

} // verus!
