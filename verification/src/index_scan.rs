//! Planning of a scan over a secondary index: which key range of the store
//! holds the entries that a comparison selects, and in which direction to
//! walk it.

use crate::error::StorageError;
use crate::keys::{build_index_key, build_index_key_prefix, index_prefix_text, value_cmp_be_bytes};
use crate::snapshot::{Snapshot, WriteState};
use gluesql_core::data::Value;
use vstd::prelude::*;
use vstd::utf8::*;

verus! {

/// Index of the last byte of `key` that is not 255, or -1 when there is none.
pub open spec fn last_non_max(key: Seq<u8>) -> int
    decreases key.len(),
{
    if key.len() == 0 {
        -1
    } else if key.last() != 255 {
        key.len() - 1
    } else {
        last_non_max(key.drop_last())
    }
}

/// `key` with its last byte below 255 increased by one; a key of only 255s
/// stays as it is.
pub open spec fn incremented(key: Seq<u8>) -> Seq<u8> {
    let j = last_non_max(key);
    if j >= 0 {
        key.update(j, (key[j] + 1) as u8)
    } else {
        key
    }
}

/// Strict byte-wise lexicographic order, the order in which the store keeps
/// its keys.
pub open spec fn lex_lt(a: Seq<u8>, b: Seq<u8>) -> bool {
    exists|j: int|
        0 <= j <= a.len() && j < b.len() && a.take(j) == b.take(j) && (j == a.len() || a[j]
            < b[j])
}

proof fn lemma_last_non_max_range(key: Seq<u8>)
    ensures
        -1 <= last_non_max(key) < key.len(),
        last_non_max(key) >= 0 ==> key[last_non_max(key)] != 255,
        forall|k: int| last_non_max(key) < k < key.len() ==> key[k] == 255,
    decreases key.len(),
{
    if key.len() > 0 && key.last() == 255 {
        lemma_last_non_max_range(key.drop_last());
        assert forall|k: int| last_non_max(key) < k < key.len() implies key[k] == 255 by {
            if k < key.len() - 1 {
                assert(key.drop_last()[k] == key[k]);
            }
        }
    }
}

proof fn lemma_last_non_max_tail(key: Seq<u8>, i: int)
    requires
        0 <= i <= key.len(),
        forall|k: int| i <= k < key.len() ==> key[k] == 255,
    ensures
        last_non_max(key) == last_non_max(key.take(i)),
    decreases key.len() - i,
{
    if i < key.len() {
        assert(key.drop_last().take(i) =~= key.take(i));
        lemma_last_non_max_tail(key.drop_last(), i);
    } else {
        assert(key.take(i) =~= key);
    }
}

/// The upper bound that closes a scan over every key starting with `key`.
pub fn increment_key(key: Vec<u8>) -> (r: Vec<u8>)
    ensures
        r@ == incremented(key@),
{
    let ghost orig = key@;
    let mut v = key;
    let mut i: usize = v.len();
    while i > 0
        invariant
            i <= v.len(),
            v@ == orig,
            orig == key@,
            forall|k: int| i <= k < orig.len() ==> orig[k] == 255,
        decreases i,
    {
        if v[i - 1] != 255 {
            proof {
                lemma_last_non_max_tail(orig, i as int);
                assert(orig.take(i as int).last() == orig[i - 1]);
                assert(last_non_max(orig.take(i as int)) == i - 1);
                assert(last_non_max(orig) == i - 1);
            }
            let b = v[i - 1] + 1;
            v.set(i - 1, b);
            assert(v@ =~= incremented(orig));
            return v;
        }
        i = i - 1;
    }
    proof {
        lemma_last_non_max_tail(orig, 0);
    }
    v
}

/// Every key that starts with `prefix` sorts below `incremented(prefix)`,
/// unless `prefix` is made only of 255s: so `incremented(prefix)` closes the
/// scan over the prefix, and a key sorts below its own increment.
pub proof fn lemma_incremented_bounds_prefix(prefix: Seq<u8>, key: Seq<u8>)
    requires
        last_non_max(prefix) >= 0,
        prefix.is_prefix_of(key),
    ensures
        lex_lt(key, incremented(prefix)),
        lex_lt(prefix, incremented(prefix)),
{
    lemma_last_non_max_range(prefix);
    let j = last_non_max(prefix);
    let inc = incremented(prefix);
    assert(key.take(j) =~= inc.take(j));
    assert(prefix.take(j) =~= inc.take(j));
    assert(key[j] == prefix[j]);
    assert(lex_lt(key, inc));
    assert(lex_lt(prefix, inc));
}

/// A comparison on an indexed column.
#[derive(Clone, Copy, Debug, PartialEq, Eq)]
pub enum IndexOp {
    Eq,
    Gt,
    GtEq,
    Lt,
    LtEq,
}

/// The keys a scan visits.
pub enum IndexScanBounds {
    /// Every key starting with these bytes.
    Prefix(Vec<u8>),
    /// This key only.
    Exact(Vec<u8>),
    /// Keys from `start` (included) to `end`, which is included when
    /// `end_inclusive` holds.
    Range { start: Vec<u8>, end: Vec<u8>, end_inclusive: bool },
}

/// How to scan an index: which keys, in which order, and how many leading
/// bytes of a stored key to drop to get the row key back.
pub struct IndexScanPlan {
    pub bounds: IndexScanBounds,
    pub descending: bool,
    pub prefix_len: usize,
}

/// The bounds a comparison selects, given the index prefix `p` and the full
/// key `k` of the compared value.
pub open spec fn bounds_for(op: IndexOp, p: Seq<u8>, k: Seq<u8>, b: IndexScanBounds) -> bool {
    match op {
        IndexOp::Eq => b matches IndexScanBounds::Exact(e) && e@ == k,
        IndexOp::Gt => b matches IndexScanBounds::Range { start, end, end_inclusive } && start@
            == incremented(k) && end@ == incremented(p) && !end_inclusive,
        IndexOp::GtEq => b matches IndexScanBounds::Range { start, end, end_inclusive } && start@
            == k && end@ == incremented(p) && !end_inclusive,
        IndexOp::Lt => b matches IndexScanBounds::Range { start, end, end_inclusive } && start@
            == p && end@ == k && !end_inclusive,
        IndexOp::LtEq => b matches IndexScanBounds::Range { start, end, end_inclusive } && start@
            == p && end@ == k && end_inclusive,
    }
}

/// Whether a scan with bounds `b` visits the stored key `x`.
pub open spec fn scans(b: IndexScanBounds, x: Seq<u8>) -> bool {
    match b {
        IndexScanBounds::Prefix(p) => p@.is_prefix_of(x),
        IndexScanBounds::Exact(k) => x == k@,
        IndexScanBounds::Range { start, end, end_inclusive } => (x == start@ || lex_lt(start@, x)) && (
        lex_lt(x, end@) || (end_inclusive && x == end@)),
    }
}

proof fn lemma_prefix_not_above(p: Seq<u8>, x: Seq<u8>)
    requires
        p.is_prefix_of(x),
    ensures
        x == p || lex_lt(p, x),
{
    if x.len() > p.len() {
        assert(p.take(p.len() as int) =~= x.take(p.len() as int));
        assert(lex_lt(p, x));
    } else {
        assert(x =~= p);
    }
}

proof fn lemma_lex_lt_irreflexive(x: Seq<u8>)
    ensures
        !lex_lt(x, x),
{
}

/// A scan for `column < v` visits exactly the keys of the index (those
/// starting with the index prefix `p`) that sort below the key `p + vb` of
/// `v`: in particular never the key of `v` itself. `vb` is the encoding of
/// `v`, and the bounds are those `plan_index_scan` gives for `Lt`.
pub proof fn lemma_lt_scans_keys_below(p: Seq<u8>, vb: Seq<u8>, b: IndexScanBounds, x: Seq<u8>)
    requires
        bounds_for(IndexOp::Lt, p, p + vb, b),
        p.is_prefix_of(x),
    ensures
        scans(b, x) <==> lex_lt(x, p + vb),
        !scans(b, p + vb),
{
    lemma_prefix_not_above(p, x);
    lemma_lex_lt_irreflexive(p + vb);
}

/// A scan for `column <= v` visits exactly the keys of the index that sort
/// below the key of `v`, and that key itself.
pub proof fn lemma_lte_scans_keys_up_to(p: Seq<u8>, vb: Seq<u8>, b: IndexScanBounds, x: Seq<u8>)
    requires
        bounds_for(IndexOp::LtEq, p, p + vb, b),
        p.is_prefix_of(x),
    ensures
        scans(b, x) <==> (lex_lt(x, p + vb) || x == p + vb),
{
    lemma_prefix_not_above(p, x);
}

proof fn lemma_lex_lt_transitive(a: Seq<u8>, b: Seq<u8>, c: Seq<u8>)
    requires
        lex_lt(a, b),
        lex_lt(b, c),
    ensures
        lex_lt(a, c),
{
    let i = choose|i: int|
        0 <= i <= a.len() && i < b.len() && a.take(i) == b.take(i) && (i == a.len() || a[i] < b[i]);
    let j = choose|j: int|
        0 <= j <= b.len() && j < c.len() && b.take(j) == c.take(j) && (j == b.len() || b[j] < c[j]);
    if i < j {
        assert(b.take(i) =~= c.take(j).take(i));
        assert(b.take(i) =~= b.take(j).take(i));
        assert(a.take(i) =~= c.take(i));
        if i < a.len() {
            assert(b[i] == b.take(j)[i]);
            assert(c[i] == c.take(j)[i]);
        }
        assert(lex_lt(a, c));
    } else if j < i {
        assert(a.take(j) =~= a.take(i).take(j));
        assert(b.take(j) =~= b.take(i).take(j));
        assert(a.take(j) =~= c.take(j));
        assert(a[j] == a.take(i)[j]);
        assert(b[j] == b.take(i)[j]);
        assert(lex_lt(a, c));
    } else {
        assert(a.take(i) =~= c.take(i));
        assert(lex_lt(a, c));
    }
}

/// A scan for `column >= v` visits exactly the keys of the index that are
/// the key of `v` or sort above it (the index prefix must have a byte below
/// 255, so that its increment closes the index).
pub proof fn lemma_gte_scans_keys_from(p: Seq<u8>, vb: Seq<u8>, b: IndexScanBounds, x: Seq<u8>)
    requires
        bounds_for(IndexOp::GtEq, p, p + vb, b),
        p.is_prefix_of(x),
        last_non_max(p) >= 0,
    ensures
        scans(b, x) <==> (x == p + vb || lex_lt(p + vb, x)),
{
    lemma_incremented_bounds_prefix(p, x);
}

/// A scan for `column > v` visits only keys of the index that sort above the
/// key of `v`, never that key itself (when the key has a byte below 255).
pub proof fn lemma_gt_scans_keys_above(p: Seq<u8>, vb: Seq<u8>, b: IndexScanBounds, x: Seq<u8>)
    requires
        bounds_for(IndexOp::Gt, p, p + vb, b),
        last_non_max(p + vb) >= 0,
    ensures
        scans(b, x) ==> lex_lt(p + vb, x),
        !scans(b, p + vb),
{
    let k = p + vb;
    assert(k.is_prefix_of(k));
    lemma_incremented_bounds_prefix(k, k);
    if scans(b, x) && x != incremented(k) {
        lemma_lex_lt_transitive(k, incremented(k), x);
    }
    if scans(b, k) {
        if k != incremented(k) {
            lemma_lex_lt_transitive(k, incremented(k), k);
        }
        lemma_lex_lt_irreflexive(k);
    }
}

/// A scan for `column = v` visits the key of `v` and no other.
pub proof fn lemma_eq_scans_only_the_key(p: Seq<u8>, vb: Seq<u8>, b: IndexScanBounds, x: Seq<u8>)
    requires
        bounds_for(IndexOp::Eq, p, p + vb, b),
    ensures
        scans(b, x) <==> x == p + vb,
{
}

/// Plans a scan of index `index_name` of table `table_name`: without a
/// comparison the whole index, with one the range it selects; ascending
/// unless `asc` is `Some(false)`. Fails when the compared value has no key
/// encoding.
pub fn plan_index_scan(
    table_name: &str,
    index_name: &str,
    asc: Option<bool>,
    cmp_value: Option<(IndexOp, Value)>,
) -> (r: Result<IndexScanPlan, StorageError>)
    ensures
        ({
            let p = encode_utf8(index_prefix_text(table_name@, index_name@));
            match cmp_value {
                None => r matches Ok(plan) && plan.bounds matches IndexScanBounds::Prefix(b) && b@
                    == p && plan.descending == (asc == Some(false)) && plan.prefix_len == p.len(),
                Some((op, v)) => match value_cmp_be_bytes(v) {
                    None => r is Err,
                    Some(vb) => r matches Ok(plan) && bounds_for(op, p, p + vb, plan.bounds)
                        && plan.descending == (asc == Some(false)) && plan.prefix_len == p.len(),
                },
            }
        }),
{
    let prefix = build_index_key_prefix(table_name, index_name);
    let prefix_len = prefix.len();
    let descending = match asc {
        Some(false) => true,
        _ => false,
    };
    let bounds = match cmp_value {
        None => IndexScanBounds::Prefix(prefix),
        Some((op, value)) => {
            let key = match build_index_key(table_name, index_name, &value) {
                Ok(k) => k,
                Err(e) => {
                    return Err(e);
                },
            };
            match op {
                IndexOp::Eq => IndexScanBounds::Exact(key),
                IndexOp::Gt => IndexScanBounds::Range {
                    start: increment_key(key),
                    end: increment_key(prefix),
                    end_inclusive: false,
                },
                IndexOp::GtEq => IndexScanBounds::Range {
                    start: key,
                    end: increment_key(prefix),
                    end_inclusive: false,
                },
                IndexOp::Lt => IndexScanBounds::Range { start: prefix, end: key, end_inclusive: false },
                IndexOp::LtEq => IndexScanBounds::Range {
                    start: prefix,
                    end: key,
                    end_inclusive: true,
                },
            }
        },
    };
    Ok(IndexScanPlan { bounds, descending, prefix_len })
}

/// A data key without its first `prefix_len` bytes (empty when it is
/// shorter).
pub open spec fn index_row_key_of(key: Seq<u8>, prefix_len: nat) -> Seq<u8> {
    if prefix_len <= key.len() {
        key.skip(prefix_len as int)
    } else {
        Seq::empty()
    }
}

/// The row key reported for a data key found through an index: the data key
/// without its first `prefix_len` bytes.
pub fn index_row_key(data_key: &Vec<u8>, prefix_len: usize) -> (r: Vec<u8>)
    ensures
        r@ == index_row_key_of(data_key@, prefix_len as nat),
{
    let mut r: Vec<u8> = Vec::new();
    let mut i: usize = prefix_len;
    if i > data_key.len() {
        i = data_key.len();
    }
    let start = i;
    while i < data_key.len()
        invariant
            start <= i <= data_key.len(),
            start == if prefix_len <= data_key.len() { prefix_len as int } else { data_key.len() as int },
            r@ == data_key@.subrange(start as int, i as int),
        decreases data_key.len() - i,
    {
        r.push(data_key[i]);
        i = i + 1;
        assert(r@ =~= data_key@.subrange(start as int, i as int));
    }
    if prefix_len <= data_key.len() {
        assert(r@ =~= data_key@.skip(prefix_len as int));
    } else {
        assert(r@ =~= Seq::<u8>::empty());
    }
    r
}

/// Resolves one entry of an index: the data key that the entry holds for a
/// reader in `state`, if it is visible to it.
pub fn visible_index_entry(entry: Snapshot<Vec<u8>>, state: WriteState) -> (r: Option<Vec<u8>>)
    ensures
        r == entry.visible(state),
{
    entry.take(state)
}

/// Adds to an index entry list the data key written by transaction `tx_id`.
pub fn add_index_entry(entries: &mut Vec<Snapshot<Vec<u8>>>, tx_id: u64, data_key: Vec<u8>)
    ensures
        final(entries)@ == old(entries)@.push(Snapshot::created(tx_id, data_key)),
{
    entries.push(Snapshot::new(tx_id, data_key));
}

/// An index entry as a scan meets it: the snapshot of the data key that the
/// entry holds, and the stored snapshot of that data key (`None` when the key
/// holds nothing; the scan does not look it up when the entry is hidden).
pub type IndexedEntry<T> = (Snapshot<Vec<u8>>, Option<Snapshot<T>>);

/// The rows found so far after one more entry; `None` once an entry pointed
/// at a data key that holds nothing.
pub open spec fn scan_step<T>(
    found: Option<Seq<(Seq<u8>, T)>>,
    entry: IndexedEntry<T>,
    state: WriteState,
    prefix_len: nat,
) -> Option<Seq<(Seq<u8>, T)>> {
    match found {
        None => None,
        Some(rows) => match entry.0.visible(state) {
            None => Some(rows),
            Some(key) => match entry.1 {
                None => None,
                Some(stored) => match stored.visible(state) {
                    None => Some(rows),
                    Some(row) => Some(rows.push((index_row_key_of(key@, prefix_len), row))),
                },
            },
        },
    }
}

/// The rows found after the entries of one index key, in their stored order.
pub open spec fn entries_rows<T>(
    found: Option<Seq<(Seq<u8>, T)>>,
    entries: Seq<IndexedEntry<T>>,
    state: WriteState,
    prefix_len: nat,
) -> Option<Seq<(Seq<u8>, T)>>
    decreases entries.len(),
{
    if entries.len() == 0 {
        found
    } else {
        scan_step(
            entries_rows(found, entries.drop_last(), state, prefix_len),
            entries.last(),
            state,
            prefix_len,
        )
    }
}

/// The rows found after the entry lists of several index keys, in the order
/// given.
pub open spec fn groups_rows<T>(
    found: Option<Seq<(Seq<u8>, T)>>,
    groups: Seq<Vec<IndexedEntry<T>>>,
    state: WriteState,
    prefix_len: nat,
) -> Option<Seq<(Seq<u8>, T)>>
    decreases groups.len(),
{
    if groups.len() == 0 {
        found
    } else {
        entries_rows(
            groups_rows(found, groups.drop_last(), state, prefix_len),
            groups.last()@,
            state,
            prefix_len,
        )
    }
}

/// The rows an index scan yields for a reader in `state`, given the entry
/// lists of the index keys in the range, in store order: the keys are walked
/// forwards, or backwards for a descending scan, and each list in its stored
/// order. An entry hidden from the reader, or whose row is hidden, yields
/// nothing; each other entry yields its row under the data key without its
/// first `prefix_len` bytes. `None` when a visible entry points at a data key
/// that holds nothing.
pub open spec fn index_scan_rows_of<T>(
    groups: Seq<Vec<IndexedEntry<T>>>,
    descending: bool,
    state: WriteState,
    prefix_len: nat,
) -> Option<Seq<(Seq<u8>, T)>> {
    groups_rows(
        Some(Seq::empty()),
        if descending { groups.reverse() } else { groups },
        state,
        prefix_len,
    )
}

/// The rows as plain values: each key by its bytes.
pub open spec fn rows_view<T>(rows: Seq<(Vec<u8>, T)>) -> Seq<(Seq<u8>, T)> {
    rows.map_values(|r: (Vec<u8>, T)| (r.0@, r.1))
}

/// An index entry pointed at a data key that holds no row.
#[derive(Clone, Copy, Debug, PartialEq, Eq)]
pub struct EmptyIndexValue;

fn reversed<A>(v: Vec<A>) -> (r: Vec<A>)
    ensures
        r@ == v@.reverse(),
{
    let ghost orig = v@;
    let mut rest = v;
    let mut out: Vec<A> = Vec::new();
    while rest.len() > 0
        invariant
            orig =~= rest@ + out@.reverse(),
        decreases rest.len(),
    {
        let ghost old_rest = rest@;
        let ghost old_out = out@;
        let e = rest.pop().unwrap();
        out.push(e);
        proof {
            assert(out@.reverse() =~= seq![e] + old_out.reverse());
            assert(old_rest =~= rest@.push(e));
        }
    }
    assert(out@ =~= orig.reverse());
    out
}

/// The rows of an index scan, from the entry lists of the index keys in the
/// range (in store order) and, for each entry visible to the reader, the
/// stored snapshot of its data key.
pub fn index_scan_rows<T: Clone>(
    groups: Vec<Vec<IndexedEntry<T>>>,
    descending: bool,
    state: WriteState,
    prefix_len: usize,
) -> (r: Result<Vec<(Vec<u8>, T)>, EmptyIndexValue>)
    ensures
        match index_scan_rows_of(groups@, descending, state, prefix_len as nat) {
            Some(rows) => r matches Ok(v) && rows_view(v@) == rows,
            None => r is Err,
        },
{
    let ghost visit = if descending { groups@.reverse() } else { groups@ };
    let ghost n = visit.len();
    let mut pending = if descending {
        groups
    } else {
        reversed(groups)
    };
    assert(pending@ =~= visit.reverse());
    let mut out: Vec<(Vec<u8>, T)> = Vec::new();
    let mut failed = false;
    while pending.len() > 0
        invariant
            pending@.len() <= n,
            n == visit.len(),
            pending@.reverse() =~= visit.subrange(n - pending@.len(), n as int),
            groups_rows(Some(Seq::empty()), visit.take(n - pending@.len()), state, prefix_len as nat)
                == (if failed { None } else { Some(rows_view(out@)) }),
        decreases pending.len(),
    {
        let ghost done = n - pending@.len();
        let ghost old_pending = pending@;
        let group = pending.pop().unwrap();
        let ghost g = group@;
        proof {
            assert(old_pending.reverse()[0] == old_pending.last());
            assert(visit.subrange(done, n as int)[0] == visit[done]);
            assert(pending@.reverse() =~= old_pending.reverse().drop_first());
            assert(visit.take(done + 1).drop_last() =~= visit.take(done));
            assert(visit.take(done + 1).last() == visit[done]);
        }
        let ghost before: Option<Seq<(Seq<u8>, T)>> = if failed {
            None
        } else {
            Some(rows_view(out@))
        };
        let ghost m = g.len();
        let mut entries = reversed(group);
        while entries.len() > 0
            invariant
                entries@.len() <= m,
                m == g.len(),
                entries@.reverse() =~= g.subrange(m - entries@.len(), m as int),
                entries_rows(before, g.take(m - entries@.len()), state, prefix_len as nat) == (if failed {
                    None
                } else {
                    Some(rows_view(out@))
                }),
            decreases entries.len(),
        {
            let ghost j = m - entries@.len();
            let ghost old_entries = entries@;
            let ghost old_out = out@;
            let (key_snapshot, stored) = entries.pop().unwrap();
            proof {
                assert(old_entries.reverse()[0] == old_entries.last());
                assert(g.subrange(j, m as int)[0] == g[j]);
                assert(g[j] == (key_snapshot, stored));
                assert(entries@.reverse() =~= old_entries.reverse().drop_first());
                assert(g.take(j + 1).drop_last() =~= g.take(j));
                assert(g.take(j + 1).last() == g[j]);
            }
            if !failed {
                match key_snapshot.take(state) {
                    None => {},
                    Some(key) => match stored {
                        None => {
                            failed = true;
                        },
                        Some(snapshot) => match snapshot.take(state) {
                            None => {},
                            Some(row) => {
                                let row_key = index_row_key(&key, prefix_len);
                                out.push((row_key, row));
                                proof {
                                    assert(rows_view(out@) =~= rows_view(old_out).push(
                                        (row_key@, row),
                                    ));
                                }
                            },
                        },
                    },
                }
            }
        }
        proof {
            assert(g.take(m as int) =~= g);
        }
    }
    assert(visit.take(n as int) =~= visit);
    if failed {
        Err(EmptyIndexValue)
    } else {
        Ok(out)
    }
}

} // verus!
