//! The revision store: the single source of truth for the alarm table, the
//! tombstone log and the monotonic revision counter.
//!
//! The store owns three pieces of state. The alarm table is kept in id
//! order, ids are never reused, and every row carries the revision of its
//! last mutation. The tombstone log records one entry per deleted alarm id.
//! The counter is the logical clock: it only moves through
//! [`RevisionStore::next_revision`], exactly once per committed mutation,
//! and every stamped revision is bounded by it.
//!
//! Each mutating operation is specified by a pure transition function over
//! [`StoreModel`], the store's mathematical view; the laws at the end of
//! this file are proved over those transitions.

use vstd::prelude::*;

use crate::error::AlarmError;
use crate::models::{AlarmInput, AlarmModel, AlarmRecord, InputModel};
use vstd::pervasive::VecAdditionalExecFns;

verus! {

/// A record that an alarm was deleted at a given revision, retained for a
/// bounded wall-clock window so the deletion can be replicated to a
/// late-syncing companion.
#[derive(Debug)]
pub struct Tombstone {
    pub alarm_id: i32,
    pub deleted_at_revision: i64,
    pub deleted_at_timestamp: i64,
    pub label: Option<String>,
}

/// The mathematical value of a [`Tombstone`].
#[verifier::ext_equal]
pub struct TombstoneModel {
    pub alarm_id: i32,
    pub deleted_at_revision: i64,
    pub deleted_at_timestamp: i64,
    pub label: Option<Seq<char>>,
}

impl View for Tombstone {
    type V = TombstoneModel;

    open spec fn view(&self) -> TombstoneModel {
        TombstoneModel {
            alarm_id: self.alarm_id,
            deleted_at_revision: self.deleted_at_revision,
            deleted_at_timestamp: self.deleted_at_timestamp,
            label: crate::models::opt_str_view(self.label),
        }
    }
}

/// The mathematical value of the whole store.
#[verifier::ext_equal]
pub struct StoreModel {
    pub alarms: Seq<AlarmModel>,
    pub tombstones: Seq<TombstoneModel>,
    pub counter: i64,
    pub next_id: i32,
}

/// The views of a vector of alarm records.
pub open spec fn alarm_views(s: Seq<AlarmRecord>) -> Seq<AlarmModel> {
    Seq::new(s.len(), |i: int| s[i]@)
}

/// The views of a vector of tombstones.
pub open spec fn tombstone_views(s: Seq<Tombstone>) -> Seq<TombstoneModel> {
    Seq::new(s.len(), |i: int| s[i]@)
}

/// Whether some alarm in `alarms` carries `id`.
pub open spec fn has_alarm(alarms: Seq<AlarmModel>, id: i32) -> bool {
    exists|i: int| 0 <= i < alarms.len() && alarms[i].id == id
}

/// The index of the alarm carrying `id` (meaningful when ids are unique and
/// such an alarm exists).
pub open spec fn alarm_index(alarms: Seq<AlarmModel>, id: i32) -> int {
    choose|i: int| 0 <= i < alarms.len() && alarms[i].id == id
}

/// The alarm carrying `id`, if any.
pub open spec fn find_alarm(alarms: Seq<AlarmModel>, id: i32) -> Option<AlarmModel> {
    if has_alarm(alarms, id) {
        Some(alarms[alarm_index(alarms, id)])
    } else {
        None
    }
}

/// Whether some tombstone in `tombstones` carries `id`.
pub open spec fn has_tombstone(tombstones: Seq<TombstoneModel>, id: i32) -> bool {
    exists|i: int| 0 <= i < tombstones.len() && tombstones[i].alarm_id == id
}

impl StoreModel {
    /// The store's invariant: the alarm table is strictly id-ordered below
    /// `next_id`, tombstone ids are unique, and every stamped revision is
    /// bounded by the counter.
    pub open spec fn wf(self) -> bool {
        &&& forall|i: int, j: int|
            #![trigger self.alarms[i].id, self.alarms[j].id]
            0 <= i < j < self.alarms.len() ==> self.alarms[i].id < self.alarms[j].id
        &&& forall|i: int|
            0 <= i < self.alarms.len() ==> 1 <= (#[trigger] self.alarms[i].id) < self.next_id
        &&& forall|i: int|
            0 <= i < self.alarms.len() ==> 0 <= (#[trigger] self.alarms[i].revision)
                <= self.counter
        &&& forall|i: int, j: int|
            #![trigger self.tombstones[i].alarm_id, self.tombstones[j].alarm_id]
            0 <= i < j < self.tombstones.len() ==> self.tombstones[i].alarm_id
                != self.tombstones[j].alarm_id
        &&& forall|i: int|
            0 <= i < self.tombstones.len() ==> 0 <= (
            #[trigger] self.tombstones[i].deleted_at_revision) <= self.counter
        &&& 0 <= self.counter
        &&& 1 <= self.next_id
    }
}


/// Exactly the alarms whose revision lies strictly above `since`, in table
/// order: what an incremental sync transfers.
pub open spec fn alarms_since(alarms: Seq<AlarmModel>, since: i64) -> Seq<AlarmModel> {
    alarms.filter(|a: AlarmModel| a.revision > since)
}

/// Exactly the tombstones whose deletion revision lies strictly above
/// `since`, in log order.
pub open spec fn tombstones_since(ts: Seq<TombstoneModel>, since: i64) -> Seq<TombstoneModel> {
    ts.filter(|t: TombstoneModel| t.deleted_at_revision > since)
}

/// The ids of [`tombstones_since`], in log order.
pub open spec fn deleted_ids_since(ts: Seq<TombstoneModel>, since: i64) -> Seq<i32> {
    tombstones_since(ts, since).map_values(|t: TombstoneModel| t.alarm_id)
}

/// The tombstones whose wall-clock timestamp lies at or after `cutoff`:
/// what a retention purge keeps.
pub open spec fn tombstones_kept(ts: Seq<TombstoneModel>, cutoff: i64) -> Seq<TombstoneModel> {
    ts.filter(|t: TombstoneModel| t.deleted_at_timestamp >= cutoff)
}

/// [`alarms_since`] of an empty table is empty.
pub proof fn lemma_alarms_since_empty(since: i64)
    ensures
        alarms_since(Seq::<AlarmModel>::empty(), since) == Seq::<AlarmModel>::empty(),
{
    reveal(Seq::filter);
}

/// [`alarms_since`] distributes over push: the pushed alarm stays exactly
/// when its revision lies above `since`.
pub proof fn lemma_alarms_since_push(s: Seq<AlarmModel>, a: AlarmModel, since: i64)
    ensures
        alarms_since(s.push(a), since) == (if a.revision > since {
            alarms_since(s, since).push(a)
        } else {
            alarms_since(s, since)
        }),
{
    reveal(Seq::filter);
    assert(s.push(a).drop_last() =~= s);
    assert(s.push(a).last() == a);
}

/// [`tombstones_since`] of an empty log is empty.
pub proof fn lemma_tombstones_since_empty(since: i64)
    ensures
        tombstones_since(Seq::<TombstoneModel>::empty(), since) == Seq::<TombstoneModel>::empty(),
        deleted_ids_since(Seq::<TombstoneModel>::empty(), since) == Seq::<i32>::empty(),
{
    reveal(Seq::filter);
    assert(deleted_ids_since(Seq::<TombstoneModel>::empty(), since) =~= Seq::<i32>::empty());
}

/// [`tombstones_since`] and [`deleted_ids_since`] distribute over push.
pub proof fn lemma_tombstones_since_push(s: Seq<TombstoneModel>, t: TombstoneModel, since: i64)
    ensures
        tombstones_since(s.push(t), since) == (if t.deleted_at_revision > since {
            tombstones_since(s, since).push(t)
        } else {
            tombstones_since(s, since)
        }),
        deleted_ids_since(s.push(t), since) == (if t.deleted_at_revision > since {
            deleted_ids_since(s, since).push(t.alarm_id)
        } else {
            deleted_ids_since(s, since)
        }),
{
    reveal(Seq::filter);
    assert(s.push(t).drop_last() =~= s);
    assert(s.push(t).last() == t);
    if t.deleted_at_revision > since {
        assert(deleted_ids_since(s.push(t), since) =~= deleted_ids_since(s, since).push(
            t.alarm_id,
        ));
    } else {
        assert(deleted_ids_since(s.push(t), since) =~= deleted_ids_since(s, since));
    }
}

/// [`tombstones_kept`] of an empty log is empty.
pub proof fn lemma_tombstones_kept_empty(cutoff: i64)
    ensures
        tombstones_kept(Seq::<TombstoneModel>::empty(), cutoff) == Seq::<TombstoneModel>::empty(),
{
    reveal(Seq::filter);
}

/// [`tombstones_kept`] distributes over push.
pub proof fn lemma_tombstones_kept_push(s: Seq<TombstoneModel>, t: TombstoneModel, cutoff: i64)
    ensures
        tombstones_kept(s.push(t), cutoff) == (if t.deleted_at_timestamp >= cutoff {
            tombstones_kept(s, cutoff).push(t)
        } else {
            tombstones_kept(s, cutoff)
        }),
{
    reveal(Seq::filter);
    assert(s.push(t).drop_last() =~= s);
    assert(s.push(t).last() == t);
}

/// Every tombstone a retention purge keeps was in the log before it.
pub proof fn lemma_tombstones_kept_subset(ts: Seq<TombstoneModel>, cutoff: i64)
    ensures
        forall|k: int|
            0 <= k < tombstones_kept(ts, cutoff).len() ==> ts.contains(
                #[trigger] tombstones_kept(ts, cutoff)[k],
            ),
    decreases ts.len(),
{
    reveal(Seq::filter);
    if ts.len() > 0 {
        let prev = ts.drop_last();
        lemma_tombstones_kept_subset(prev, cutoff);
        assert(prev.push(ts.last()) =~= ts);
        lemma_tombstones_kept_push(prev, ts.last(), cutoff);
        assert forall|k: int| 0 <= k < tombstones_kept(ts, cutoff).len() implies ts.contains(
            #[trigger] tombstones_kept(ts, cutoff)[k],
        ) by {
            let f = tombstones_kept(ts, cutoff);
            let pf = tombstones_kept(prev, cutoff);
            if ts.last().deleted_at_timestamp >= cutoff && k == pf.len() {
                assert(f[k] == ts.last());
                assert(ts[ts.len() - 1] == ts.last());
            } else {
                assert(f[k] == pf[k]);
                assert(prev.contains(pf[k]));
                let p = choose|p: int| 0 <= p < prev.len() && prev[p] == pf[k];
                assert(ts[p] == pf[k]);
            }
        }
    }
}

/// A retention purge keeps tombstone ids pairwise distinct.
pub proof fn lemma_tombstones_kept_distinct(ts: Seq<TombstoneModel>, cutoff: i64)
    requires
        forall|p: int, q: int|
            #![trigger ts[p].alarm_id, ts[q].alarm_id]
            0 <= p < q < ts.len() ==> ts[p].alarm_id != ts[q].alarm_id,
    ensures
        forall|a: int, b: int|
            #![trigger tombstones_kept(ts, cutoff)[a].alarm_id, tombstones_kept(ts, cutoff)[b].alarm_id]
            0 <= a < b < tombstones_kept(ts, cutoff).len() ==> tombstones_kept(ts, cutoff)[a].alarm_id
                != tombstones_kept(ts, cutoff)[b].alarm_id,
    decreases ts.len(),
{
    reveal(Seq::filter);
    if ts.len() > 0 {
        let prev = ts.drop_last();
        assert forall|p: int, q: int|
            #![trigger prev[p].alarm_id, prev[q].alarm_id]
            0 <= p < q < prev.len() implies prev[p].alarm_id != prev[q].alarm_id by {
            assert(prev[p] == ts[p] && prev[q] == ts[q]);
            assert(ts[p].alarm_id != ts[q].alarm_id);
        }
        lemma_tombstones_kept_distinct(prev, cutoff);
        lemma_tombstones_kept_subset(prev, cutoff);
        assert(prev.push(ts.last()) =~= ts);
        lemma_tombstones_kept_push(prev, ts.last(), cutoff);
        assert forall|a: int, b: int|
            #![trigger tombstones_kept(ts, cutoff)[a].alarm_id, tombstones_kept(ts, cutoff)[b].alarm_id]
            0 <= a < b < tombstones_kept(ts, cutoff).len() implies tombstones_kept(
            ts,
            cutoff,
        )[a].alarm_id != tombstones_kept(ts, cutoff)[b].alarm_id by {
            let f = tombstones_kept(ts, cutoff);
            let pf = tombstones_kept(prev, cutoff);
            if ts.last().deleted_at_timestamp >= cutoff && b == pf.len() {
                assert(f[b] == ts.last());
                assert(f[a] == pf[a]);
                assert(prev.contains(pf[a]));
                let p = choose|p: int| 0 <= p < prev.len() && prev[p] == pf[a];
                assert(ts[p] == pf[a]);
                assert(ts[p].alarm_id != ts[ts.len() - 1].alarm_id);
            } else {
                assert(f[a] == pf[a] && f[b] == pf[b]);
                assert(pf[a].alarm_id != pf[b].alarm_id);
            }
        }
    }
}

/// The revision returned by [`RevisionStore::next_revision`] from a store
/// whose counter reads `counter`.
pub open spec fn spec_next_revision(counter: int) -> int {
    counter + 1
}

/// The revisions handed out by `n` successive calls of
/// [`RevisionStore::next_revision`], starting from a counter reading `c0`.
pub open spec fn revisions_of(c0: int, n: nat) -> Seq<int> {
    Seq::new(n, |i: int| spec_next_revision(c0 + i))
}

/// Monotonicity law: over any run of `n` mutations, the revisions returned
/// by [`RevisionStore::next_revision`] are strictly increasing integers —
/// no two mutations are ever assigned the same revision.
pub proof fn revisions_strictly_increase(c0: int, n: nat)
    ensures
        forall|i: int, j: int|
            0 <= i < j < n ==> #[trigger] revisions_of(c0, n)[i] < #[trigger] revisions_of(
                c0,
                n,
            )[j],
{
}

/// The store after a save, and the saved row (`None`: the input named an id
/// that no row carries, and the store is unchanged).
pub open spec fn spec_save(
    m: StoreModel,
    input: InputModel,
    next_trigger: Option<i64>,
    revision: i64,
) -> (StoreModel, Option<AlarmModel>) {
    match input.id {
        None => {
            let rec = AlarmModel::of_input(input, m.next_id, next_trigger, revision);
            (
                StoreModel {
                    alarms: m.alarms.push(rec),
                    next_id: (m.next_id + 1) as i32,
                    ..m
                },
                Some(rec),
            )
        },
        Some(id) => {
            if has_alarm(m.alarms, id) {
                let rec = AlarmModel::of_input(input, id, next_trigger, revision);
                (
                    StoreModel { alarms: m.alarms.update(alarm_index(m.alarms, id), rec), ..m },
                    Some(rec),
                )
            } else {
                (m, None)
            }
        },
    }
}

/// The store after a delete-with-tombstone, and whether it was applied
/// (`false`: a tombstone for `id` already exists, and the store is
/// unchanged).
pub open spec fn spec_delete_with_revision(
    m: StoreModel,
    id: i32,
    revision: i64,
    now_ms: i64,
) -> (StoreModel, bool) {
    if has_tombstone(m.tombstones, id) {
        (m, false)
    } else {
        let label = match find_alarm(m.alarms, id) {
            Some(a) => a.label,
            None => None,
        };
        let alarms2 = if has_alarm(m.alarms, id) {
            m.alarms.remove(alarm_index(m.alarms, id))
        } else {
            m.alarms
        };
        let stone = TombstoneModel {
            alarm_id: id,
            deleted_at_revision: revision,
            deleted_at_timestamp: now_ms,
            label,
        };
        (StoreModel { alarms: alarms2, tombstones: m.tombstones.push(stone), ..m }, true)
    }
}

/// The store after a snooze-style update of one row's trigger, and the
/// updated row (`None`: no row carries `id`, and the store is unchanged).
pub open spec fn spec_update_next_trigger(
    m: StoreModel,
    id: i32,
    next_trigger: Option<i64>,
    revision: i64,
) -> (StoreModel, Option<AlarmModel>) {
    if has_alarm(m.alarms, id) {
        let idx = alarm_index(m.alarms, id);
        let rec = AlarmModel { next_trigger, revision, ..m.alarms[idx] };
        (StoreModel { alarms: m.alarms.update(idx, rec), ..m }, Some(rec))
    } else {
        (m, None)
    }
}


/// Every element of a filtered sequence is an element of the original.
proof fn lemma_filter_subset<T>(s: Seq<T>, pred: spec_fn(T) -> bool)
    ensures
        forall|k: int| 0 <= k < s.filter(pred).len() ==> s.contains(#[trigger] s.filter(pred)[k]),
    decreases s.len(),
{
    reveal(Seq::filter);
    if s.len() > 0 {
        let prev = s.drop_last();
        lemma_filter_subset(prev, pred);
        assert forall|k: int| 0 <= k < s.filter(pred).len() implies s.contains(
            #[trigger] s.filter(pred)[k],
        ) by {
            let f = s.filter(pred);
            let pf = prev.filter(pred);
            if pred(s.last()) && k == pf.len() {
                assert(f[k] == s.last());
                assert(s[s.len() - 1] == s.last());
            } else {
                assert(f[k] == pf[k]);
                assert(prev.contains(pf[k]));
                let p = choose|p: int| 0 <= p < prev.len() && prev[p] == pf[k];
                assert(s[p] == pf[k]);
            }
        }
    }
}

/// Filtering preserves pairwise distinctness of a key.
proof fn lemma_filter_distinct_keys<T, K>(s: Seq<T>, pred: spec_fn(T) -> bool, key: spec_fn(T) -> K)
    requires
        forall|p: int, q: int|
            #![trigger key(s[p]), key(s[q])]
            0 <= p < q < s.len() ==> key(s[p]) != key(s[q]),
    ensures
        forall|a: int, b: int|
            #![trigger key(s.filter(pred)[a]), key(s.filter(pred)[b])]
            0 <= a < b < s.filter(pred).len() ==> key(s.filter(pred)[a]) != key(s.filter(pred)[b]),
    decreases s.len(),
{
    reveal(Seq::filter);
    if s.len() > 0 {
        let prev = s.drop_last();
        assert forall|p: int, q: int|
            #![trigger key(prev[p]), key(prev[q])]
            0 <= p < q < prev.len() implies key(prev[p]) != key(prev[q]) by {
            assert(prev[p] == s[p] && prev[q] == s[q]);
            assert(key(s[p]) != key(s[q]));
        }
        lemma_filter_distinct_keys(prev, pred, key);
        lemma_filter_subset(prev, pred);
        assert forall|a: int, b: int|
            #![trigger key(s.filter(pred)[a]), key(s.filter(pred)[b])]
            0 <= a < b < s.filter(pred).len() implies key(s.filter(pred)[a]) != key(
            s.filter(pred)[b],
        ) by {
            let f = s.filter(pred);
            let pf = prev.filter(pred);
            if pred(s.last()) && b == pf.len() {
                assert(f[b] == s.last());
                assert(f[a] == pf[a]);
                assert(prev.contains(pf[a]));
                let p = choose|p: int| 0 <= p < prev.len() && prev[p] == pf[a];
                assert(s[p] == pf[a]);
                assert(key(s[p]) != key(s[s.len() - 1]));
            } else {
                assert(f[a] == pf[a] && f[b] == pf[b]);
                assert(key(pf[a]) != key(pf[b]));
            }
        }
    }
}


/// Revision-consistency law, save: a successful save stamped with
/// `revision` leaves the saved row findable under its id, carrying exactly
/// that revision.
pub proof fn revision_consistency_save(
    m: StoreModel,
    input: InputModel,
    next_trigger: Option<i64>,
    revision: i64,
)
    requires
        m.wf(),
        m.next_id < i32::MAX,
        spec_save(m, input, next_trigger, revision).1 is Some,
    ensures
        ({
            let m2 = spec_save(m, input, next_trigger, revision).0;
            let saved = spec_save(m, input, next_trigger, revision).1.unwrap();
            find_alarm(m2.alarms, saved.id) == Some(saved) && saved.revision == revision
        }),
{
    let m2 = spec_save(m, input, next_trigger, revision).0;
    let saved = spec_save(m, input, next_trigger, revision).1.unwrap();
    match input.id {
        None => {
            let alarms2 = m.alarms.push(saved);
            assert(alarms2[m.alarms.len() as int] == saved);
            assert forall|p: int, q: int|
                #![trigger alarms2[p].id, alarms2[q].id]
                0 <= p < q < alarms2.len() implies alarms2[p].id < alarms2[q].id by {
                if q < m.alarms.len() {
                    assert(m.alarms[p].id < m.alarms[q].id);
                } else {
                    assert(alarms2[p] == m.alarms[p]);
                    assert(m.alarms[p].id < m.next_id);
                }
            }
            RevisionStore::lemma_found_index(alarms2, saved.id, m.alarms.len() as int);
        },
        Some(id) => {
            let idx = alarm_index(m.alarms, id);
            assert(has_alarm(m.alarms, id));
            assert(0 <= idx < m.alarms.len() && m.alarms[idx].id == id);
            let alarms2 = m.alarms.update(idx, saved);
            assert forall|p: int, q: int|
                #![trigger alarms2[p].id, alarms2[q].id]
                0 <= p < q < alarms2.len() implies alarms2[p].id < alarms2[q].id by {
                assert(m.alarms[p].id < m.alarms[q].id);
            }
            RevisionStore::lemma_found_index(alarms2, id, idx);
        },
    }
}

/// Revision-consistency law, delete: a successful delete stamped with
/// `revision` leaves no alarm under the id, and the tombstone it appended
/// carries exactly that revision.
pub proof fn revision_consistency_delete(m: StoreModel, id: i32, revision: i64, now_ms: i64)
    requires
        m.wf(),
        spec_delete_with_revision(m, id, revision, now_ms).1,
    ensures
        ({
            let m2 = spec_delete_with_revision(m, id, revision, now_ms).0;
            &&& find_alarm(m2.alarms, id) is None
            &&& m2.tombstones.last().alarm_id == id
            &&& m2.tombstones.last().deleted_at_revision == revision
            &&& m2.tombstones.last().deleted_at_timestamp == now_ms
        }),
{
    let m2 = spec_delete_with_revision(m, id, revision, now_ms).0;
    if has_alarm(m.alarms, id) {
        let idx = alarm_index(m.alarms, id);
        assert(0 <= idx < m.alarms.len() && m.alarms[idx].id == id);
        let alarms2 = m.alarms.remove(idx);
        assert forall|k: int| 0 <= k < alarms2.len() implies (#[trigger] alarms2[k].id) != id by {
            if k < idx {
                assert(alarms2[k] == m.alarms[k]);
                assert(m.alarms[k].id < m.alarms[idx].id);
            } else {
                assert(alarms2[k] == m.alarms[k + 1]);
                assert(m.alarms[idx].id < m.alarms[k + 1].id);
            }
        }
        assert(!has_alarm(alarms2, id));
    } else {
        assert(!has_alarm(m2.alarms, id));
    }
}

/// Incremental-completeness helper: membership in [`alarms_since`] is
/// membership in the table with a revision above `since`.
proof fn lemma_alarms_since_complete(alarms: Seq<AlarmModel>, since: i64)
    ensures
        forall|a: AlarmModel|
            #[trigger] alarms_since(alarms, since).contains(a) <==> alarms.contains(a)
                && a.revision > since,
    decreases alarms.len(),
{
    if alarms.len() == 0 {
        reveal(Seq::filter);
        assert forall|a: AlarmModel| #[trigger]
            alarms_since(alarms, since).contains(a) <==> alarms.contains(a) && a.revision
                > since by {
            assert(!alarms.contains(a));
            assert(!alarms_since(alarms, since).contains(a));
        }
    } else {
        let prev = alarms.drop_last();
        let last = alarms.last();
        lemma_alarms_since_complete(prev, since);
        assert(prev.push(last) =~= alarms);
        lemma_alarms_since_push(prev, last, since);
        assert forall|a: AlarmModel| #[trigger]
            alarms_since(alarms, since).contains(a) <==> alarms.contains(a) && a.revision
                > since by {
            let f = alarms_since(alarms, since);
            let pf = alarms_since(prev, since);
            assert(alarms.contains(a) <==> prev.contains(a) || a == last) by {
                if alarms.contains(a) {
                    let k = choose|k: int| 0 <= k < alarms.len() && alarms[k] == a;
                    if k < alarms.len() - 1 {
                        assert(prev[k] == a);
                        assert(prev.contains(a));
                    }
                }
                if prev.contains(a) {
                    let k = choose|k: int| 0 <= k < prev.len() && prev[k] == a;
                    assert(alarms[k] == a);
                }
                if a == last {
                    assert(alarms[alarms.len() - 1] == a);
                }
            }
            if last.revision > since {
                assert(f == pf.push(last));
                assert(f.contains(a) <==> pf.contains(a) || a == last) by {
                    if f.contains(a) {
                        let k = choose|k: int| 0 <= k < f.len() && f[k] == a;
                        if k < f.len() - 1 {
                            assert(pf[k] == a);
                        }
                    }
                    if pf.contains(a) {
                        let k = choose|k: int| 0 <= k < pf.len() && pf[k] == a;
                        assert(f[k] == a);
                    }
                    if a == last {
                        assert(f[f.len() - 1] == a);
                    }
                }
            } else {
                assert(f == pf);
            }
        }
    }
}

/// Incremental-completeness helper: membership in [`deleted_ids_since`] is
/// existence of a tombstone under the id deleted after `since`.
proof fn lemma_deleted_ids_complete(ts: Seq<TombstoneModel>, since: i64)
    ensures
        forall|id: i32|
            #[trigger] deleted_ids_since(ts, since).contains(id) <==> exists|k: int|
                0 <= k < ts.len() && ts[k].alarm_id == id && ts[k].deleted_at_revision > since,
    decreases ts.len(),
{
    if ts.len() == 0 {
        reveal(Seq::filter);
        assert forall|id: i32| #[trigger]
            deleted_ids_since(ts, since).contains(id) <==> exists|k: int|
                0 <= k < ts.len() && ts[k].alarm_id == id && ts[k].deleted_at_revision > since by {
            assert(deleted_ids_since(ts, since) =~= Seq::<i32>::empty());
            assert(!deleted_ids_since(ts, since).contains(id));
        }
    } else {
        let prev = ts.drop_last();
        let last = ts.last();
        lemma_deleted_ids_complete(prev, since);
        assert(prev.push(last) =~= ts);
        lemma_tombstones_since_push(prev, last, since);
        assert forall|id: i32| #[trigger]
            deleted_ids_since(ts, since).contains(id) <==> exists|k: int|
                0 <= k < ts.len() && ts[k].alarm_id == id && ts[k].deleted_at_revision > since by {
            let f = deleted_ids_since(ts, since);
            let pf = deleted_ids_since(prev, since);
            let has_prev = exists|k: int|
                0 <= k < prev.len() && prev[k].alarm_id == id && prev[k].deleted_at_revision
                    > since;
            let has_all = exists|k: int|
                0 <= k < ts.len() && ts[k].alarm_id == id && ts[k].deleted_at_revision > since;
            assert(has_all <==> has_prev || (last.alarm_id == id && last.deleted_at_revision
                > since)) by {
                if has_all {
                    let k = choose|k: int|
                        0 <= k < ts.len() && ts[k].alarm_id == id && ts[k].deleted_at_revision
                            > since;
                    if k < ts.len() - 1 {
                        assert(prev[k] == ts[k]);
                        assert(has_prev);
                    }
                }
                if has_prev {
                    let k = choose|k: int|
                        0 <= k < prev.len() && prev[k].alarm_id == id
                            && prev[k].deleted_at_revision > since;
                    assert(ts[k] == prev[k]);
                }
                if last.alarm_id == id && last.deleted_at_revision > since {
                    assert(ts[ts.len() - 1] == last);
                }
            }
            if last.deleted_at_revision > since {
                assert(f == pf.push(last.alarm_id));
                assert(f.contains(id) <==> pf.contains(id) || id == last.alarm_id) by {
                    if f.contains(id) {
                        let k = choose|k: int| 0 <= k < f.len() && f[k] == id;
                        if k < f.len() - 1 {
                            assert(pf[k] == id);
                        }
                    }
                    if pf.contains(id) {
                        let k = choose|k: int| 0 <= k < pf.len() && pf[k] == id;
                        assert(f[k] == id);
                    }
                    if id == last.alarm_id {
                        assert(f[f.len() - 1] == id);
                    }
                }
            } else {
                assert(f == pf);
            }
        }
    }
}

/// Incremental-completeness law: for any revision `since`, the incremental
/// query surface returns exactly the alarms whose revision lies above
/// `since` and exactly the ids whose tombstones were stamped above `since`
/// — together, the full diff needed to replay from `since` to the current
/// state.
pub proof fn incremental_completeness(m: StoreModel, since: i64)
    ensures
        forall|a: AlarmModel|
            #[trigger] alarms_since(m.alarms, since).contains(a) <==> m.alarms.contains(a)
                && a.revision > since,
        forall|id: i32|
            #[trigger] deleted_ids_since(m.tombstones, since).contains(id) <==> exists|k: int|
                0 <= k < m.tombstones.len() && m.tombstones[k].alarm_id == id
                    && m.tombstones[k].deleted_at_revision > since,
{
    lemma_alarms_since_complete(m.alarms, since);
    lemma_deleted_ids_complete(m.tombstones, since);
}

/// Persistent table of alarms, tombstone log and the singleton monotonic
/// revision counter.
pub struct RevisionStore {
    alarms: Vec<AlarmRecord>,
    tombstones: Vec<Tombstone>,
    counter: i64,
    next_id: i32,
}

impl View for RevisionStore {
    type V = StoreModel;

    closed spec fn view(&self) -> StoreModel {
        StoreModel {
            alarms: alarm_views(self.alarms@),
            tombstones: tombstone_views(self.tombstones@),
            counter: self.counter,
            next_id: self.next_id,
        }
    }
}

impl RevisionStore {
    /// An empty store: no alarms, no tombstones, the clock at zero, ids
    /// starting from one.
    pub fn new() -> (r: Self)
        ensures
            r@ == (StoreModel {
                alarms: Seq::<AlarmModel>::empty(),
                tombstones: Seq::<TombstoneModel>::empty(),
                counter: 0,
                next_id: 1,
            }),
            r@.wf(),
    {
        let r = RevisionStore { alarms: Vec::new(), tombstones: Vec::new(), counter: 0, next_id: 1 };
        proof {
            assert(r@.alarms =~= Seq::<AlarmModel>::empty());
            assert(r@.tombstones =~= Seq::<TombstoneModel>::empty());
            assert(r@ =~= (StoreModel {
                alarms: Seq::<AlarmModel>::empty(),
                tombstones: Seq::<TombstoneModel>::empty(),
                counter: 0,
                next_id: 1,
            }));
        }
        r
    }

    /// Atomically increment the global counter and return the new value.
    ///
    /// This is the only operation that advances the logical clock; two
    /// calls never return the same value, which is the heart of the
    /// monotonicity law [`revisions_strictly_increase`].
    pub fn next_revision(&mut self) -> (r: i64)
        requires
            old(self)@.wf(),
            old(self)@.counter < i64::MAX,
        ensures
            final(self)@.wf(),
            r == spec_next_revision(old(self)@.counter as int),
            final(self)@ == (StoreModel { counter: r, ..old(self)@ }),
    {
        self.counter = self.counter + 1;
        proof {
            assert(final(self)@ =~= (StoreModel { counter: self.counter, ..old(self)@ }));
        }
        self.counter
    }

    /// Read the current revision without advancing the counter.
    pub fn current_revision(&self) -> (r: i64)
        ensures
            r == self@.counter,
    {
        self.counter
    }

    /// Whether the table has headroom for another insert; callers check
    /// this before a save that may create a row.
    pub fn can_insert(&self) -> (r: bool)
        ensures
            r == (self@.next_id < i32::MAX),
    {
        self.next_id < i32::MAX
    }

    /// The position of the row carrying `id`, if any.
    fn find_index(&self, id: i32) -> (r: Option<usize>)
        ensures
            match r {
                Some(i) => i < self@.alarms.len() && self@.alarms[i as int].id == id,
                None => !has_alarm(self@.alarms, id),
            },
    {
        let mut i: usize = 0;
        while i < self.alarms.len()
            invariant
                i <= self.alarms.len(),
                self@.alarms.len() == self.alarms@.len(),
                forall|j: int| 0 <= j < i ==> (#[trigger] self@.alarms[j].id) != id,
            decreases self.alarms.len() - i,
        {
            if self.alarms[i].id == id {
                return Some(i);
            }
            i = i + 1;
        }
        None
    }

    /// Fetch one alarm by id; `NotFound` exactly when no row carries it.
    pub fn get_by_id(&self, id: i32) -> (r: Result<AlarmRecord, AlarmError>)
        requires
            self@.wf(),
        ensures
            r is Ok <==> has_alarm(self@.alarms, id),
            r matches Ok(a) ==> find_alarm(self@.alarms, id) == Some(a@),
            r matches Err(e) ==> e == AlarmError::NotFound(id),
    {
        match self.find_index(id) {
            Some(i) => {
                let a = self.alarms[i].clone();
                proof {
                    let alarms = self@.alarms;
                    assert(has_alarm(alarms, id));
                    let j = alarm_index(alarms, id);
                    assert(0 <= j < alarms.len() && alarms[j].id == id);
                    if j != i as int {
                        assert(alarms[j].id != alarms[i as int].id);
                    }
                    assert(j == i as int);
                }
                Ok(a)
            },
            None => Err(AlarmError::NotFound(id)),
        }
    }


    /// An index that carries `id` is the one [`alarm_index`] picks, when ids
    /// are strictly ordered.
    pub proof fn lemma_found_index(alarms: Seq<AlarmModel>, id: i32, i: int)
        requires
            forall|p: int, q: int|
                #![trigger alarms[p].id, alarms[q].id]
                0 <= p < q < alarms.len() ==> alarms[p].id < alarms[q].id,
            0 <= i < alarms.len(),
            alarms[i].id == id,
        ensures
            has_alarm(alarms, id),
            alarm_index(alarms, id) == i,
            find_alarm(alarms, id) == Some(alarms[i]),
    {
        assert(has_alarm(alarms, id));
        let j = alarm_index(alarms, id);
        assert(0 <= j < alarms.len() && alarms[j].id == id);
        if j < i {
            assert(alarms[j].id < alarms[i].id);
        }
        if i < j {
            assert(alarms[i].id < alarms[j].id);
        }
    }

    /// Create or update one alarm row, stamped with `revision`.
    ///
    /// An absent input id appends a fresh row under the next free id; a
    /// present id rewrites that row in place, or fails with `NotFound` when
    /// no row carries it, leaving the store unchanged. The caller is
    /// responsible for having obtained `revision` from
    /// [`RevisionStore::next_revision`], which is what the precondition
    /// bounding it by the counter records.
    pub fn save(&mut self, input: AlarmInput, next_trigger: Option<i64>, revision: i64) -> (r:
        Result<AlarmRecord, AlarmError>)
        requires
            old(self)@.wf(),
            0 <= revision <= old(self)@.counter,
            old(self)@.next_id < i32::MAX,
        ensures
            final(self)@.wf(),
            final(self)@ == spec_save(old(self)@, input@, next_trigger, revision).0,
            (r is Ok) == (spec_save(old(self)@, input@, next_trigger, revision).1 is Some),
            r matches Ok(a) ==> Some(a@) == spec_save(old(self)@, input@, next_trigger, revision).1,
            r matches Err(e) ==> input.id matches Some(id) && e == AlarmError::NotFound(id),
    {
        let ghost m0 = self@;
        let ghost inp = input@;
        match input.id {
            Some(id) => {
                match self.find_index(id) {
                    Some(i) => {
                        let rec = AlarmRecord {
                            id,
                            label: input.label,
                            enabled: input.enabled,
                            mode: input.mode,
                            fixed_time: input.fixed_time,
                            window_start: input.window_start,
                            window_end: input.window_end,
                            active_days: input.active_days,
                            next_trigger,
                            sound_uri: input.sound_uri,
                            sound_title: input.sound_title,
                            revision,
                        };
                        let out = rec.clone();
                        proof {
                            Self::lemma_found_index(m0.alarms, id, i as int);
                            assert(rec@ =~= AlarmModel::of_input(inp, id, next_trigger, revision));
                        }
                        self.alarms.set(i, rec);
                        proof {
                            assert(self@.alarms =~= m0.alarms.update(
                                alarm_index(m0.alarms, id),
                                AlarmModel::of_input(inp, id, next_trigger, revision),
                            ));
                            assert(self@ =~= spec_save(m0, inp, next_trigger, revision).0);
                            assert(self@.wf());
                        }
                        Ok(out)
                    },
                    None => {
                        proof {
                            assert(self@ =~= spec_save(m0, inp, next_trigger, revision).0);
                        }
                        Err(AlarmError::NotFound(id))
                    },
                }
            },
            None => {
                let id = self.next_id;
                self.next_id = self.next_id + 1;
                let rec = AlarmRecord {
                    id,
                    label: input.label,
                    enabled: input.enabled,
                    mode: input.mode,
                    fixed_time: input.fixed_time,
                    window_start: input.window_start,
                    window_end: input.window_end,
                    active_days: input.active_days,
                    next_trigger,
                    sound_uri: input.sound_uri,
                    sound_title: input.sound_title,
                    revision,
                };
                let out = rec.clone();
                proof {
                    assert(rec@ =~= AlarmModel::of_input(inp, id, next_trigger, revision));
                }
                self.alarms.push(rec);
                proof {
                    assert(self@.alarms =~= m0.alarms.push(
                        AlarmModel::of_input(inp, id, next_trigger, revision),
                    ));
                    assert(self@ =~= spec_save(m0, inp, next_trigger, revision).0);
                    assert(self@.wf());
                }
                Ok(out)
            },
        }
    }

    /// Remove one alarm row outright, without a tombstone; removing an
    /// unknown id is a no-op.
    pub fn delete(&mut self, id: i32)
        requires
            old(self)@.wf(),
        ensures
            final(self)@.wf(),
            final(self)@ == (StoreModel {
                alarms: if has_alarm(old(self)@.alarms, id) {
                    old(self)@.alarms.remove(alarm_index(old(self)@.alarms, id))
                } else {
                    old(self)@.alarms
                },
                ..old(self)@
            }),
    {
        let ghost m0 = self@;
        match self.find_index(id) {
            Some(i) => {
                proof {
                    Self::lemma_found_index(m0.alarms, id, i as int);
                }
                self.alarms.remove(i);
                proof {
                    assert(self@.alarms =~= m0.alarms.remove(alarm_index(m0.alarms, id)));
                    assert(self@ =~= (StoreModel {
                        alarms: m0.alarms.remove(alarm_index(m0.alarms, id)),
                        ..m0
                    }));
                    assert(self@.wf());
                }
            },
            None => {
                proof {
                    assert(self@ =~= (StoreModel { alarms: m0.alarms, ..m0 }));
                }
            },
        }
    }

    /// Atomically remove the alarm row and insert a tombstone stamped with
    /// `revision`.
    ///
    /// The delete is applied even when no row carries `id` (the tombstone
    /// still records the deletion, with no label). It fails, leaving the
    /// store unchanged, only when a tombstone for `id` already exists.
    pub fn delete_with_revision(&mut self, id: i32, revision: i64, now_ms: i64) -> (r: Result<
        (),
        AlarmError,
    >)
        requires
            old(self)@.wf(),
            0 <= revision <= old(self)@.counter,
        ensures
            final(self)@.wf(),
            final(self)@ == spec_delete_with_revision(old(self)@, id, revision, now_ms).0,
            (r is Ok) == spec_delete_with_revision(old(self)@, id, revision, now_ms).1,
            r matches Err(e) ==> e == AlarmError::Storage(id),
    {
        let ghost m0 = self@;
        if self.find_tombstone(id) {
            proof {
                assert(self@ =~= spec_delete_with_revision(m0, id, revision, now_ms).0);
            }
            return Err(AlarmError::Storage(id));
        }
        let label: Option<String> = match self.find_index(id) {
            Some(i) => {
                proof {
                    Self::lemma_found_index(m0.alarms, id, i as int);
                }
                let l = crate::models::clone_opt_string(&self.alarms[i].label);
                self.alarms.remove(i);
                l
            },
            None => None,
        };
        let stone = Tombstone {
            alarm_id: id,
            deleted_at_revision: revision,
            deleted_at_timestamp: now_ms,
            label,
        };
        self.tombstones.push(stone);
        proof {
            let post = spec_delete_with_revision(m0, id, revision, now_ms).0;
            assert(self@.alarms =~= post.alarms);
            assert(self@.tombstones =~= post.tombstones);
            assert(self@ =~= post);
            assert(self@.wf());
        }
        Ok(())
    }

    /// Whether the tombstone log holds an entry for `id`.
    fn find_tombstone(&self, id: i32) -> (r: bool)
        ensures
            r == has_tombstone(self@.tombstones, id),
    {
        let mut i: usize = 0;
        while i < self.tombstones.len()
            invariant
                i <= self.tombstones.len(),
                self@.tombstones.len() == self.tombstones@.len(),
                forall|j: int| 0 <= j < i ==> (#[trigger] self@.tombstones[j].alarm_id) != id,
            decreases self.tombstones.len() - i,
        {
            if self.tombstones[i].alarm_id == id {
                proof {
                    assert(self@.tombstones[i as int].alarm_id == id);
                }
                return true;
            }
            i = i + 1;
        }
        false
    }


    /// Rewrite one row's `next_trigger`, stamping `revision`; all other
    /// fields keep their values. `NotFound` when no row carries `id`.
    pub fn update_next_trigger(&mut self, id: i32, next_trigger: Option<i64>, revision: i64) -> (r:
        Result<AlarmRecord, AlarmError>)
        requires
            old(self)@.wf(),
            0 <= revision <= old(self)@.counter,
        ensures
            final(self)@.wf(),
            final(self)@ == spec_update_next_trigger(old(self)@, id, next_trigger, revision).0,
            (r is Ok) == (spec_update_next_trigger(old(self)@, id, next_trigger, revision).1
                is Some),
            r matches Ok(a) ==> Some(a@) == spec_update_next_trigger(
                old(self)@,
                id,
                next_trigger,
                revision,
            ).1,
            r matches Err(e) ==> e == AlarmError::NotFound(id),
    {
        let ghost m0 = self@;
        match self.find_index(id) {
            Some(i) => {
                proof {
                    Self::lemma_found_index(m0.alarms, id, i as int);
                }
                let prev = &self.alarms[i];
                let rec = AlarmRecord {
                    id: prev.id,
                    label: crate::models::clone_opt_string(&prev.label),
                    enabled: prev.enabled,
                    mode: prev.mode,
                    fixed_time: crate::models::clone_opt_string(&prev.fixed_time),
                    window_start: crate::models::clone_opt_string(&prev.window_start),
                    window_end: crate::models::clone_opt_string(&prev.window_end),
                    active_days: crate::models::clone_days(&prev.active_days),
                    next_trigger,
                    sound_uri: crate::models::clone_opt_string(&prev.sound_uri),
                    sound_title: crate::models::clone_opt_string(&prev.sound_title),
                    revision,
                };
                let out = rec.clone();
                proof {
                    assert(rec@ =~= (AlarmModel {
                        next_trigger,
                        revision,
                        ..m0.alarms[i as int]
                    }));
                }
                self.alarms.set(i, rec);
                proof {
                    assert(self@.alarms =~= spec_update_next_trigger(
                        m0,
                        id,
                        next_trigger,
                        revision,
                    ).0.alarms);
                    assert(self@ =~= spec_update_next_trigger(m0, id, next_trigger, revision).0);
                    assert(self@.wf());
                }
                Ok(out)
            },
            None => {
                proof {
                    assert(self@ =~= spec_update_next_trigger(m0, id, next_trigger, revision).0);
                }
                Err(AlarmError::NotFound(id))
            },
        }
    }

    /// Fetch exactly the alarms whose revision lies strictly above `since`,
    /// in id order: the incremental-sync query surface.
    pub fn get_alarms_since_revision(&self, since: i64) -> (r: Vec<AlarmRecord>)
        ensures
            alarm_views(r@) == alarms_since(self@.alarms, since),
    {
        let mut r: Vec<AlarmRecord> = Vec::new();
        let mut i: usize = 0;
        proof {
            lemma_alarms_since_empty(since);
            assert(self@.alarms.take(0) =~= Seq::<AlarmModel>::empty());
            assert(alarm_views(r@) =~= Seq::<AlarmModel>::empty());
        }
        while i < self.alarms.len()
            invariant
                i <= self.alarms.len(),
                self@.alarms.len() == self.alarms@.len(),
                alarm_views(r@) == alarms_since(self@.alarms.take(i as int), since),
            decreases self.alarms.len() - i,
        {
            let ghost taken = self@.alarms.take(i as int);
            let ghost old_r = r@;
            if self.alarms[i].revision > since {
                let a = self.alarms[i].clone();
                proof {
                    assert(a@ == self@.alarms[i as int]);
                }
                r.push(a);
            }
            i = i + 1;
            proof {
                let el = self@.alarms[i - 1];
                assert(self@.alarms.take(i as int) =~= taken.push(el));
                lemma_alarms_since_push(taken, el, since);
                if el.revision > since {
                    assert(alarm_views(r@) =~= alarm_views(old_r).push(el));
                } else {
                    assert(alarm_views(r@) =~= alarm_views(old_r));
                }
            }
        }
        proof {
            assert(self@.alarms.take(self@.alarms.len() as int) =~= self@.alarms);
        }
        r
    }

    /// Fetch exactly the ids of the tombstones whose deletion revision lies
    /// strictly above `since`.
    pub fn get_deleted_since_revision(&self, since: i64) -> (r: Vec<i32>)
        ensures
            r@ == deleted_ids_since(self@.tombstones, since),
    {
        let mut r: Vec<i32> = Vec::new();
        let mut i: usize = 0;
        proof {
            lemma_tombstones_since_empty(since);
            assert(self@.tombstones.take(0) =~= Seq::<TombstoneModel>::empty());
        }
        while i < self.tombstones.len()
            invariant
                i <= self.tombstones.len(),
                self@.tombstones.len() == self.tombstones@.len(),
                r@ == deleted_ids_since(self@.tombstones.take(i as int), since),
            decreases self.tombstones.len() - i,
        {
            let ghost taken = self@.tombstones.take(i as int);
            if self.tombstones[i].deleted_at_revision > since {
                r.push(self.tombstones[i].alarm_id);
            }
            i = i + 1;
            proof {
                let el = self@.tombstones[i - 1];
                assert(self@.tombstones.take(i as int) =~= taken.push(el));
                lemma_tombstones_since_push(taken, el, since);
            }
        }
        proof {
            assert(self@.tombstones.take(self@.tombstones.len() as int) =~= self@.tombstones);
        }
        r
    }

    /// Purge tombstones whose wall-clock timestamp lies before the cutoff
    /// `now_ms` minus `days` (in milliseconds). Retention is time-based, so
    /// a companion offline longer than the window falls back to a full
    /// sync.
    pub fn cleanup_tombstones_older_than_days(&mut self, days: i64, now_ms: i64)
        requires
            old(self)@.wf(),
            0 <= days <= 36500,
            now_ms >= i64::MIN + 36500 * 86400000,
        ensures
            final(self)@.wf(),
            final(self)@ == (StoreModel {
                tombstones: tombstones_kept(old(self)@.tombstones, (now_ms - days * 86400000) as i64),
                ..old(self)@
            }),
    {
        let cutoff: i64 = now_ms - days * 86400000;
        let ghost m0 = self@;
        let mut kept: Vec<Tombstone> = Vec::new();
        let mut i: usize = 0;
        proof {
            lemma_tombstones_kept_empty(cutoff);
            assert(m0.tombstones.take(0) =~= Seq::<TombstoneModel>::empty());
            assert(tombstone_views(kept@) =~= Seq::<TombstoneModel>::empty());
        }
        while i < self.tombstones.len()
            invariant
                i <= self.tombstones.len(),
                self@ == m0,
                m0.tombstones.len() == self.tombstones@.len(),
                tombstone_views(kept@) == tombstones_kept(m0.tombstones.take(i as int), cutoff),
            decreases self.tombstones.len() - i,
        {
            let ghost taken = m0.tombstones.take(i as int);
            let ghost old_kept = kept@;
            if self.tombstones[i].deleted_at_timestamp >= cutoff {
                let t = &self.tombstones[i];
                let c = Tombstone {
                    alarm_id: t.alarm_id,
                    deleted_at_revision: t.deleted_at_revision,
                    deleted_at_timestamp: t.deleted_at_timestamp,
                    label: crate::models::clone_opt_string(&t.label),
                };
                proof {
                    assert(c@ =~= m0.tombstones[i as int]);
                }
                kept.push(c);
            }
            i = i + 1;
            proof {
                let el = m0.tombstones[i - 1];
                assert(m0.tombstones.take(i as int) =~= taken.push(el));
                lemma_tombstones_kept_push(taken, el, cutoff);
                if el.deleted_at_timestamp >= cutoff {
                    assert(tombstone_views(kept@) =~= tombstone_views(old_kept).push(el));
                } else {
                    assert(tombstone_views(kept@) =~= tombstone_views(old_kept));
                }
            }
        }
        proof {
            assert(m0.tombstones.take(m0.tombstones.len() as int) =~= m0.tombstones);
        }
        self.tombstones = kept;
        proof {
            assert(self@ =~= (StoreModel {
                tombstones: tombstones_kept(m0.tombstones, cutoff),
                ..m0
            }));
            lemma_tombstones_kept_subset(m0.tombstones, cutoff);
            lemma_tombstones_kept_distinct(m0.tombstones, cutoff);
            let ts = self@.tombstones;
            assert forall|k: int| 0 <= k < ts.len() implies 0 <= (
            #[trigger] ts[k].deleted_at_revision) <= self@.counter by {
                assert(m0.tombstones.contains(ts[k]));
                let p = choose|p: int| 0 <= p < m0.tombstones.len() && m0.tombstones[p] == ts[k];
                assert(0 <= m0.tombstones[p].deleted_at_revision <= m0.counter);
            }
            assert(self@.wf());
        }
    }

    /// Fetch every alarm, in id order.
    pub fn get_all(&self) -> (r: Vec<AlarmRecord>)
        ensures
            alarm_views(r@) == self@.alarms,
    {
        let mut r: Vec<AlarmRecord> = Vec::new();
        let mut i: usize = 0;
        while i < self.alarms.len()
            invariant
                i <= self.alarms.len(),
                alarm_views(r@) == self@.alarms.take(i as int),
            decreases self.alarms.len() - i,
        {
            let ghost old_r = r@;
            let a = self.alarms[i].clone();
            proof {
                assert(a@ == self.alarms@[i as int]@);
                assert(self@.alarms[i as int] == self.alarms@[i as int]@);
            }
            r.push(a);
            i = i + 1;
            proof {
                assert(alarm_views(old_r) == self@.alarms.take(i - 1));
                assert(self@.alarms.take(i - 1).len() == i - 1);
                assert forall|k: int| 0 <= k < i implies alarm_views(r@)[k] == self@.alarms.take(
                    i as int,
                )[k] by {
                    if k < i - 1 {
                        assert(alarm_views(old_r)[k] == self@.alarms.take(i - 1)[k]);
                    }
                }
                assert(alarm_views(r@) =~= self@.alarms.take(i as int));
            }
        }
        proof {
            assert(self@.alarms.take(self@.alarms.len() as int) =~= self@.alarms);
        }
        r
    }
}

} // verus!
