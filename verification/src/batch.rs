//! Debounced batch collector: coalesces rapid-fire alarm changes into a
//! single outbound sync.
//!
//! The collector accumulates the set of changed alarm ids and the newest
//! revision seen, with at most one outstanding debounce timer. Adding ids
//! always re-arms the timer (last-add-wins reset, not additive delay);
//! firing or flushing drains the set and revision atomically, so nothing is
//! ever drained twice. The timer itself is outside work: the caller runs
//! it, and reports its expiry through [`BatchCollector::on_timer_fired`].
//!
//! The transitions [`spec_add`], [`spec_fire`] and [`spec_flush`] are the
//! exact model of the three operations; the coalescing laws at the end of
//! the file are proved over them.

use vstd::prelude::*;

verus! {

/// The mathematical value of a [`BatchCollector`].
#[verifier::ext_equal]
pub struct BatchModel {
    pub pending_ids: Seq<i32>,
    pub latest_revision: i64,
    pub timer_armed: bool,
    pub debounce_ms: u64,
}

impl BatchModel {
    /// Pending ids hold no duplicates.
    pub open spec fn wf(self) -> bool {
        forall|p: int, q: int|
            #![trigger self.pending_ids[p], self.pending_ids[q]]
            0 <= p < q < self.pending_ids.len() ==> self.pending_ids[p] != self.pending_ids[q]
    }
}

/// `pending` extended by each id of `ids` it does not already hold, in
/// order of first occurrence.
pub open spec fn merge_ids(pending: Seq<i32>, ids: Seq<i32>) -> Seq<i32>
    decreases ids.len(),
{
    if ids.len() == 0 {
        pending
    } else {
        let p2 = if pending.contains(ids[0]) {
            pending
        } else {
            pending.push(ids[0])
        };
        merge_ids(p2, ids.drop_first())
    }
}

/// Merging one more id extends the merge of the rest.
pub proof fn lemma_merge_ids_push(pending: Seq<i32>, ids: Seq<i32>, x: i32)
    ensures
        merge_ids(pending, ids.push(x)) == ({
            let q = merge_ids(pending, ids);
            if q.contains(x) {
                q
            } else {
                q.push(x)
            }
        }),
    decreases ids.len(),
{
    if ids.len() == 0 {
        assert(ids.push(x)[0] == x);
        assert(ids.push(x).drop_first() =~= Seq::<i32>::empty());
        let p2 = if pending.contains(x) {
            pending
        } else {
            pending.push(x)
        };
        assert(merge_ids(pending, ids.push(x)) == merge_ids(p2, ids.push(x).drop_first()));
        assert(merge_ids(p2, Seq::<i32>::empty()) == p2);
        assert(merge_ids(pending, ids) == pending);
    } else {
        let p2 = if pending.contains(ids[0]) {
            pending
        } else {
            pending.push(ids[0])
        };
        assert(ids.push(x)[0] == ids[0]);
        assert(ids.push(x).drop_first() =~= ids.drop_first().push(x));
        assert(merge_ids(pending, ids.push(x)) == merge_ids(p2, ids.drop_first().push(x)));
        assert(merge_ids(pending, ids) == merge_ids(p2, ids.drop_first()));
        lemma_merge_ids_push(p2, ids.drop_first(), x);
    }
}

/// An id lies in the merge exactly when it lies in either argument, and
/// merging keeps ids distinct.
pub proof fn lemma_merge_ids_set(pending: Seq<i32>, ids: Seq<i32>)
    requires
        forall|p: int, q: int|
            #![trigger pending[p], pending[q]]
            0 <= p < q < pending.len() ==> pending[p] != pending[q],
    ensures
        forall|x: i32|
            #[trigger] merge_ids(pending, ids).contains(x) <==> pending.contains(x)
                || ids.contains(x),
        forall|p: int, q: int|
            #![trigger merge_ids(pending, ids)[p], merge_ids(pending, ids)[q]]
            0 <= p < q < merge_ids(pending, ids).len() ==> merge_ids(pending, ids)[p] != merge_ids(
                pending,
                ids,
            )[q],
    decreases ids.len(),
{
    if ids.len() == 0 {
        assert(merge_ids(pending, ids) == pending);
        assert(forall|x: i32| !ids.contains(x));
    } else {
        let first = ids[0];
        let p2 = if pending.contains(first) {
            pending
        } else {
            pending.push(first)
        };
        assert forall|p: int, q: int|
            #![trigger p2[p], p2[q]]
            0 <= p < q < p2.len() implies p2[p] != p2[q] by {
            if q < pending.len() {
                assert(pending[p] != pending[q]);
            } else {
                assert(!pending.contains(first));
                assert(p2[q] == first);
                assert(p2[p] == pending[p]);
                if pending[p] == first {
                    assert(pending.contains(first));
                }
            }
        }
        assert forall|x: i32| #[trigger] p2.contains(x) <==> pending.contains(x) || x
            == first by {
            if p2.contains(x) {
                let k = choose|k: int| 0 <= k < p2.len() && p2[k] == x;
                if k < pending.len() {
                    assert(pending[k] == x);
                }
            }
            if pending.contains(x) {
                let k = choose|k: int| 0 <= k < pending.len() && pending[k] == x;
                assert(p2[k] == x);
            }
            if x == first && !pending.contains(first) {
                assert(p2[p2.len() - 1] == x);
            }
        }
        lemma_merge_ids_set(p2, ids.drop_first());
        assert(merge_ids(pending, ids) == merge_ids(p2, ids.drop_first()));
        assert forall|x: i32| #[trigger]
            merge_ids(pending, ids).contains(x) <==> pending.contains(x) || ids.contains(x) by {
            assert(merge_ids(pending, ids) == merge_ids(p2, ids.drop_first()));
            assert(ids.contains(x) <==> x == first || ids.drop_first().contains(x)) by {
                if ids.contains(x) {
                    let k = choose|k: int| 0 <= k < ids.len() && ids[k] == x;
                    if k > 0 {
                        assert(ids.drop_first()[k - 1] == x);
                    }
                }
                if ids.drop_first().contains(x) {
                    let k = choose|k: int|
                        0 <= k < ids.drop_first().len() && ids.drop_first()[k] == x;
                    assert(ids[k + 1] == x);
                }
                assert(ids[0] == first);
            }
        }
    }
}

/// The collector after an add: ids are merged in, the newest revision is
/// recorded, and the debounce timer is (re-)armed. An empty id list changes
/// nothing.
pub open spec fn spec_add(m: BatchModel, ids: Seq<i32>, revision: i64) -> BatchModel {
    if ids.len() == 0 {
        m
    } else {
        BatchModel {
            pending_ids: merge_ids(m.pending_ids, ids),
            latest_revision: if revision > m.latest_revision {
                revision
            } else {
                m.latest_revision
            },
            timer_armed: true,
            debounce_ms: m.debounce_ms,
        }
    }
}

/// The collector after its debounce timer fires, and what it publishes: the
/// drained set and revision when the timer was still armed over a non-empty
/// set, nothing otherwise.
pub open spec fn spec_fire(m: BatchModel) -> (BatchModel, Option<(Seq<i32>, i64)>) {
    if !m.timer_armed || m.pending_ids.len() == 0 {
        (BatchModel { timer_armed: false, ..m }, None)
    } else {
        (
            BatchModel {
                pending_ids: Seq::<i32>::empty(),
                latest_revision: 0,
                timer_armed: false,
                ..m
            },
            Some((m.pending_ids, m.latest_revision)),
        )
    }
}

/// The collector after a flush, and what the flush hands back: the drained
/// set and revision when anything was pending, nothing otherwise. Either
/// way the timer is cancelled, so a pending partial batch is suppressed
/// rather than queued behind the immediate sync that supersedes it.
pub open spec fn spec_flush(m: BatchModel) -> (BatchModel, Option<(Seq<i32>, i64)>) {
    if m.pending_ids.len() == 0 {
        (BatchModel { timer_armed: false, ..m }, None)
    } else {
        (
            BatchModel {
                pending_ids: Seq::<i32>::empty(),
                latest_revision: 0,
                timer_armed: false,
                ..m
            },
            Some((m.pending_ids, m.latest_revision)),
        )
    }
}

/// Debounced coalescing buffer of changed-alarm ids.
pub struct BatchCollector {
    pending_ids: Vec<i32>,
    latest_revision: i64,
    timer_armed: bool,
    debounce_ms: u64,
}

impl View for BatchCollector {
    type V = BatchModel;

    closed spec fn view(&self) -> BatchModel {
        BatchModel {
            pending_ids: self.pending_ids@,
            latest_revision: self.latest_revision,
            timer_armed: self.timer_armed,
            debounce_ms: self.debounce_ms,
        }
    }
}

/// Whether `v` holds `id`.
fn contains_id(v: &Vec<i32>, id: i32) -> (r: bool)
    ensures
        r == v@.contains(id),
{
    let mut i: usize = 0;
    while i < v.len()
        invariant
            i <= v.len(),
            forall|j: int| 0 <= j < i ==> v@[j] != id,
        decreases v.len() - i,
    {
        if v[i] == id {
            return true;
        }
        i = i + 1;
    }
    false
}

impl BatchCollector {
    /// An empty collector with the given debounce delay and no timer
    /// outstanding.
    pub fn new(debounce_ms: u64) -> (r: Self)
        ensures
            r@ == (BatchModel {
                pending_ids: Seq::<i32>::empty(),
                latest_revision: 0,
                timer_armed: false,
                debounce_ms,
            }),
            r@.wf(),
    {
        let r = BatchCollector {
            pending_ids: Vec::new(),
            latest_revision: 0,
            timer_armed: false,
            debounce_ms,
        };
        proof {
            assert(r@ =~= (BatchModel {
                pending_ids: Seq::<i32>::empty(),
                latest_revision: 0,
                timer_armed: false,
                debounce_ms,
            }));
        }
        r
    }

    /// The fixed debounce delay this collector was created with.
    pub fn debounce_ms(&self) -> (r: u64)
        ensures
            r == self@.debounce_ms,
    {
        self.debounce_ms
    }

    /// Merge `ids` into the pending set, record `revision` if newer, and
    /// re-arm the debounce timer (cancelling any prior one). The caller is
    /// told by the result whether a fresh timer must be started.
    pub fn add(&mut self, ids: &Vec<i32>, revision: i64) -> (restart: bool)
        requires
            old(self)@.wf(),
        ensures
            final(self)@.wf(),
            final(self)@ == spec_add(old(self)@, ids@, revision),
            restart == (ids@.len() > 0),
    {
        if ids.len() == 0 {
            return false;
        }
        let ghost m0 = self@;
        let mut i: usize = 0;
        while i < ids.len()
            invariant
                i <= ids.len(),
                self@.latest_revision == m0.latest_revision,
                self@.timer_armed == m0.timer_armed,
                self@.debounce_ms == m0.debounce_ms,
                self@.pending_ids == merge_ids(m0.pending_ids, ids@.take(i as int)),
                m0.wf(),
            decreases ids.len() - i,
        {
            let ghost taken = ids@.take(i as int);
            proof {
                lemma_merge_ids_set(m0.pending_ids, taken);
            }
            if !contains_id(&self.pending_ids, ids[i]) {
                self.pending_ids.push(ids[i]);
            }
            i = i + 1;
            proof {
                assert(ids@.take(i as int) =~= taken.push(ids@[i - 1]));
                lemma_merge_ids_push(m0.pending_ids, taken, ids@[i - 1]);
            }
        }
        proof {
            assert(ids@.take(ids@.len() as int) =~= ids@);
        }
        if revision > self.latest_revision {
            self.latest_revision = revision;
        }
        self.timer_armed = true;
        proof {
            assert(self@ =~= spec_add(m0, ids@, revision));
            lemma_merge_ids_set(m0.pending_ids, ids@);
        }
        true
    }

    /// Drain the pending set and revision after the debounce delay elapsed,
    /// unless the timer was cancelled in the meantime or nothing is
    /// pending.
    pub fn on_timer_fired(&mut self) -> (r: Option<(Vec<i32>, i64)>)
        requires
            old(self)@.wf(),
        ensures
            final(self)@.wf(),
            final(self)@ == spec_fire(old(self)@).0,
            match r {
                Some(out) => spec_fire(old(self)@).1 == Some((out.0@, out.1)),
                None => spec_fire(old(self)@).1 is None,
            },
    {
        let ghost m0 = self@;
        if !self.timer_armed || self.pending_ids.len() == 0 {
            self.timer_armed = false;
            proof {
                assert(self@ =~= spec_fire(m0).0);
            }
            return None;
        }
        self.timer_armed = false;
        let mut drained: Vec<i32> = Vec::new();
        core::mem::swap(&mut drained, &mut self.pending_ids);
        let revision = self.latest_revision;
        self.latest_revision = 0;
        proof {
            assert(self@.pending_ids =~= Seq::<i32>::empty());
            assert(self@ =~= spec_fire(m0).0);
        }
        Some((drained, revision))
    }

    /// Synchronously cancel any outstanding timer and hand back the pending
    /// set and revision, for when an immediate sync is about to supersede
    /// the partial batch.
    pub fn flush(&mut self) -> (r: Option<(Vec<i32>, i64)>)
        requires
            old(self)@.wf(),
        ensures
            final(self)@.wf(),
            final(self)@ == spec_flush(old(self)@).0,
            match r {
                Some(out) => spec_flush(old(self)@).1 == Some((out.0@, out.1)),
                None => spec_flush(old(self)@).1 is None,
            },
    {
        let ghost m0 = self@;
        self.timer_armed = false;
        if self.pending_ids.len() == 0 {
            proof {
                assert(self@ =~= spec_flush(m0).0);
            }
            return None;
        }
        let mut drained: Vec<i32> = Vec::new();
        core::mem::swap(&mut drained, &mut self.pending_ids);
        let revision = self.latest_revision;
        self.latest_revision = 0;
        proof {
            assert(self@.pending_ids =~= Seq::<i32>::empty());
            assert(self@ =~= spec_flush(m0).0);
        }
        Some((drained, revision))
    }
}

/// Coalescing law: two adds inside one debounce window yield exactly one
/// eventual publish, carrying the union of the ids and the newest of the
/// two revisions; nothing is left pending, and the timer cannot fire a
/// second time.
pub proof fn batch_coalescing(a: i32, b: i32, r1: i64, r2: i64, debounce_ms: u64)
    requires
        a != b,
        0 <= r1,
        0 <= r2,
    ensures
        ({
            let m0 = BatchModel {
                pending_ids: Seq::<i32>::empty(),
                latest_revision: 0,
                timer_armed: false,
                debounce_ms,
            };
            let m1 = spec_add(m0, seq![a], r1);
            let m2 = spec_add(m1, seq![b], r2);
            let fired = spec_fire(m2);
            &&& fired.1 == Some((seq![a, b], if r2 > r1 {
                r2
            } else {
                r1
            }))
            &&& fired.0.pending_ids.len() == 0
            &&& spec_fire(fired.0).1 is None
        }),
{
    let m0 = BatchModel {
        pending_ids: Seq::<i32>::empty(),
        latest_revision: 0,
        timer_armed: false,
        debounce_ms,
    };
    assert(seq![a] =~= Seq::<i32>::empty().push(a));
    lemma_merge_ids_push(Seq::<i32>::empty(), Seq::<i32>::empty(), a);
    assert(merge_ids(Seq::<i32>::empty(), seq![a]) =~= seq![a]);
    let m1 = spec_add(m0, seq![a], r1);
    assert(m1.pending_ids =~= seq![a]);
    assert(seq![b] =~= Seq::<i32>::empty().push(b));
    lemma_merge_ids_push(seq![a], Seq::<i32>::empty(), b);
    assert(!seq![a].contains(b)) by {
        if seq![a].contains(b) {
            let k = choose|k: int| 0 <= k < seq![a].len() && seq![a][k] == b;
            assert(seq![a][0] == a);
        }
    }
    assert(merge_ids(seq![a], seq![b]) =~= seq![a, b]);
    let m2 = spec_add(m1, seq![b], r2);
    assert(m2.pending_ids =~= seq![a, b]);
}

/// Suppression law: a flush after a pending add hands the pending set and
/// revision back immediately, and the debounce timer can no longer fire.
pub proof fn flush_suppresses_batch(m: BatchModel)
    requires
        m.pending_ids.len() > 0,
    ensures
        spec_flush(m).1 == Some((m.pending_ids, m.latest_revision)),
        spec_fire(spec_flush(m).0).1 is None,
{
}

} // verus!
