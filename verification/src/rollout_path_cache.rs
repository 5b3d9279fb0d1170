//! Reuses locations of immutable ancestor rollouts across history pages.
//!
//! Only locations are cached: readers still load metadata and enforce lineage
//! boundaries. Every hit is checked on disk by the caller, and moved or
//! deleted files fall back to normal discovery. Misses are never cached.
//! A location is held as the bytes of the native path.
use vstd::prelude::*;
use std::collections::VecDeque;

verus! {

/// The most locations the cache holds.
pub const MAX_CACHED_ROLLOUT_PATHS: usize = 256;

/// A thread's identifier (the bits of its UUID).
#[derive(Clone, Copy, Debug, PartialEq, Eq, Structural, Hash)]
pub struct ThreadId {
    pub value: u128,
}

/// One cached location as the contracts see it.
pub type CachedPath = (ThreadId, Seq<u8>);

/// Index of the first entry for `id` at or after `i`, or `-1`.
pub open spec fn entry_index(v: Seq<CachedPath>, id: ThreadId, i: int) -> int
    decreases v.len() - i,
{
    if i < 0 || i >= v.len() {
        -1
    } else if v[i].0 == id {
        i
    } else {
        entry_index(v, id, i + 1)
    }
}

/// `v` without the entries for `id`, in order.
pub open spec fn without_id(v: Seq<CachedPath>, id: ThreadId) -> Seq<CachedPath>
    decreases v.len(),
{
    if v.len() == 0 {
        v
    } else if v.last().0 == id {
        without_id(v.drop_last(), id)
    } else {
        without_id(v.drop_last(), id).push(v.last())
    }
}

/// At most the first [`MAX_CACHED_ROLLOUT_PATHS`] entries of `v`.
pub open spec fn capped(v: Seq<CachedPath>) -> Seq<CachedPath> {
    if v.len() <= MAX_CACHED_ROLLOUT_PATHS {
        v
    } else {
        v.take(MAX_CACHED_ROLLOUT_PATHS as int)
    }
}

/// No thread has two entries.
pub open spec fn unique_ids(v: Seq<CachedPath>) -> bool {
    forall|i: int, j: int| 0 <= i < j < v.len() ==> v[i].0 != v[j].0
}

/// The invariant of the cache: at most [`MAX_CACHED_ROLLOUT_PATHS`] entries,
/// one per thread.
pub open spec fn cache_wf(v: Seq<CachedPath>) -> bool {
    v.len() <= MAX_CACHED_ROLLOUT_PATHS && unique_ids(v)
}

/// Rollout locations, most recently used first.
pub struct RolloutPathCache {
    entries: VecDeque<(ThreadId, Vec<u8>)>,
}

impl View for RolloutPathCache {
    type V = Seq<CachedPath>;

    closed spec fn view(&self) -> Seq<CachedPath> {
        self.entries@.map_values(|e: (ThreadId, Vec<u8>)| (e.0, e.1@))
    }
}

pub proof fn lemma_without_id(v: Seq<CachedPath>, id: ThreadId)
    ensures
        without_id(v, id).len() <= v.len(),
        forall|k: int| 0 <= k < without_id(v, id).len() ==> #[trigger] without_id(v, id)[k].0 != id,
        forall|k: int|
            0 <= k < without_id(v, id).len() ==> v.contains(#[trigger] without_id(v, id)[k]),
        unique_ids(v) ==> unique_ids(without_id(v, id)),
        forall|k: int| 0 <= k < v.len() && v[k].0 != id ==> without_id(v, id).contains(#[trigger] v[k]),
    decreases v.len(),
{
    if v.len() > 0 {
        let w = without_id(v.drop_last(), id);
        lemma_without_id(v.drop_last(), id);
        assert forall|k: int| 0 <= k < w.len() implies v.contains(#[trigger] w[k]) by {
            let j = choose|j: int| 0 <= j < v.drop_last().len() && v.drop_last()[j] == w[k];
            assert(v[j] == w[k]);
        }
        assert forall|k: int| 0 <= k < v.len() && v[k].0 != id implies without_id(v, id).contains(
            #[trigger] v[k],
        ) by {
            if k < v.len() - 1 {
                assert(v.drop_last()[k] == v[k]);
                let j = choose|j: int| 0 <= j < w.len() && w[j] == v[k];
                if v.last().0 != id {
                    assert(without_id(v, id)[j] == v[k]);
                }
            } else {
                assert(without_id(v, id)[w.len() as int] == v[k]);
            }
        }
        if v.last().0 != id {
            let r = w.push(v.last());
            assert forall|k: int| 0 <= k < r.len() implies v.contains(#[trigger] r[k]) by {
                if k == w.len() {
                    assert(v[v.len() - 1] == r[k]);
                }
            }
            if unique_ids(v) {
                assert(unique_ids(v.drop_last()));
                assert forall|i: int, j: int| 0 <= i < j < r.len() implies r[i].0 != r[j].0 by {
                    if j == w.len() {
                        let a = choose|a: int| 0 <= a < v.drop_last().len() && v.drop_last()[a] == w[i];
                        assert(v[a] == w[i]);
                    }
                }
            }
        } else {
            if unique_ids(v) {
                assert(unique_ids(v.drop_last()));
            }
        }
    }
}

impl RolloutPathCache {
    #[verifier::type_invariant]
    spec fn inv(self) -> bool {
        cache_wf(self@)
    }

    /// An empty cache.
    pub fn new() -> (r: Self)
        ensures
            r@ == Seq::<CachedPath>::empty(),
            cache_wf(r@),
    {
        let r = RolloutPathCache { entries: VecDeque::new() };
        assert(r@ =~= Seq::<CachedPath>::empty());
        r
    }

    fn position_of(&self, id: ThreadId) -> (r: Option<usize>)
        ensures
            entry_index(self@, id, 0) == (match r {
                Some(i) => i as int,
                None => -1,
            }),
            r is Some ==> r->0 < self@.len(),
    {
        let n = self.entries.len();
        let mut i: usize = 0;
        while i < n
            invariant
                i <= n == self.entries@.len(),
                entry_index(self@, id, 0) == entry_index(self@, id, i as int),
            decreases n - i,
        {
            assert(self@[i as int].0 == self.entries@[i as int].0);
            if self.entries[i].0 == id {
                return Some(i);
            }
            i = i + 1;
        }
        None
    }

    /// The cached location of `id`, if any. A hit becomes the most recently
    /// used entry; the other entries keep their order.
    pub fn take_cached(&mut self, id: ThreadId) -> (r: Option<Vec<u8>>)
        ensures
            entry_index(old(self)@, id, 0) < 0 ==> r is None && final(self)@ == old(self)@,
            entry_index(old(self)@, id, 0) >= 0 ==> {
                let k = entry_index(old(self)@, id, 0);
                &&& r is Some
                &&& r->0@ == old(self)@[k].1
                &&& final(self)@ == seq![old(self)@[k]] + old(self)@.remove(k)
            },
            cache_wf(final(self)@),
    {
        proof {
            use_type_invariant(&*self);
        }
        let ghost old_view = self@;
        let i = match self.position_of(id) {
            Some(i) => i,
            None => {
                return None;
            },
        };
        let mut entries = VecDeque::new();
        std::mem::swap(&mut entries, &mut self.entries);
        let entry = match entries.remove(i) {
            Some(entry) => entry,
            None => {
                return None;
            },
        };
        let path = entry.1.clone();
        entries.push_front(entry);
        let ghost v = entries@.map_values(|e: (ThreadId, Vec<u8>)| (e.0, e.1@));
        assert(v =~= seq![old_view[i as int]] + old_view.remove(i as int));
        proof {
            assert forall|a: int, b: int| 0 <= a < b < v.len() implies v[a].0 != v[b].0 by {
                if a == 0 {
                    if b <= i {
                        assert(v[b] == old_view[b - 1]);
                    } else {
                        assert(v[b] == old_view[b]);
                    }
                } else {
                    let oa = if a <= i { a - 1 } else { a };
                    let ob = if b <= i { b - 1 } else { b };
                    assert(v[a] == old_view[oa]);
                    assert(v[b] == old_view[ob]);
                }
            }
        }
        self.entries = entries;
        proof {
            use_type_invariant(&*self);
        }
        Some(path)
    }

    /// Records what discovery found for `id`: a found location becomes the
    /// most recently used entry (the least recently used beyond the limit is
    /// dropped); a miss only removes any stale entry for `id`.
    pub fn remember(&mut self, id: ThreadId, path: Option<Vec<u8>>)
        ensures
            final(self)@ == match path {
                Some(p) => capped(seq![(id, p@)] + without_id(old(self)@, id)),
                None => without_id(old(self)@, id),
            },
            cache_wf(final(self)@),
    {
        proof {
            use_type_invariant(&*self);
        }
        let ghost old_view = self@;
        let mut old_entries = VecDeque::new();
        std::mem::swap(&mut old_entries, &mut self.entries);
        assert(old_entries@.map_values(|e: (ThreadId, Vec<u8>)| (e.0, e.1@)) == old_view);
        proof {
            lemma_without_id(old_view, id);
        }
        // Keep the entries for other threads, in order.
        let n = old_entries.len();
        let mut kept: VecDeque<(ThreadId, Vec<u8>)> = VecDeque::new();
        let mut i: usize = 0;
        while i < n
            invariant
                i <= n == old_entries@.len() == old_view.len(),
                old_view == old_entries@.map_values(|e: (ThreadId, Vec<u8>)| (e.0, e.1@)),
                kept@.map_values(|e: (ThreadId, Vec<u8>)| (e.0, e.1@)) == without_id(
                    old_view.take(i as int),
                    id,
                ),
            decreases n - i,
        {
            let ghost before = old_view.take(i as int);
            assert(old_view.take(i + 1).drop_last() =~= before);
            assert(old_view.take(i + 1).last() == old_view[i as int]);
            if old_entries[i].0 != id {
                let e = (old_entries[i].0, old_entries[i].1.clone());
                kept.push_back(e);
                assert(kept@.map_values(|e: (ThreadId, Vec<u8>)| (e.0, e.1@)) =~= without_id(
                    before,
                    id,
                ).push(old_view[i as int]));
            } else {
                assert(kept@.map_values(|e: (ThreadId, Vec<u8>)| (e.0, e.1@)) =~= without_id(
                    old_view.take(i + 1),
                    id,
                ));
            }
            i = i + 1;
        }
        assert(old_view.take(n as int) =~= old_view);
        let ghost rest_view = without_id(old_view, id);
        match path {
            Some(p) => {
                let ghost pv = p@;
                kept.push_front((id, p));
                let ghost whole = seq![(id, pv)] + rest_view;
                assert(kept@.map_values(|e: (ThreadId, Vec<u8>)| (e.0, e.1@)) =~= whole);
                kept.truncate(MAX_CACHED_ROLLOUT_PATHS);
                let ghost out_view = kept@.map_values(|e: (ThreadId, Vec<u8>)| (e.0, e.1@));
                proof {
                    if whole.len() <= MAX_CACHED_ROLLOUT_PATHS {
                        assert(out_view =~= whole);
                    } else {
                        assert(out_view =~= whole.take(MAX_CACHED_ROLLOUT_PATHS as int));
                    }
                    assert(out_view =~= capped(whole));
                    assert forall|a: int, b: int| 0 <= a < b < out_view.len() implies out_view[a].0
                        != out_view[b].0 by {
                        assert(out_view[a] == whole[a]);
                        assert(out_view[b] == whole[b]);
                        if a == 0 {
                            assert(whole[b] == rest_view[b - 1]);
                        } else {
                            assert(whole[a] == rest_view[a - 1]);
                            assert(whole[b] == rest_view[b - 1]);
                        }
                    }
                }
            },
            None => {},
        }
        self.entries = kept;
        proof {
            use_type_invariant(&*self);
        }
    }
}

/// A location just remembered is what the next lookup of that thread gives.
pub proof fn lemma_remembered_path_is_found(v: Seq<CachedPath>, id: ThreadId, p: Seq<u8>)
    ensures
        entry_index(capped(seq![(id, p)] + without_id(v, id)), id, 0) == 0,
        capped(seq![(id, p)] + without_id(v, id))[0].1 == p,
{
    let w = seq![(id, p)] + without_id(v, id);
    assert(w[0] == (id, p));
    assert(capped(w)[0] == (id, p));
}

/// A miss leaves no entry for the thread.
pub proof fn lemma_forgotten_path_is_missed(v: Seq<CachedPath>, id: ThreadId)
    ensures
        entry_index(without_id(v, id), id, 0) < 0,
{
    lemma_without_id(v, id);
    lemma_entry_index_absent(without_id(v, id), id, 0);
}

proof fn lemma_entry_index_absent(v: Seq<CachedPath>, id: ThreadId, i: int)
    requires
        0 <= i,
        forall|k: int| 0 <= k < v.len() ==> #[trigger] v[k].0 != id,
    ensures
        entry_index(v, id, i) < 0,
    decreases v.len() - i,
{
    if i < v.len() {
        lemma_entry_index_absent(v, id, i + 1);
    }
}

} // verus!
