//! The images placed on screen, by key: which placements survive a frame,
//! and which are dropped, oldest first, when memory or the number of
//! placements runs over its budget.
use vstd::prelude::*;

use crate::session::ImageState;

verus! {

/// At most this many image placements are kept.
pub const MAX_PROTOCOL_PLACEMENTS: usize = 64;

/// Whether no key occurs twice.
pub open spec fn keys_unique(e: Seq<(String, ImageState)>) -> bool {
    forall|i: int, j: int| 0 <= i < j < e.len() ==> e[i].0@ != e[j].0@
}

/// Whether some entry has key `k`.
pub open spec fn has_key(e: Seq<(String, ImageState)>, k: Seq<char>) -> bool {
    exists|i: int| 0 <= i < e.len() && #[trigger] e[i].0@ == k
}

/// The bytes of all placements.
pub open spec fn bytes_of(e: Seq<(String, ImageState)>) -> int
    decreases e.len(),
{
    if e.len() == 0 {
        0
    } else {
        bytes_of(e.drop_last()) + e.last().1.source_bytes
    }
}

/// Whether every entry of `after` is an entry of `before`.
pub open spec fn kept_from(after: Seq<(String, ImageState)>, before: Seq<(String, ImageState)>) -> bool {
    forall|j: int| 0 <= j < after.len() ==> before.contains(#[trigger] after[j])
}

proof fn lemma_kept_from_self(e: Seq<(String, ImageState)>)
    ensures
        kept_from(e, e),
{
    assert forall|j: int| 0 <= j < e.len() implies e.contains(#[trigger] e[j]) by {
        assert(e[j] == e[j]);
    }
}

proof fn lemma_bytes_prefix(s: Seq<(String, ImageState)>, i: int)
    requires
        0 <= i < s.len(),
    ensures
        bytes_of(s.subrange(0, i + 1)) == bytes_of(s.subrange(0, i)) + s[i].1.source_bytes,
{
    assert(s.subrange(0, i + 1).drop_last() =~= s.subrange(0, i));
}

proof fn lemma_bytes_nonneg(s: Seq<(String, ImageState)>)
    ensures
        bytes_of(s) >= 0,
    decreases s.len(),
{
    if s.len() > 0 {
        lemma_bytes_nonneg(s.drop_last());
    }
}

proof fn lemma_bytes_prefix_bound(s: Seq<(String, ImageState)>, i: int)
    requires
        0 <= i < s.len(),
    ensures
        bytes_of(s.subrange(0, i + 1)) <= bytes_of(s),
    decreases s.len(),
{
    if i + 1 < s.len() {
        lemma_bytes_prefix_bound(s.drop_last(), i);
        assert(s.drop_last().subrange(0, i + 1) =~= s.subrange(0, i + 1));
        lemma_bytes_nonneg(s.drop_last());
    } else {
        assert(s.subrange(0, i + 1) =~= s);
    }
}

/// Removing entry `i` keeps the other entries, in order, with their keys.
proof fn lemma_remove_entry(before: Seq<(String, ImageState)>, i: int)
    requires
        0 <= i < before.len(),
        keys_unique(before),
    ensures
        keys_unique(before.remove(i)),
        kept_from(before.remove(i), before),
        !has_key(before.remove(i), before[i].0@),
        forall|k: Seq<char>| k != before[i].0@ ==> (has_key(before.remove(i), k) == has_key(before, k)),
{
    let after = before.remove(i);
    assert forall|j: int| 0 <= j < after.len() implies before.contains(#[trigger] after[j]) by {
        if j < i {
            assert(before[j] == after[j]);
        } else {
            assert(before[j + 1] == after[j]);
        }
    }
    assert forall|k: Seq<char>| k != before[i].0@ implies (has_key(after, k) == has_key(before, k)) by {
        if has_key(before, k) {
            let m = choose|m: int| 0 <= m < before.len() && #[trigger] before[m].0@ == k;
            if m < i {
                assert(after[m].0@ == k);
            } else if m > i {
                assert(after[m - 1].0@ == k);
            }
        }
        if has_key(after, k) {
            let m = choose|m: int| 0 <= m < after.len() && #[trigger] after[m].0@ == k;
            if m < i {
                assert(before[m].0@ == k);
            } else {
                assert(before[m + 1].0@ == k);
            }
        }
    }
    assert(!has_key(after, before[i].0@)) by {
        if has_key(after, before[i].0@) {
            let m = choose|m: int| 0 <= m < after.len() && #[trigger] after[m].0@ == before[i].0@;
            if m < i {
                assert(before[m].0@ == before[i].0@);
            } else {
                assert(before[m + 1].0@ == before[i].0@);
            }
        }
    }
}

/// Whether every entry of `before` missing from `after` was shown no later
/// than every entry that stayed: the oldest go first.
pub open spec fn dropped_oldest_first(after: Seq<(String, ImageState)>, before: Seq<(String, ImageState)>) -> bool {
    forall|i: int, j: int|
        0 <= i < before.len() && 0 <= j < after.len() && !has_key(after, #[trigger] before[i].0@) ==> before[i].1.last_visible_epoch
            <= #[trigger] after[j].1.last_visible_epoch
}

/// Whether the memory or the number of placements is over budget, with
/// `decoded_bytes` held by decoded images and `budget` allowed in all.
pub open spec fn over_budget(protocol_bytes: int, count: int, decoded_bytes: int, budget: int) -> bool {
    protocol_bytes + decoded_bytes > budget || count > 64
}

/// Whether dropping stopped as soon as the placements fit: some placement
/// of `before` missing from `after` would, put back, leave the cache over
/// budget with `bytes` held by the placements of `after`.
pub open spec fn stopped_when_fitting(
    after: Seq<(String, ImageState)>,
    before: Seq<(String, ImageState)>,
    bytes: int,
    decoded_bytes: int,
    budget: int,
) -> bool {
    exists|i: int|
        0 <= i < before.len() && !has_key(after, #[trigger] before[i].0@) && over_budget(
            bytes + before[i].1.source_bytes,
            after.len() + 1int,
            decoded_bytes,
            budget,
        )
}

/// The image placements on screen, keyed by image, the bytes they hold, and
/// the number of the frame being drawn.
pub struct ImageCache {
    pub image_states: Vec<(String, ImageState)>,
    pub protocol_bytes: usize,
    pub render_epoch: u64,
}

impl ImageCache {
    /// No key occurs twice.
    pub open spec fn wf(&self) -> bool {
        keys_unique(self.image_states@)
    }

    /// An empty cache at frame 0.
    pub fn new() -> (c: ImageCache)
        ensures
            c.wf(),
            c.image_states@.len() == 0,
            c.protocol_bytes == 0,
            c.render_epoch == 0,
    {
        ImageCache { image_states: Vec::new(), protocol_bytes: 0, render_epoch: 0 }
    }

    /// Starts a frame: the next frame number, skipping 0 when it wraps.
    pub fn begin_image_frame(&mut self)
        ensures
            final(self).image_states@ == old(self).image_states@,
            final(self).protocol_bytes == old(self).protocol_bytes,
            final(self).render_epoch == if old(self).render_epoch == u64::MAX {
                1
            } else {
                old(self).render_epoch + 1
            },
    {
        self.render_epoch = if self.render_epoch == u64::MAX {
            0
        } else {
            self.render_epoch + 1
        };
        if self.render_epoch == 0 {
            self.render_epoch = 1;
        }
    }

    fn position_of(&self, key: &String) -> (r: Option<usize>)
        requires
            self.wf(),
        ensures
            r is None <==> !has_key(self.image_states@, key@),
            r matches Some(i) ==> i < self.image_states@.len() && self.image_states@[i as int].0@ == key@,
    {
        let n = self.image_states.len();
        let mut i: usize = 0;
        while i < n
            invariant
                n == self.image_states@.len(),
                i <= n,
                forall|k: int| 0 <= k < i ==> self.image_states@[k].0@ != key@,
            decreases n - i,
        {
            if self.image_states[i].0 == *key {
                return Some(i);
            }
            i += 1;
        }
        None
    }

    /// Drops the placement of `key`, if there is one, and its bytes.
    pub fn remove_image_state(&mut self, key: &String)
        requires
            old(self).wf(),
        ensures
            final(self).wf(),
            !has_key(final(self).image_states@, key@),
            final(self).render_epoch == old(self).render_epoch,
            kept_from(final(self).image_states@, old(self).image_states@),
            forall|k: Seq<char>| k != key@ ==> (has_key(final(self).image_states@, k) == has_key(old(self).image_states@, k)),
            has_key(old(self).image_states@, key@) ==> exists|i: int|
                0 <= i < old(self).image_states@.len() && old(self).image_states@[i].0@ == key@ && final(self).image_states@
                    == old(self).image_states@.remove(i) && final(self).protocol_bytes == if old(self).protocol_bytes
                    >= old(self).image_states@[i].1.source_bytes {
                    old(self).protocol_bytes - old(self).image_states@[i].1.source_bytes
                } else {
                    0
                },
            !has_key(old(self).image_states@, key@) ==> final(self).image_states@ == old(self).image_states@
                && final(self).protocol_bytes == old(self).protocol_bytes,
    {
        proof {
            lemma_kept_from_self(self.image_states@);
        }
        if let Some(i) = self.position_of(key) {
            let ghost before = self.image_states@;
            let (_, state) = self.image_states.remove(i);
            self.protocol_bytes = self.protocol_bytes.saturating_sub(state.source_bytes);
            proof {
                lemma_remove_entry(before, i as int);
            }
        }
    }

    /// Drops all placements, as when another note is opened.
    pub fn clear(&mut self)
        ensures
            final(self).wf(),
            final(self).image_states@.len() == 0,
            final(self).protocol_bytes == 0,
            final(self).render_epoch == old(self).render_epoch,
    {
        self.image_states.clear();
        self.protocol_bytes = 0;
    }

    /// Drops placements, the least recently shown first, while memory or
    /// the number of placements is over budget and more than one is left.
    /// `decoded_bytes` is what decoded images hold meanwhile, `budget` the
    /// bytes allowed in all.
    pub fn trim_image_memory(&mut self, decoded_bytes: usize, budget: usize)
        requires
            old(self).wf(),
            old(self).protocol_bytes + decoded_bytes <= usize::MAX,
        ensures
            final(self).wf(),
            final(self).render_epoch == old(self).render_epoch,
            final(self).image_states@.len() <= old(self).image_states@.len(),
            final(self).protocol_bytes <= old(self).protocol_bytes,
            kept_from(final(self).image_states@, old(self).image_states@),
            dropped_oldest_first(final(self).image_states@, old(self).image_states@),
            !(over_budget(
                final(self).protocol_bytes as int,
                final(self).image_states@.len() as int,
                decoded_bytes as int,
                budget as int,
            ) && final(self).image_states@.len() > 1),
            !over_budget(old(self).protocol_bytes as int, old(self).image_states@.len() as int, decoded_bytes as int, budget as int)
                ==> final(self).image_states@ == old(self).image_states@,
            final(self).image_states@.len() < old(self).image_states@.len() ==> stopped_when_fitting(
                final(self).image_states@,
                old(self).image_states@,
                final(self).protocol_bytes as int,
                decoded_bytes as int,
                budget as int,
            ),
    {
        let ghost start = self.image_states@;
        proof {
            lemma_kept_from_self(start);
        }
        while (self.protocol_bytes + decoded_bytes > budget || self.image_states.len() > MAX_PROTOCOL_PLACEMENTS)
            && self.image_states.len() > 1
            invariant
                self.wf(),
                self.render_epoch == old(self).render_epoch,
                self.image_states@.len() <= start.len(),
                self.protocol_bytes <= old(self).protocol_bytes,
                old(self).protocol_bytes + decoded_bytes <= usize::MAX,
                start == old(self).image_states@,
                keys_unique(start),
                kept_from(self.image_states@, start),
                dropped_oldest_first(self.image_states@, start),
                !over_budget(old(self).protocol_bytes as int, start.len() as int, decoded_bytes as int, budget as int)
                    ==> self.image_states@ == start,
                self.image_states@.len() < start.len() ==> stopped_when_fitting(
                    self.image_states@,
                    start,
                    self.protocol_bytes as int,
                    decoded_bytes as int,
                    budget as int,
                ),
            decreases self.image_states@.len(),
        {
            let n = self.image_states.len();
            let mut oldest: usize = 0;
            let mut k: usize = 1;
            while k < n
                invariant
                    n == self.image_states@.len(),
                    1 < n,
                    oldest < k <= n,
                    forall|m: int| 0 <= m < k ==> self.image_states@[oldest as int].1.last_visible_epoch
                        <= #[trigger] self.image_states@[m].1.last_visible_epoch,
                decreases n - k,
            {
                if self.image_states[k].1.last_visible_epoch < self.image_states[oldest].1.last_visible_epoch {
                    oldest = k;
                }
                k += 1;
            }
            let ghost before = self.image_states@;
            let key = self.image_states[oldest].0.clone();
            proof {
                assert(key@ == before[oldest as int].0@);
                assert(has_key(before, key@));
            }
            let ghost p_before = self.protocol_bytes;
            self.remove_image_state(&key);
            proof {
                let after = self.image_states@;
                let r = choose|r: int|
                    0 <= r < before.len() && before[r].0@ == key@ && after == before.remove(r) && self.protocol_bytes
                        == if p_before >= before[r].1.source_bytes {
                        p_before - before[r].1.source_bytes
                    } else {
                        0
                    };
                assert(r == oldest) by {
                    if r != oldest {
                        assert(before[r].0@ == before[oldest as int].0@);
                    }
                }
                let w = choose|w: int| 0 <= w < start.len() && #[trigger] start[w] == before[oldest as int];
                assert(start[w].0@ == key@);
                assert(over_budget(
                    self.protocol_bytes + start[w].1.source_bytes,
                    after.len() + 1int,
                    decoded_bytes as int,
                    budget as int,
                ));
                assert forall|a: int, b: int|
                    0 <= a < start.len() && 0 <= b < after.len() && !has_key(after, #[trigger] start[a].0@) implies start[a].1.last_visible_epoch
                        <= #[trigger] after[b].1.last_visible_epoch by {
                    let src = choose|q: int| 0 <= q < before.len() && #[trigger] before[q] == after[b];
                    if has_key(before, start[a].0@) {
                        assert(start[a].0@ == key@);
                        let s = choose|s: int| 0 <= s < start.len() && #[trigger] start[s] == before[oldest as int];
                        assert(start[s].0@ == start[a].0@);
                        assert(s == a);
                        assert(before[oldest as int].1.last_visible_epoch <= before[src].1.last_visible_epoch);
                    }
                }
                assert forall|j: int|
                    #![trigger after[j]]
                    0 <= j < after.len() implies exists|i: int|
                        0 <= i < start.len() && #[trigger] start[i] == after[j] by {
                    let q = choose|q: int| 0 <= q < before.len() && #[trigger] before[q] == after[j];
                    let i = choose|i: int| 0 <= i < start.len() && #[trigger] start[i] == before[q];
                }
            }
        }
    }
}

impl ImageCache {
    /// Ends a frame: keeps only the placements shown in this frame for the
    /// current document (`generation`), counts their bytes, and trims to the
    /// budget (see `trim_image_memory`).
    pub fn finish_image_frame(&mut self, generation: u64, decoded_bytes: usize, budget: usize)
        requires
            old(self).wf(),
            bytes_of(old(self).image_states@) + decoded_bytes <= usize::MAX,
        ensures
            final(self).wf(),
            final(self).render_epoch == old(self).render_epoch,
            forall|j: int|
                0 <= j < final(self).image_states@.len() ==> {
                    &&& old(self).image_states@.contains(#[trigger] final(self).image_states@[j])
                    &&& final(self).image_states@[j].1.last_visible_epoch == old(self).render_epoch
                    &&& final(self).image_states@[j].1.document_generation == generation
                },
            !(over_budget(
                final(self).protocol_bytes as int,
                final(self).image_states@.len() as int,
                decoded_bytes as int,
                budget as int,
            ) && final(self).image_states@.len() > 1),
    {
        let epoch = self.render_epoch;
        let n = self.image_states.len();
        let ghost start = self.image_states@;
        let mut kept: Vec<(String, ImageState)> = Vec::new();
        let mut bytes: usize = 0;
        let mut i: usize = 0;
        while i < n
            invariant
                n == start.len(),
                start == self.image_states@,
                keys_unique(start),
                i <= n,
                bytes == bytes_of(kept@),
                bytes_of(kept@) <= bytes_of(start.subrange(0, i as int)),
                bytes_of(start) + decoded_bytes <= usize::MAX,
                forall|j: int|
                    0 <= j < kept@.len() ==> {
                        &&& start.subrange(0, i as int).contains(#[trigger] kept@[j])
                        &&& kept@[j].1.last_visible_epoch == epoch
                        &&& kept@[j].1.document_generation == generation
                    },
                keys_unique(kept@),
                forall|j: int| 0 <= j < kept@.len() ==> #[trigger] has_key(start.subrange(0, i as int), kept@[j].0@),
            decreases n - i,
        {
            proof {
                lemma_bytes_prefix(start, i as int);
            }
            let entry = &self.image_states[i];
            if entry.1.last_visible_epoch == epoch && entry.1.document_generation == generation {
                let ghost before_kept = kept@;
                proof {
                    lemma_bytes_prefix_bound(start, i as int);
                    assert(!has_key(kept@, entry.0@)) by {
                        if has_key(kept@, entry.0@) {
                            let m = choose|m: int| 0 <= m < kept@.len() && #[trigger] kept@[m].0@ == entry.0@;
                            assert(has_key(start.subrange(0, i as int), kept@[m].0@));
                            let q = choose|q: int|
                                0 <= q < start.subrange(0, i as int).len() && #[trigger] start.subrange(0, i as int)[q].0@
                                    == kept@[m].0@;
                            assert(start[q].0@ == start[i as int].0@);
                        }
                    }
                }
                bytes = bytes + entry.1.source_bytes;
                kept.push((entry.0.clone(), entry.1));
                proof {
                    assert(kept@.drop_last() == before_kept);
                    assert forall|j: int| 0 <= j < kept@.len() implies #[trigger] has_key(
                        start.subrange(0, i + 1),
                        kept@[j].0@,
                    ) by {
                        if j < before_kept.len() {
                            assert(has_key(start.subrange(0, i as int), kept@[j].0@));
                            let q = choose|q: int|
                                0 <= q < start.subrange(0, i as int).len() && #[trigger] start.subrange(0, i as int)[q].0@
                                    == kept@[j].0@;
                            assert(start.subrange(0, i + 1)[q].0@ == kept@[j].0@);
                        } else {
                            assert(start.subrange(0, i + 1)[i as int].0@ == kept@[j].0@);
                        }
                    }
                    assert forall|j: int| 0 <= j < kept@.len() implies start.subrange(0, i + 1).contains(
                        #[trigger] kept@[j],
                    ) by {
                        if j < before_kept.len() {
                            let q = choose|q: int|
                                0 <= q < start.subrange(0, i as int).len() && start.subrange(0, i as int)[q]
                                    == kept@[j];
                            assert(start.subrange(0, i + 1)[q] == kept@[j]);
                        } else {
                            assert(start.subrange(0, i + 1)[i as int] == kept@[j]);
                        }
                    }
                }
            } else {
                proof {
                    lemma_bytes_prefix_bound(start, i as int);
                    assert forall|j: int| 0 <= j < kept@.len() implies #[trigger] has_key(
                        start.subrange(0, i + 1),
                        kept@[j].0@,
                    ) by {
                        let q = choose|q: int|
                            0 <= q < start.subrange(0, i as int).len() && #[trigger] start.subrange(0, i as int)[q].0@
                                == kept@[j].0@;
                        assert(start.subrange(0, i + 1)[q].0@ == kept@[j].0@);
                    }
                    assert forall|j: int| 0 <= j < kept@.len() implies start.subrange(0, i + 1).contains(
                        #[trigger] kept@[j],
                    ) by {
                        let q = choose|q: int|
                            0 <= q < start.subrange(0, i as int).len() && start.subrange(0, i as int)[q] == kept@[j];
                        assert(start.subrange(0, i + 1)[q] == kept@[j]);
                    }
                }
            }
            i += 1;
        }
        proof {
            assert(start.subrange(0, n as int) == start);
        }
        self.image_states = kept;
        self.protocol_bytes = bytes;
        let ghost filtered = self.image_states@;
        self.trim_image_memory(decoded_bytes, budget);
        proof {
            let fin = self.image_states@;
            assert forall|j: int| 0 <= j < fin.len() implies {
                &&& start.contains(#[trigger] fin[j])
                &&& fin[j].1.last_visible_epoch == epoch
                &&& fin[j].1.document_generation == generation
            } by {
                let q = choose|q: int| 0 <= q < filtered.len() && filtered[q] == fin[j];
                assert(filtered.contains(filtered[q]) ==> start.contains(filtered[q]));
            }
        }
    }
}

impl ImageCache {
    /// Marks the placement of `key` as shown in this frame, if it is there
    /// with size `width` × `height` for the current document (`generation`);
    /// a placement of another size or document is dropped. Returns whether
    /// a usable placement was there.
    pub fn touch_image_state(&mut self, key: &String, width: u16, height: u16, generation: u64) -> (usable: bool)
        requires
            old(self).wf(),
        ensures
            final(self).wf(),
            final(self).render_epoch == old(self).render_epoch,
            !has_key(old(self).image_states@, key@) ==> !usable && final(self).image_states@ == old(self).image_states@
                && final(self).protocol_bytes == old(self).protocol_bytes,
            has_key(old(self).image_states@, key@) ==> exists|i: int|
                0 <= i < old(self).image_states@.len() && old(self).image_states@[i].0@ == key@ && {
                    let st = old(self).image_states@[i].1;
                    let fits = st.width == width && st.height == height && st.document_generation == generation;
                    &&& usable == fits
                    &&& fits ==> final(self).image_states@ == old(self).image_states@.update(
                        i,
                        (old(self).image_states@[i].0, ImageState { last_visible_epoch: old(self).render_epoch, ..st }),
                    ) && final(self).protocol_bytes == old(self).protocol_bytes
                    &&& !fits ==> final(self).image_states@ == old(self).image_states@.remove(i)
                },
    {
        match self.position_of(key) {
            None => false,
            Some(i) => {
                let st = self.image_states[i].1;
                if st.width != width || st.height != height || st.document_generation != generation {
                    self.remove_image_state(key);
                    proof {
                        let before = old(self).image_states@;
                        let j = choose|j: int|
                            0 <= j < before.len() && before[j].0@ == key@ && self.image_states@ == before.remove(j)
                                && self.protocol_bytes == if old(self).protocol_bytes >= before[j].1.source_bytes {
                                old(self).protocol_bytes - before[j].1.source_bytes
                            } else {
                                0
                            };
                        assert(j == i) by {
                            if j != i {
                                assert(before[j].0@ == before[i as int].0@);
                            }
                        }
                    }
                    false
                } else {
                    let epoch = self.render_epoch;
                    let name = self.image_states[i].0.clone();
                    let updated = ImageState { last_visible_epoch: epoch, ..st };
                    self.image_states.set(i, (name, updated));
                    proof {
                        let before = old(self).image_states@;
                        assert forall|a: int, b: int| 0 <= a < b < self.image_states@.len() implies self.image_states@[a].0@
                            != self.image_states@[b].0@ by {
                            assert(self.image_states@[a].0@ == before[a].0@);
                            assert(self.image_states@[b].0@ == before[b].0@);
                        }
                    }
                    true
                }
            },
        }
    }

    /// Records a new placement of `key` with its size, bytes and document,
    /// shown in this frame, replacing any earlier one, and trims to the
    /// budget (see `trim_image_memory`).
    pub fn insert_image_state(
        &mut self,
        key: String,
        width: u16,
        height: u16,
        source_bytes: usize,
        generation: u64,
        decoded_bytes: usize,
        budget: usize,
    )
        requires
            old(self).wf(),
            old(self).protocol_bytes + source_bytes + decoded_bytes <= usize::MAX,
        ensures
            final(self).wf(),
            final(self).render_epoch == old(self).render_epoch,
            !(over_budget(
                final(self).protocol_bytes as int,
                final(self).image_states@.len() as int,
                decoded_bytes as int,
                budget as int,
            ) && final(self).image_states@.len() > 1),
            forall|j: int|
                0 <= j < final(self).image_states@.len() && final(self).image_states@[j].0@ != key@
                    ==> old(self).image_states@.contains(#[trigger] final(self).image_states@[j]),
            forall|j: int|
                0 <= j < final(self).image_states@.len() && #[trigger] final(self).image_states@[j].0@ == key@
                    ==> final(self).image_states@[j].1 == (ImageState {
                    width,
                    height,
                    source_bytes,
                    document_generation: generation,
                    last_visible_epoch: old(self).render_epoch,
                }),
    {
        self.remove_image_state(&key);
        let ghost removed = self.image_states@;
        self.protocol_bytes = self.protocol_bytes + source_bytes;
        let state = ImageState {
            width,
            height,
            source_bytes,
            document_generation: generation,
            last_visible_epoch: self.render_epoch,
        };
        self.image_states.push((key, state));
        let ghost pushed = self.image_states@;
        proof {
            let k = pushed.last().0@;
            assert forall|a: int, b: int| 0 <= a < b < pushed.len() implies pushed[a].0@ != pushed[b].0@ by {
                if b == pushed.len() - 1 {
                    assert(removed[a] == pushed[a]);
                    if pushed[a].0@ == k {
                        assert(has_key(removed, k));
                    }
                } else {
                    assert(removed[a] == pushed[a]);
                    assert(removed[b] == pushed[b]);
                }
            }
        }
        self.trim_image_memory(decoded_bytes, budget);
        proof {
            let fin = self.image_states@;
            let k = pushed.last().0@;
            assert forall|j: int| 0 <= j < fin.len() && fin[j].0@ != k implies old(self).image_states@.contains(
                #[trigger] fin[j],
            ) by {
                let q = choose|q: int| 0 <= q < pushed.len() && pushed[q] == fin[j];
                assert(q < removed.len());
                assert(removed[q] == pushed[q]);
                assert(removed.contains(removed[q]));
            }
            assert forall|j: int| 0 <= j < fin.len() && #[trigger] fin[j].0@ == k implies fin[j].1 == pushed.last().1 by {
                let q = choose|q: int| 0 <= q < pushed.len() && pushed[q] == fin[j];
                if q < removed.len() {
                    assert(removed[q] == pushed[q]);
                    assert(has_key(removed, k));
                }
            }
        }
    }
}

} // verus!
