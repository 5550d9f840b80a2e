//! The diff engine: the previous frame's fingerprint table against the
//! current one, per tag. A tag only in the current frame is Added, only in
//! the previous is Removed, in both with differing fingerprints Modified,
//! with equal fingerprints Unchanged — and Unchanged instances generate no
//! downstream work at all. Removed tags free their buffer slot for reuse
//! through a first-fit free list, so the buffer does not grow while
//! content churns.

use vstd::prelude::*;
use crate::state_hash::Fingerprint;
use crate::tag::Tag;

verus! {

broadcast use vstd::seq_lib::lemma_seq_skip_len, vstd::seq_lib::lemma_seq_skip_index;

/// One retained entry: a tag's fingerprint and its buffer slot.
#[derive(Clone, Copy, PartialEq, Eq, Structural, Debug)]
pub struct CacheEntry {
    /// The instance's tag.
    pub tag: Tag,
    /// The fingerprint of the instance's last rendered state.
    pub fingerprint: Fingerprint,
    /// The buffer slot the instance occupies.
    pub slot: u32,
}

/// Entries in strictly ascending tag order: each tag at most once.
pub open spec fn entries_sorted(s: Seq<CacheEntry>) -> bool {
    forall|i: int, j: int| 0 <= i < j < s.len() ==> s[i].tag < s[j].tag
}

/// A current-frame table in strictly ascending tag order.
pub open spec fn table_sorted(s: Seq<(Tag, Fingerprint)>) -> bool {
    forall|i: int, j: int| 0 <= i < j < s.len() ==> s[i].0 < s[j].0
}

/// The tag occurs in the retained entries.
pub open spec fn in_entries(s: Seq<CacheEntry>, t: Tag) -> bool {
    exists|k: int| 0 <= k < s.len() && s[k].tag == t
}

/// The tag occurs in the current table.
pub open spec fn in_table(s: Seq<(Tag, Fingerprint)>, t: Tag) -> bool {
    exists|k: int| 0 <= k < s.len() && s[k].0 == t
}

/// The (unique, when sorted) entry of a tag.
pub open spec fn entry_of(s: Seq<CacheEntry>, t: Tag) -> CacheEntry {
    s[choose|k: int| 0 <= k < s.len() && s[k].tag == t]
}

/// With sorted entries, any index holding the tag holds its entry.
pub proof fn lemma_entry_unique(s: Seq<CacheEntry>, t: Tag, k: int)
    requires
        entries_sorted(s),
        0 <= k < s.len(),
        s[k].tag == t,
    ensures
        in_entries(s, t),
        entry_of(s, t) == s[k],
{
    assert(in_entries(s, t));
    let k2 = choose|i: int| 0 <= i < s.len() && s[i].tag == t;
    if k2 < k {
        assert(s[k2].tag < s[k].tag);
    } else if k2 > k {
        assert(s[k].tag < s[k2].tag);
    }
}

/// The fingerprint a tag carries in the (sorted) current table.
pub open spec fn table_fp_of(s: Seq<(Tag, Fingerprint)>, t: Tag) -> Fingerprint {
    (s[choose|k: int| 0 <= k < s.len() && s[k].0 == t]).1
}

/// With a sorted table, any index holding the tag holds its fingerprint.
pub proof fn lemma_table_unique(s: Seq<(Tag, Fingerprint)>, t: Tag, k: int)
    requires
        table_sorted(s),
        0 <= k < s.len(),
        s[k].0 == t,
    ensures
        in_table(s, t),
        table_fp_of(s, t) == s[k].1,
{
    assert(in_table(s, t));
    let k2 = choose|i: int| 0 <= i < s.len() && s[i].0 == t;
    if k2 < k {
        assert(s[k2].0 < s[k].0);
    } else if k2 > k {
        assert(s[k].0 < s[k2].0);
    }
}

/// The index of a tag's entry, by binary-search-free scan.
fn find_entry(entries: &Vec<CacheEntry>, t: Tag) -> (r: Option<usize>)
    ensures
        r matches Some(k) ==> k < entries@.len() && entries@[k as int].tag == t,
        r is None ==> !in_entries(entries@, t),
{
    let mut k: usize = 0;
    while k < entries.len()
        invariant
            k <= entries@.len(),
            forall|i: int| 0 <= i < k ==> entries@[i].tag != t,
        decreases entries@.len() - k,
    {
        if entries[k].tag == t {
            return Some(k);
        }
        k += 1;
    }
    None
}

/// Whether a tag occurs in the current table.
fn find_in_table(table: &Vec<(Tag, Fingerprint)>, t: Tag) -> (r: bool)
    ensures
        r == in_table(table@, t),
{
    let mut k: usize = 0;
    while k < table.len()
        invariant
            k <= table@.len(),
            forall|i: int| 0 <= i < k ==> table@[i].0 != t,
        decreases table@.len() - k,
    {
        if table[k].0 == t {
            return true;
        }
        k += 1;
    }
    false
}

/// The frame's classification: which tags appeared, vanished, changed or
/// stayed, each list in ascending tag order.
#[derive(Clone, PartialEq, Eq, Debug)]
pub struct DiffResult {
    /// Tags present only in the current frame.
    pub added: Vec<Tag>,
    /// Tags present only in the previous frame.
    pub removed: Vec<Tag>,
    /// Tags present in both frames with differing fingerprints.
    pub modified: Vec<Tag>,
    /// Tags present in both frames with equal fingerprints.
    pub unchanged: Vec<Tag>,
}

/// Tags in strictly ascending order.
pub open spec fn tags_sorted(s: Seq<Tag>) -> bool {
    forall|i: int, j: int| 0 <= i < j < s.len() ==> s[i] < s[j]
}

/// What `diff` returns, element by element: every listed tag belongs to
/// its class, and every tag of either frame shows up in its class.
pub open spec fn diff_post(
    prev: Seq<CacheEntry>,
    cur: Seq<(Tag, Fingerprint)>,
    d: DiffResult,
) -> bool {
    &&& tags_sorted(d.added@) && tags_sorted(d.removed@) && tags_sorted(d.modified@)
        && tags_sorted(d.unchanged@)
    &&& forall|a: int|
        0 <= a < d.added@.len() ==> in_table(cur, #[trigger] d.added@[a]) && !in_entries(
            prev,
            d.added@[a],
        )
    &&& forall|k: int|
        0 <= k < cur.len() && !in_entries(prev, (#[trigger] cur[k]).0) ==> exists|a: int|
            0 <= a < d.added@.len() && d.added@[a] == cur[k].0
    &&& forall|a: int|
        0 <= a < d.removed@.len() ==> in_entries(prev, #[trigger] d.removed@[a]) && !in_table(
            cur,
            d.removed@[a],
        )
    &&& forall|k: int|
        0 <= k < prev.len() && !in_table(cur, (#[trigger] prev[k]).tag) ==> exists|a: int|
            0 <= a < d.removed@.len() && d.removed@[a] == prev[k].tag
    &&& forall|a: int|
        0 <= a < d.modified@.len() ==> in_table(cur, #[trigger] d.modified@[a]) && in_entries(
            prev,
            d.modified@[a],
        ) && table_fp_of(cur, d.modified@[a]) != entry_of(prev, d.modified@[a]).fingerprint
    &&& forall|k: int|
        0 <= k < cur.len() && in_entries(prev, (#[trigger] cur[k]).0)
            && entry_of(prev, cur[k].0).fingerprint != cur[k].1 ==> exists|a: int|
            0 <= a < d.modified@.len() && d.modified@[a] == cur[k].0
    &&& forall|k: int|
        0 <= k < cur.len() && in_entries(prev, (#[trigger] cur[k]).0)
            && entry_of(prev, cur[k].0).fingerprint == cur[k].1 ==> exists|a: int|
            0 <= a < d.unchanged@.len() && d.unchanged@[a] == cur[k].0
    &&& forall|a: int|
        0 <= a < d.unchanged@.len() ==> in_table(cur, #[trigger] d.unchanged@[a]) && in_entries(
            prev,
            d.unchanged@[a],
        ) && table_fp_of(cur, d.unchanged@[a]) == entry_of(prev, d.unchanged@[a]).fingerprint
}

/// Classify every tag of the previous and current frame. The previous
/// table is read only; ownership stays with the caller until the new
/// table replaces it wholesale.
#[verifier::rlimit(100)]
pub fn diff(prev: &Vec<CacheEntry>, cur: &Vec<(Tag, Fingerprint)>) -> (d: DiffResult)
    requires
        entries_sorted(prev@),
        table_sorted(cur@),
    ensures
        diff_post(prev@, cur@, d),
{
    let mut added: Vec<Tag> = Vec::new();
    let mut modified: Vec<Tag> = Vec::new();
    let mut unchanged: Vec<Tag> = Vec::new();
    let mut j: usize = 0;
    while j < cur.len()
        invariant
            j <= cur@.len(),
            entries_sorted(prev@),
            table_sorted(cur@),
            tags_sorted(added@) && tags_sorted(modified@) && tags_sorted(unchanged@),
            forall|a: int, m: int|
                0 <= a < added@.len() && j <= m < cur@.len() ==> #[trigger] added@[a] < (#[trigger] cur@[m]).0,
            forall|a: int, m: int|
                0 <= a < modified@.len() && j <= m < cur@.len() ==> #[trigger] modified@[a] < (
                #[trigger] cur@[m]).0,
            forall|a: int, m: int|
                0 <= a < unchanged@.len() && j <= m < cur@.len() ==> #[trigger] unchanged@[a] < (
                #[trigger] cur@[m]).0,
            forall|a: int|
                0 <= a < added@.len() ==> in_table(cur@, #[trigger] added@[a]) && !in_entries(
                    prev@,
                    added@[a],
                ),
            forall|k: int|
                0 <= k < j && !in_entries(prev@, (#[trigger] cur@[k]).0) ==> exists|a: int|
                    0 <= a < added@.len() && added@[a] == cur@[k].0,
            forall|k: int|
                0 <= k < j && in_entries(prev@, (#[trigger] cur@[k]).0)
                    && entry_of(prev@, cur@[k].0).fingerprint != cur@[k].1 ==> exists|a: int|
                    0 <= a < modified@.len() && modified@[a] == cur@[k].0,
            forall|k: int|
                0 <= k < j && in_entries(prev@, (#[trigger] cur@[k]).0)
                    && entry_of(prev@, cur@[k].0).fingerprint == cur@[k].1 ==> exists|a: int|
                    0 <= a < unchanged@.len() && unchanged@[a] == cur@[k].0,
            forall|a: int|
                0 <= a < modified@.len() ==> in_table(cur@, #[trigger] modified@[a]) && in_entries(
                    prev@,
                    modified@[a],
                ) && table_fp_of(cur@, modified@[a]) != entry_of(prev@, modified@[a]).fingerprint,
            forall|a: int|
                0 <= a < unchanged@.len() ==> in_table(cur@, #[trigger] unchanged@[a])
                    && in_entries(prev@, unchanged@[a])
                    && table_fp_of(cur@, unchanged@[a]) == entry_of(
                    prev@,
                    unchanged@[a],
                ).fingerprint,
        decreases cur@.len() - j,
    {
        let t = cur[j].0;
        let fp = cur[j].1;
        match find_entry(prev, t) {
            Option::None => {
                let ghost snap = added@;
                added.push(t);
                proof {
                    assert(in_table(cur@, t)) by {
                        assert(cur@[j as int].0 == t);
                    }
                    assert forall|k: int|
                        0 <= k < j + 1 && !in_entries(prev@, (#[trigger] cur@[k]).0)
                        implies exists|a: int|
                        0 <= a < added@.len() && added@[a] == cur@[k].0 by {
                        if k == j {
                            assert(added@[added@.len() - 1] == cur@[k].0);
                        } else {
                            let a = choose|a: int| 0 <= a < snap.len() && snap[a] == cur@[k].0;
                            assert(added@[a] == cur@[k].0);
                        }
                    }
                }
            },
            Option::Some(k) => {
                proof {
                    lemma_entry_unique(prev@, t, k as int);
                }
                if prev[k].fingerprint == fp {
                    let ghost snap = unchanged@;
                    unchanged.push(t);
                    proof {
                        assert forall|k2: int|
                            0 <= k2 < j + 1 && in_entries(prev@, (#[trigger] cur@[k2]).0)
                                && entry_of(prev@, cur@[k2].0).fingerprint == cur@[k2].1
                            implies exists|a: int|
                            0 <= a < unchanged@.len() && unchanged@[a] == cur@[k2].0 by {
                            if k2 == j {
                                assert(unchanged@[unchanged@.len() - 1] == cur@[k2].0);
                            } else {
                                let a = choose|a: int|
                                    0 <= a < snap.len() && snap[a] == cur@[k2].0;
                                assert(unchanged@[a] == cur@[k2].0);
                            }
                        }
                        lemma_table_unique(cur@, t, j as int);
                        assert(unchanged@[unchanged@.len() - 1] == t);
                    }
                } else {
                    let ghost snap = modified@;
                    modified.push(t);
                    proof {
                        assert forall|k2: int|
                            0 <= k2 < j + 1 && in_entries(prev@, (#[trigger] cur@[k2]).0)
                                && entry_of(prev@, cur@[k2].0).fingerprint != cur@[k2].1
                            implies exists|a: int|
                            0 <= a < modified@.len() && modified@[a] == cur@[k2].0 by {
                            if k2 == j {
                                assert(modified@[modified@.len() - 1] == cur@[k2].0);
                            } else {
                                let a = choose|a: int|
                                    0 <= a < snap.len() && snap[a] == cur@[k2].0;
                                assert(modified@[a] == cur@[k2].0);
                            }
                        }
                        lemma_table_unique(cur@, t, j as int);
                        assert(modified@[modified@.len() - 1] == t);
                    }
                }
            },
        }
        j += 1;
    }
    let mut removed: Vec<Tag> = Vec::new();
    let mut i: usize = 0;
    while i < prev.len()
        invariant
            i <= prev@.len(),
            entries_sorted(prev@),
            table_sorted(cur@),
            tags_sorted(removed@),
            forall|a: int, m: int|
                0 <= a < removed@.len() && i <= m < prev@.len() ==> #[trigger] removed@[a] < (
                #[trigger] prev@[m]).tag,
            forall|a: int|
                0 <= a < removed@.len() ==> in_entries(prev@, #[trigger] removed@[a]) && !in_table(
                    cur@,
                    removed@[a],
                ),
            forall|k: int|
                0 <= k < i && !in_table(cur@, (#[trigger] prev@[k]).tag) ==> exists|a: int|
                    0 <= a < removed@.len() && removed@[a] == prev@[k].tag,
        decreases prev@.len() - i,
    {
        let t = prev[i].tag;
        if !find_in_table(cur, t) {
            let ghost snap = removed@;
            removed.push(t);
            proof {
                assert(in_entries(prev@, t)) by {
                    assert(prev@[i as int].tag == t);
                }
                assert forall|k: int|
                    0 <= k < i + 1 && !in_table(cur@, (#[trigger] prev@[k]).tag)
                    implies exists|a: int|
                    0 <= a < removed@.len() && removed@[a] == prev@[k].tag by {
                    if k == i {
                        assert(removed@[removed@.len() - 1] == prev@[k].tag);
                    } else {
                        let a = choose|a: int| 0 <= a < snap.len() && snap[a] == prev@[k].tag;
                        assert(removed@[a] == prev@[k].tag);
                    }
                }
            }
        }
        i += 1;
    }
    let d = DiffResult { added, removed, modified, unchanged };
    proof {
        assert(tags_sorted(d.added@) && tags_sorted(d.removed@) && tags_sorted(d.modified@)
            && tags_sorted(d.unchanged@));
        assert(diff_post(prev@, cur@, d));
    }
    d
}

/// Idempotence of the diff: where the previous cache and the current
/// table describe the same instances — the same tags, each with an
/// unchanged fingerprint — the diff's Added, Removed and Modified classes
/// are all empty.
pub proof fn lemma_diff_idempotent(
    prev: Seq<CacheEntry>,
    cur: Seq<(Tag, Fingerprint)>,
    d: DiffResult,
)
    requires
        entries_sorted(prev),
        table_sorted(cur),
        diff_post(prev, cur, d),
        forall|t: Tag| in_table(cur, t) <==> in_entries(prev, t),
        forall|k: int|
            0 <= k < cur.len() ==> entry_of(prev, (#[trigger] cur[k]).0).fingerprint == cur[k].1,
    ensures
        d.added@.len() == 0,
        d.removed@.len() == 0,
        d.modified@.len() == 0,
{
    if d.added@.len() > 0 {
        let t = d.added@[0];
        assert(in_table(cur, t) && !in_entries(prev, t));
    }
    if d.removed@.len() > 0 {
        let t = d.removed@[0];
        assert(in_entries(prev, t) && !in_table(cur, t));
    }
    if d.modified@.len() > 0 {
        let t = d.modified@[0];
        assert(in_table(cur, t));
        let k = choose|k: int| 0 <= k < cur.len() && cur[k].0 == t;
        lemma_table_unique(cur, t, k);
        assert(entry_of(prev, cur[k].0).fingerprint == cur[k].1);
        assert(table_fp_of(cur, t) != entry_of(prev, t).fingerprint);
    }
}

/// How many current tags need a fresh slot: those among the first `n`
/// table entries with no retained entry.
pub open spec fn count_new_prefix(prev: Seq<CacheEntry>, cur: Seq<(Tag, Fingerprint)>, n: int)
    -> int
    decreases n,
{
    if n <= 0 {
        0
    } else {
        count_new_prefix(prev, cur, n - 1) + if !in_entries(prev, cur[n - 1].0) {
            1int
        } else {
            0int
        }
    }
}

/// How many retained tags vanished: those among the first `n` entries
/// absent from the current table.
pub open spec fn count_gone_prefix(prev: Seq<CacheEntry>, cur: Seq<(Tag, Fingerprint)>, n: int)
    -> int
    decreases n,
{
    if n <= 0 {
        0
    } else {
        count_gone_prefix(prev, cur, n - 1) + if !in_table(cur, prev[n - 1].tag) {
            1int
        } else {
            0int
        }
    }
}

/// The slots freed by the first `n` retained entries: those of every
/// entry whose tag the current table drops, in entry order.
pub open spec fn spec_freed(prev: Seq<CacheEntry>, cur: Seq<(Tag, Fingerprint)>, n: int)
    -> Seq<u32>
    decreases n,
{
    if n <= 0 {
        Seq::empty()
    } else {
        let rest = spec_freed(prev, cur, n - 1);
        if !in_table(cur, prev[n - 1].tag) {
            rest.push(prev[n - 1].slot)
        } else {
            rest
        }
    }
}

/// The reusable slots a frame starts with: the old free list, then the
/// slots its removed tags hand back, in that order — the free list.
pub open spec fn spec_reusable(c: FrameCache, cur: Seq<(Tag, Fingerprint)>) -> Seq<u32> {
    c.free@ + spec_freed(c.entries@, cur, c.entries@.len() as int)
}

/// The slot the `a`-th added tag receives: the `a`-th reusable slot,
/// first-fit from the front of the free list; only once those run out,
/// the next slot past the old high-water mark.
pub open spec fn spec_slot_for(reusable: Seq<u32>, cap0: int, a: int) -> int {
    if a < reusable.len() {
        reusable[a] as int
    } else {
        cap0 + (a - reusable.len())
    }
}

/// The new-tag count of a prefix lies between zero and the prefix length.
pub proof fn lemma_count_new_nonneg(prev: Seq<CacheEntry>, cur: Seq<(Tag, Fingerprint)>, n: int)
    requires
        n >= 0,
    ensures
        0 <= count_new_prefix(prev, cur, n) <= n,
    decreases n,
{
    if n > 0 {
        lemma_count_new_nonneg(prev, cur, n - 1);
    }
}

/// The new-tag count grows with the prefix.
pub proof fn lemma_count_new_monotone(
    prev: Seq<CacheEntry>,
    cur: Seq<(Tag, Fingerprint)>,
    a: int,
    b: int,
)
    requires
        0 <= a <= b,
    ensures
        count_new_prefix(prev, cur, a) <= count_new_prefix(prev, cur, b),
    decreases b - a,
{
    if a < b {
        lemma_count_new_monotone(prev, cur, a, b - 1);
    }
}

/// The retained table of one frame boundary: each live tag's fingerprint
/// and buffer slot, the free slots, and the slot high-water mark against
/// its limit. Replaced wholesale by [`FrameCache::apply`] at the end of
/// each frame; the previous table is dropped only after the new one is
/// complete.
#[derive(Clone, PartialEq, Eq, Debug)]
pub struct FrameCache {
    /// Live entries, in strictly ascending tag order.
    pub entries: Vec<CacheEntry>,
    /// Freed slots, reusable first-fit: the front of the list first.
    pub free: Vec<u32>,
    /// Slots handed out so far; slot numbers below this are in use or free.
    pub capacity: u32,
    /// The buffer's slot capacity; beyond it the buffer owner must grow.
    pub limit: u32,
}

/// Slots that can still satisfy an added tag: the free list, the slots of
/// entries the current table drops, and the unreached part of the limit.
pub open spec fn spec_available(c: FrameCache, cur: Seq<(Tag, Fingerprint)>) -> int {
    c.free@.len() + count_gone_prefix(c.entries@, cur, c.entries@.len() as int) + c.limit
        - c.capacity
}

/// A capacity-growth request: the buffer cannot seat this added tag.
#[derive(Clone, Copy, PartialEq, Eq, Structural, Debug)]
pub struct CapacityRequest {
    /// The added tag that found no slot.
    pub tag: Tag,
}

impl FrameCache {
    /// Entries sorted, every slot below the high-water mark, no slot both
    /// used and free, no slot used or free twice, the mark within the
    /// limit.
    pub open spec fn wf(self) -> bool {
        &&& entries_sorted(self.entries@)
        &&& forall|a: int, b: int|
            0 <= a < b < self.entries@.len() ==> (#[trigger] self.entries@[a]).slot != (
            #[trigger] self.entries@[b]).slot
        &&& forall|a: int| 0 <= a < self.entries@.len() ==> (#[trigger] self.entries@[a]).slot
            < self.capacity
        &&& forall|f: int, a: int|
            0 <= f < self.free@.len() && 0 <= a < self.entries@.len() ==> #[trigger] self.free@[f]
                != (#[trigger] self.entries@[a]).slot
        &&& forall|f: int, g: int|
            0 <= f < g < self.free@.len() ==> self.free@[f] != self.free@[g]
        &&& forall|f: int| 0 <= f < self.free@.len() ==> #[trigger] self.free@[f] < self.capacity
        &&& self.capacity <= self.limit
    }

    /// An empty cache for a buffer of `limit` slots.
    pub fn new(limit: u32) -> (r: FrameCache)
        ensures
            r.wf(),
            r.entries@.len() == 0,
            r.free@.len() == 0,
            r.capacity == 0,
            r.limit == limit,
    {
        FrameCache { entries: Vec::new(), free: Vec::new(), capacity: 0, limit }
    }

    /// Build the next frame's cache from this one and the current table.
    /// Kept tags keep their slot; removed tags free theirs first; added
    /// tags then draw from the front of the free list before any slot
    /// beyond the high-water mark is touched, so the buffer grows only
    /// when nothing reusable is left. `Ok` exactly where the added tags
    /// fit into the freed and unreached slots.
    #[verifier::rlimit(100)]
    pub fn apply(&self, cur: &Vec<(Tag, Fingerprint)>) -> (r: Result<
        FrameCache,
        CapacityRequest,
    >)
        requires
            self.wf(),
            table_sorted(cur@),
        ensures
            r matches Ok(next) ==> {
                &&& next.wf()
                &&& next.limit == self.limit
                &&& next.entries@.len() == cur@.len()
                &&& forall|a: int|
                    0 <= a < cur@.len() ==> (#[trigger] next.entries@[a]).tag == cur@[a].0
                        && next.entries@[a].fingerprint == cur@[a].1
                &&& forall|a: int|
                    0 <= a < cur@.len() && in_entries(self.entries@, (#[trigger] cur@[a]).0)
                        ==> next.entries@[a].slot == entry_of(self.entries@, cur@[a].0).slot
                &&& forall|a: int|
                    0 <= a < cur@.len() && !in_entries(self.entries@, (#[trigger] cur@[a]).0)
                        ==> next.entries@[a].slot == spec_slot_for(
                        spec_reusable(*self, cur@),
                        self.capacity as int,
                        count_new_prefix(self.entries@, cur@, a),
                    )
                &&& next.capacity == ({
                    let cnf = count_new_prefix(self.entries@, cur@, cur@.len() as int);
                    let reusable = spec_reusable(*self, cur@);
                    if cnf <= reusable.len() {
                        self.capacity as int
                    } else {
                        self.capacity + cnf - reusable.len()
                    }
                })
                &&& next.free@ == ({
                    let cnf = count_new_prefix(self.entries@, cur@, cur@.len() as int);
                    let reusable = spec_reusable(*self, cur@);
                    if cnf <= reusable.len() {
                        reusable.skip(cnf)
                    } else {
                        Seq::<u32>::empty()
                    }
                })
            },
            r is Ok <==> count_new_prefix(self.entries@, cur@, cur@.len() as int)
                <= spec_available(*self, cur@),
            r matches Err(e) ==> in_table(cur@, e.tag) && !in_entries(self.entries@, e.tag),
    {
        let prev = &self.entries;
        let n = prev.len();
        let mut free: Vec<u32> = self.free.clone();
        proof {
            assert(free@ == self.free@);
        }
        let mut i: usize = 0;
        while i < n
            invariant
                i <= n,
                n == prev@.len(),
                self.wf(),
                prev@ == self.entries@,
                table_sorted(cur@),
                free@.len() == self.free@.len() + count_gone_prefix(prev@, cur@, i as int),
                free@ == self.free@ + spec_freed(prev@, cur@, i as int),
                forall|f: int| 0 <= f < free@.len() ==> #[trigger] free@[f] < self.capacity,
                forall|f: int, m: int|
                    0 <= f < free@.len() && i <= m < n ==> #[trigger] free@[f] != (
                    #[trigger] prev@[m]).slot,
                forall|f: int, k: int|
                    0 <= f < free@.len() && 0 <= k < n && in_table(cur@, (#[trigger] prev@[k]).tag)
                        ==> #[trigger] free@[f] != prev@[k].slot,
                forall|f: int, g: int| 0 <= f < g < free@.len() ==> free@[f] != free@[g],
            decreases n - i,
        {
            let ghost fsnap = free@;
            if !find_in_table(cur, prev[i].tag) {
                free.push(prev[i].slot);
                proof {
                    assert(free@ =~= self.free@ + spec_freed(prev@, cur@, i + 1));
                }
            } else {
                proof {
                    assert(free@ =~= self.free@ + spec_freed(prev@, cur@, i + 1));
                }
            }
            i += 1;
        }
        let ghost avail0 = free@.len() + self.limit - self.capacity;
        let ghost reusable = free@;
        proof {
            assert(avail0 == spec_available(*self, cur@));
            assert(reusable == spec_reusable(*self, cur@));
        }
        let mut out: Vec<CacheEntry> = Vec::new();
        let mut capacity = self.capacity;
        let mut j: usize = 0;
        while j < cur.len()
            invariant
                j <= cur@.len(),
                n == prev@.len(),
                self.wf(),
                prev@ == self.entries@,
                table_sorted(cur@),
                avail0 == spec_available(*self, cur@),
                reusable == spec_reusable(*self, cur@),
                count_new_prefix(prev@, cur@, j as int) <= reusable.len() ==> free@
                    == reusable.skip(count_new_prefix(prev@, cur@, j as int)) && capacity
                    == self.capacity,
                count_new_prefix(prev@, cur@, j as int) > reusable.len() ==> free@.len() == 0
                    && capacity == self.capacity + (count_new_prefix(prev@, cur@, j as int)
                    - reusable.len()),
                forall|a: int|
                    0 <= a < j && !in_entries(prev@, (#[trigger] cur@[a]).0) ==> out@[a].slot
                        == spec_slot_for(
                        reusable,
                        self.capacity as int,
                        count_new_prefix(prev@, cur@, a),
                    ),
                out@.len() == j,
                self.capacity <= capacity <= self.limit,
                forall|a: int|
                    0 <= a < j ==> (#[trigger] out@[a]).tag == cur@[a].0 && out@[a].fingerprint
                        == cur@[a].1,
                forall|a: int|
                    0 <= a < j && in_entries(prev@, (#[trigger] cur@[a]).0) ==> out@[a].slot
                        == entry_of(prev@, cur@[a].0).slot,
                free@.len() + self.limit - capacity == avail0 - count_new_prefix(
                    prev@,
                    cur@,
                    j as int,
                ),
                forall|f: int| 0 <= f < free@.len() ==> #[trigger] free@[f] < capacity,
                forall|f: int, k: int|
                    0 <= f < free@.len() && 0 <= k < n && in_table(cur@, (#[trigger] prev@[k]).tag)
                        ==> #[trigger] free@[f] != prev@[k].slot,
                forall|f: int, g: int| 0 <= f < g < free@.len() ==> free@[f] != free@[g],
                forall|a: int, b: int|
                    0 <= a < b < j ==> (#[trigger] out@[a]).slot != (#[trigger] out@[b]).slot,
                forall|a: int| 0 <= a < j ==> (#[trigger] out@[a]).slot < capacity,
                forall|a: int, k: int|
                    0 <= a < j && 0 <= k < n && (#[trigger] out@[a]).tag != (
                    #[trigger] prev@[k]).tag && in_table(cur@, prev@[k].tag) ==> out@[a].slot
                        != prev@[k].slot,
                forall|f: int, a: int|
                    0 <= f < free@.len() && 0 <= a < j ==> #[trigger] free@[f] != (
                    #[trigger] out@[a]).slot,
            decreases cur@.len() - j,
        {
            let t = cur[j].0;
            let fp = cur[j].1;
            match find_entry(prev, t) {
                Option::Some(k) => {
                    proof {
                        lemma_entry_unique(prev@, t, k as int);
                        lemma_table_unique(cur@, t, j as int);
                        assert forall|a: int| 0 <= a < j implies (#[trigger] out@[a]).slot
                            != prev@[k as int].slot by {
                            assert(out@[a].tag == cur@[a].0);
                            assert(cur@[a].0 < cur@[j as int].0);
                        }
                    }
                    out.push(CacheEntry { tag: t, fingerprint: fp, slot: prev[k].slot });
                    proof {
                        assert(count_new_prefix(prev@, cur@, j + 1) == count_new_prefix(
                            prev@,
                            cur@,
                            j as int,
                        ));
                    }
                },
                Option::None => {
                    let ghost cn = count_new_prefix(prev@, cur@, j as int);
                    proof {
                        lemma_count_new_nonneg(prev@, cur@, j as int);
                        assert(count_new_prefix(prev@, cur@, j + 1) == cn + 1);
                    }
                    if free.len() > 0 {
                        proof {
                            assert(cn <= reusable.len());
                            assert(free@ == reusable.skip(cn));
                            assert(cn < reusable.len());
                            vstd::seq_lib::lemma_seq_skip_index(reusable, cn, 0);
                        }
                        let ghost before = free@;
                        let s = free.remove(0);
                        proof {
                            before.remove_ensures(0);
                            assert(free@ == before.remove(0));
                            assert(free@.len() == before.len() - 1);
                            assert(reusable.skip(cn).len() == reusable.len() - cn);
                            assert(before.len() == reusable.len() - cn);
                            assert(reusable.skip(cn + 1).len() == reusable.len() - cn - 1);
                            assert forall|x: int| 0 <= x < free@.len() implies free@[x]
                                == reusable.skip(cn + 1)[x] by {
                                assert(before.remove(0)[x] == before[x + 1]);
                                vstd::seq_lib::lemma_seq_skip_index(reusable, cn, x + 1);
                                assert(reusable.skip(cn)[x + 1] == reusable[x + 1 + cn]);
                                assert(before[x + 1] == reusable[x + 1 + cn]);
                                vstd::seq_lib::lemma_seq_skip_index(reusable, cn + 1, x);
                                assert(reusable.skip(cn + 1)[x] == reusable[x + (cn + 1)]);
                            }
                            assert(free@ =~= reusable.skip(cn + 1));
                            assert(s == spec_slot_for(reusable, self.capacity as int, cn));
                        }
                        out.push(CacheEntry { tag: t, fingerprint: fp, slot: s });
                    } else if capacity < self.limit {
                        proof {
                            if cn <= reusable.len() {
                                assert(free@ == reusable.skip(cn));
                                assert(reusable.skip(cn).len() == reusable.len() - cn);
                                assert(cn == reusable.len());
                            }
                            assert(capacity == spec_slot_for(reusable, self.capacity as int, cn));
                        }
                        let s = capacity;
                        capacity = capacity + 1;
                        out.push(CacheEntry { tag: t, fingerprint: fp, slot: s });
                        proof {
                            assert(cn + 1 > reusable.len());
                        }
                    } else {
                        proof {
                            assert(count_new_prefix(prev@, cur@, j + 1) == avail0 + 1);
                            lemma_count_new_monotone(prev@, cur@, j + 1, cur@.len() as int);
                            assert(in_table(cur@, t)) by {
                                assert(cur@[j as int].0 == t);
                            }
                        }
                        return Err(CapacityRequest { tag: t });
                    }
                },
            }
            j += 1;
        }
        let next = FrameCache { entries: out, free, capacity, limit: self.limit };
        Ok(next)
    }
}

} // verus!
