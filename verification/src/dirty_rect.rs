//! Dirty-region tracking: the bounding boxes of the frame's Added and
//! Modified instances, merged into a covering set of pairwise
//! non-touching rectangles. The external renderer scopes its partial
//! redraw and composite work to these regions.

use vstd::prelude::*;
use crate::geom::Rect;

verus! {

/// The first index at or after `i` whose box touches `b`, or the list's
/// length where none does.
pub open spec fn spec_first_touch(v: Seq<Rect>, b: Rect, i: int) -> int
    decreases v.len() - i,
{
    if i < 0 || i >= v.len() {
        v.len() as int
    } else if v[i].spec_touches(b) {
        i
    } else {
        spec_first_touch(v, b, i + 1)
    }
}

/// One box folded into a list of pairwise non-touching boxes: while some
/// box touches it, that box is absorbed into the bounding union; when
/// nothing touches any more, the grown box joins the list.
pub open spec fn spec_absorb(v: Seq<Rect>, b: Rect) -> Seq<Rect>
    decreases v.len() via spec_absorb_decreases
{
    let i = spec_first_touch(v, b, 0);
    if i >= v.len() {
        v.push(b)
    } else {
        spec_absorb(v.remove(i), v[i].spec_union(b))
    }
}

/// The scan lands inside the list or just past it.
pub proof fn lemma_first_touch_range(v: Seq<Rect>, b: Rect, i: int)
    requires
        0 <= i <= v.len(),
    ensures
        i <= spec_first_touch(v, b, i) <= v.len(),
    decreases v.len() - i,
{
    if i < v.len() && !v[i].spec_touches(b) {
        lemma_first_touch_range(v, b, i + 1);
    }
}

#[via_fn]
proof fn spec_absorb_decreases(v: Seq<Rect>, b: Rect) {
    let i = spec_first_touch(v, b, 0);
    if i < v.len() {
        lemma_first_touch_range(v, b, 0);
        v.remove_ensures(i);
    }
}

/// The merged regions of the first `n` input boxes.
pub open spec fn spec_merge_regions_prefix(boxes: Seq<Rect>, n: int) -> Seq<Rect>
    decreases n,
{
    if n <= 0 {
        Seq::empty()
    } else {
        spec_absorb(spec_merge_regions_prefix(boxes, n - 1), boxes[n - 1])
    }
}

/// What `merge_regions` computes: the whole fold.
pub open spec fn spec_merge_regions(boxes: Seq<Rect>) -> Seq<Rect> {
    spec_merge_regions_prefix(boxes, boxes.len() as int)
}

/// Every box of the list is well-formed.
pub open spec fn all_rects_wf(v: Seq<Rect>) -> bool {
    forall|i: int| 0 <= i < v.len() ==> (#[trigger] v[i]).wf()
}

/// No two boxes of the list touch.
pub open spec fn pairwise_disjoint(v: Seq<Rect>) -> bool {
    forall|i: int, j: int|
        0 <= i < j < v.len() ==> !(#[trigger] v[i]).spec_touches(#[trigger] v[j])
}

/// The first index at or after `from` whose box touches `b`.
fn find_touch(v: &Vec<Rect>, b: &Rect, from: usize) -> (r: usize)
    requires
        from <= v@.len(),
    ensures
        r == spec_first_touch(v@, *b, from as int),
        r <= v@.len(),
        r < v@.len() ==> v@[r as int].spec_touches(*b),
{
    let mut k = from;
    while k < v.len()
        invariant
            from <= k <= v@.len(),
            spec_first_touch(v@, *b, from as int) == spec_first_touch(v@, *b, k as int),
        decreases v@.len() - k,
    {
        if v[k].touches(b) {
            return k;
        }
        k += 1;
    }
    k
}

/// Fold one box into the pairwise non-touching regions.
fn absorb(v: &mut Vec<Rect>, b: Rect)
    requires
        all_rects_wf(old(v)@),
        b.wf(),
    ensures
        final(v)@ == spec_absorb(old(v)@, b),
        all_rects_wf(final(v)@),
{
    let mut cur = b;
    loop
        invariant_except_break
            all_rects_wf(v@),
            cur.wf(),
            spec_absorb(old(v)@, b) == spec_absorb(v@, cur),
        ensures
            v@ == spec_absorb(old(v)@, b),
            all_rects_wf(v@),
        decreases v@.len(),
    {
        let i = find_touch(v, &cur, 0);
        if i >= v.len() {
            let ghost before = v@;
            v.push(cur);
            proof {
                assert(spec_absorb(before, cur) == before.push(cur));
            }
            break;
        }
        let ghost before = v@;
        let hit = v.remove(i);
        proof {
            before.remove_ensures(i as int);
            assert(all_rects_wf(v@));
        }
        let grown = hit.union(&cur);
        proof {
            assert(spec_absorb(before, cur) == spec_absorb(
                before.remove(i as int),
                before[i as int].spec_union(cur),
            ));
        }
        cur = grown;
    }
}

/// Merge the dirty boxes of a frame into a covering set of pairwise
/// non-touching regions: every input box lies inside one of the merged
/// regions, and no two merged regions touch, so the renderer revisits
/// each screen area at most once.
pub fn merge_regions(boxes: &Vec<Rect>) -> (r: Vec<Rect>)
    requires
        all_rects_wf(boxes@),
    ensures
        r@ == spec_merge_regions(boxes@),
        all_rects_wf(r@),
{
    let mut out: Vec<Rect> = Vec::new();
    let mut j: usize = 0;
    while j < boxes.len()
        invariant
            j <= boxes@.len(),
            all_rects_wf(boxes@),
            all_rects_wf(out@),
            out@ == spec_merge_regions_prefix(boxes@, j as int),
        decreases boxes@.len() - j,
    {
        absorb(&mut out, boxes[j]);
        j += 1;
    }
    out
}

/// The merged regions never touch one another: what `spec_absorb` adds is
/// grown until nothing touches it, and everything it touched was absorbed.
pub proof fn lemma_absorb_disjoint(v: Seq<Rect>, b: Rect)
    requires
        pairwise_disjoint(v),
    ensures
        pairwise_disjoint(spec_absorb(v, b)),
    decreases v.len(),
{
    let i = spec_first_touch(v, b, 0);
    if i >= v.len() {
        lemma_first_touch_none(v, b, 0);
        assert forall|x: int, y: int|
            0 <= x < y < spec_absorb(v, b).len() implies !(#[trigger] spec_absorb(v, b)[x])
            .spec_touches(#[trigger] spec_absorb(v, b)[y]) by {
            if y == v.len() {
                assert(!v[x].spec_touches(b));
                assert(spec_absorb(v, b)[y] == b);
            }
        }
    } else {
        lemma_first_touch_range(v, b, 0);
        v.remove_ensures(i);
        assert(pairwise_disjoint(v.remove(i)));
        lemma_absorb_disjoint(v.remove(i), v[i].spec_union(b));
    }
}

/// Where the scan found nothing from `i` on, nothing from `i` on touches.
pub proof fn lemma_first_touch_none(v: Seq<Rect>, b: Rect, i: int)
    requires
        0 <= i,
        spec_first_touch(v, b, i) >= v.len(),
    ensures
        forall|k: int| i <= k < v.len() ==> !(#[trigger] v[k]).spec_touches(b),
    decreases v.len() - i,
{
    if i < v.len() {
        lemma_first_touch_none(v, b, i + 1);
    }
}

/// The merged regions of any frame are pairwise non-touching.
pub proof fn lemma_merge_regions_disjoint(boxes: Seq<Rect>, n: int)
    requires
        n <= boxes.len(),
    ensures
        pairwise_disjoint(spec_merge_regions_prefix(boxes, n)),
    decreases n,
{
    if n <= 0 {
    } else {
        lemma_merge_regions_disjoint(boxes, n - 1);
        lemma_absorb_disjoint(spec_merge_regions_prefix(boxes, n - 1), boxes[n - 1]);
    }
}

/// Every box handed to `spec_absorb` ends up inside one of its regions,
/// and so does the absorbed box itself.
pub proof fn lemma_absorb_covers(v: Seq<Rect>, b: Rect)
    ensures
        exists|i: int|
            0 <= i < spec_absorb(v, b).len() && b.contained_in(
                #[trigger] spec_absorb(v, b)[i],
            ),
        forall|k: int|
            0 <= k < v.len() ==> exists|i: int|
                0 <= i < spec_absorb(v, b).len() && (#[trigger] v[k]).contained_in(
                    #[trigger] spec_absorb(v, b)[i],
                ),
    decreases v.len(),
{
    let ft = spec_first_touch(v, b, 0);
    let r = spec_absorb(v, b);
    if ft >= v.len() {
        assert(r == v.push(b));
        assert(b.contained_in(r[r.len() - 1]));
        assert forall|k: int| 0 <= k < v.len() implies exists|i: int|
            0 <= i < r.len() && (#[trigger] v[k]).contained_in(#[trigger] r[i]) by {
            assert(v[k].contained_in(r[k]));
        }
    } else {
        lemma_first_touch_range(v, b, 0);
        v.remove_ensures(ft);
        let rest = v.remove(ft);
        let grown = v[ft].spec_union(b);
        lemma_absorb_covers(rest, grown);
        let gi = choose|i: int|
            0 <= i < spec_absorb(rest, grown).len() && grown.contained_in(
                #[trigger] spec_absorb(rest, grown)[i],
            );
        assert(b.contained_in(grown));
        assert(b.contained_in(r[gi]));
        assert forall|k: int| 0 <= k < v.len() implies exists|i: int|
            0 <= i < r.len() && (#[trigger] v[k]).contained_in(#[trigger] r[i]) by {
            if k == ft {
                assert(v[k].contained_in(grown));
                assert(v[k].contained_in(r[gi]));
            } else {
                let k2: int = if k < ft {
                    k
                } else {
                    k - 1
                };
                assert(rest[k2] == v[k]);
                let i = choose|i: int|
                    0 <= i < spec_absorb(rest, grown).len() && (#[trigger] rest[k2]).contained_in(
                        spec_absorb(rest, grown)[i],
                    );
                assert(v[k].contained_in(r[i]));
            }
        }
    }
}

/// Coverage: every input box of a frame lies inside one of its merged
/// regions.
pub proof fn lemma_merge_regions_cover(boxes: Seq<Rect>, n: int)
    requires
        n <= boxes.len(),
    ensures
        forall|k: int|
            0 <= k < n ==> exists|i: int|
                0 <= i < spec_merge_regions_prefix(boxes, n).len() && (
                #[trigger] boxes[k]).contained_in(
                    #[trigger] spec_merge_regions_prefix(boxes, n)[i],
                ),
    decreases n,
{
    if n > 0 {
        lemma_merge_regions_cover(boxes, n - 1);
        let prev = spec_merge_regions_prefix(boxes, n - 1);
        let r = spec_merge_regions_prefix(boxes, n);
        lemma_absorb_covers(prev, boxes[n - 1]);
        assert forall|k: int| 0 <= k < n implies exists|i: int|
            0 <= i < r.len() && (#[trigger] boxes[k]).contained_in(#[trigger] r[i]) by {
            if k == n - 1 {
                let i = choose|i: int|
                    0 <= i < r.len() && boxes[n - 1].contained_in(#[trigger] r[i]);
                assert(boxes[k].contained_in(r[i]));
            } else {
                let p = choose|i: int|
                    0 <= i < prev.len() && (#[trigger] boxes[k]).contained_in(prev[i]);
                let i = choose|i: int|
                    0 <= i < r.len() && (#[trigger] prev[p]).contained_in(r[i]);
                assert(boxes[k].contained_in(r[i]));
            }
        }
    }
}

} // verus!
