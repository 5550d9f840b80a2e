//! The batch coalescer: the frame's changed instances turned into minimal
//! contiguous buffer writes and minimal draw batches. Affected offsets are
//! sorted, then ranges closer than a gap threshold merge into one write —
//! a few redundant bytes rewritten for far fewer write calls. Draw batches
//! group consecutive instances sharing primitive and material, never
//! reordering across paint order, so merging cannot change what overlaps
//! what.

use vstd::prelude::*;

verus! {

/// One contiguous buffer write: a destination offset and a byte length.
#[derive(Clone, Copy, PartialEq, Eq, Structural, Debug)]
pub struct BufferWrite {
    /// Destination offset in bytes.
    pub offset: u64,
    /// Length in bytes.
    pub len: u64,
}

/// Ascending (non-strict) order.
pub open spec fn offsets_sorted(s: Seq<u64>) -> bool {
    forall|i: int, j: int| 0 <= i < j < s.len() ==> s[i] <= s[j]
}

/// Sort the affected offsets ascending. The result holds exactly the
/// input offsets, multiplicity included.
pub fn sort_offsets(v: Vec<u64>) -> (r: Vec<u64>)
    ensures
        offsets_sorted(r@),
        r@.to_multiset() == v@.to_multiset(),
{
    broadcast use vstd::seq_lib::group_to_multiset_ensures;

    let mut rest = v;
    let mut out: Vec<u64> = Vec::new();
    while rest.len() > 0
        invariant
            offsets_sorted(out@),
            forall|a: int, b: int|
                0 <= a < out@.len() && 0 <= b < rest@.len() ==> #[trigger] out@[a]
                    <= #[trigger] rest@[b],
            out@.to_multiset().add(rest@.to_multiset()) =~= v@.to_multiset(),
        decreases rest@.len(),
    {
        let mut m: usize = 0;
        let mut k: usize = 1;
        while k < rest.len()
            invariant
                m < k <= rest@.len(),
                rest@.len() > 0,
                forall|b: int| 0 <= b < k ==> rest@[m as int] <= #[trigger] rest@[b],
            decreases rest@.len() - k,
        {
            if rest[k] < rest[m] {
                m = k;
            }
            k += 1;
        }
        let ghost old_rest = rest@;
        let ghost old_out = out@;
        let x = rest.remove(m);
        out.push(x);
        proof {
            old_out.to_multiset_ensures();
            old_rest.to_multiset_ensures();
            assert(out@ == old_out.push(x));
            assert(rest@ == old_rest.remove(m as int));
            assert(out@.to_multiset() =~= old_out.to_multiset().insert(x));
            assert(rest@.to_multiset() =~= old_rest.to_multiset().remove(x));
            assert(old_rest.to_multiset().count(x) > 0) by {
                assert(old_rest[m as int] == x);
                assert(old_rest.contains(x));
            }
            assert(out@.to_multiset().add(rest@.to_multiset()) =~= v@.to_multiset());
            assert(forall|b: int|
                0 <= b < rest@.len() ==> #[trigger] rest@[b] == old_rest[
                    if b < m { b } else { b + 1 }
                ]);
        }
    }
    proof {
        assert(out@.to_multiset() =~= v@.to_multiset());
    }
    out
}

/// The writes of the first `n` sorted offsets, folded left: an offset
/// within merging reach (the gap threshold) of the last write extends it
/// to the new instance's end; any other offset starts a new write of one
/// instance. The result is ascending, disjoint, minimal and deterministic.
pub open spec fn spec_merge_prefix(s: Seq<u64>, stride: u64, gap: u64, n: int)
    -> Seq<BufferWrite>
    decreases n,
{
    if n <= 0 {
        Seq::empty()
    } else {
        let rest = spec_merge_prefix(s, stride, gap, n - 1);
        let o = s[n - 1];
        if rest.len() == 0 {
            rest.push(BufferWrite { offset: o, len: stride })
        } else {
            let lastw = rest.last();
            if o <= lastw.offset + lastw.len + gap {
                rest.update(
                    rest.len() - 1,
                    BufferWrite { offset: lastw.offset, len: (o + stride - lastw.offset) as u64 },
                )
            } else {
                rest.push(BufferWrite { offset: o, len: stride })
            }
        }
    }
}

/// What `coalesce_writes` computes: the whole fold.
pub open spec fn spec_merge(s: Seq<u64>, stride: u64, gap: u64) -> Seq<BufferWrite> {
    spec_merge_prefix(s, stride, gap, s.len() as int)
}

/// Merge the sorted affected offsets into minimal contiguous writes: one
/// instance of `stride` bytes sits at each offset, and runs whose gaps do
/// not exceed `gap` bytes collapse into one write each.
pub fn coalesce_writes(offsets: &Vec<u64>, stride: u64, gap: u64) -> (r: Vec<BufferWrite>)
    requires
        offsets_sorted(offsets@),
        stride > 0,
        forall|k: int|
            0 <= k < offsets@.len() ==> (#[trigger] offsets@[k]) + stride + gap + 1 <= u64::MAX,
    ensures
        r@ == spec_merge(offsets@, stride, gap),
{
    let mut out: Vec<BufferWrite> = Vec::new();
    let mut j: usize = 0;
    while j < offsets.len()
        invariant
            j <= offsets@.len(),
            offsets_sorted(offsets@),
            stride > 0,
            forall|k: int|
                0 <= k < offsets@.len() ==> (#[trigger] offsets@[k]) + stride + gap + 1
                    <= u64::MAX,
            out@ == spec_merge_prefix(offsets@, stride, gap, j as int),
            j > 0 ==> out@.len() > 0 && out@.last().offset <= offsets@[j - 1]
                && out@.last().offset + out@.last().len == offsets@[j - 1] + stride,
        decreases offsets@.len() - j,
    {
        let o = offsets[j];
        let ghost old_out = out@;
        if out.len() > 0 {
            let lastw = out[out.len() - 1];
            proof {
                assert(offsets@[j - 1] <= o);
            }
            if o as u128 <= lastw.offset as u128 + lastw.len as u128 + gap as u128 {
                let newlen = o + stride - lastw.offset;
                let li = out.len() - 1;
                out[li].len = newlen;
                proof {
                    assert(out@ =~= old_out.update(
                        old_out.len() - 1,
                        BufferWrite { offset: lastw.offset, len: newlen },
                    ));
                }
            } else {
                out.push(BufferWrite { offset: o, len: stride });
            }
        } else {
            out.push(BufferWrite { offset: o, len: stride });
        }
        j += 1;
    }
    out
}

/// The six visual primitive kinds, all signed-distance-field based.
#[derive(Clone, Copy, PartialEq, Eq, Structural, Debug)]
pub enum PrimitiveKind {
    /// Rounded rectangle.
    RoundedRect,
    /// Circle.
    Circle,
    /// Line.
    Line,
    /// Arc.
    Arc,
    /// Path.
    Path,
    /// Text.
    Text,
}

/// One instance to draw, in paint order.
#[derive(Clone, Copy, PartialEq, Eq, Structural, Debug)]
pub struct DrawItem {
    /// Primitive kind.
    pub primitive: PrimitiveKind,
    /// Material or texture key.
    pub material: u32,
    /// The instance's buffer slot.
    pub slot: u32,
}

/// One instanced draw call: a consecutive run of the paint-ordered items.
#[derive(Clone, Copy, PartialEq, Eq, Structural, Debug)]
pub struct DrawBatch {
    /// Primitive kind shared by the run.
    pub primitive: PrimitiveKind,
    /// Material key shared by the run.
    pub material: u32,
    /// Index of the run's first item in the paint-ordered list.
    pub start: usize,
    /// How many consecutive items the run covers.
    pub count: usize,
}

/// What the batches of a frame must look like: consecutive non-empty runs
/// partitioning the paint-ordered items in order, each run uniform in
/// primitive and material, and each boundary a real state change — no two
/// neighbouring batches could merge.
pub open spec fn batches_post(items: Seq<DrawItem>, r: Seq<DrawBatch>) -> bool {
    &&& forall|i: int| 0 <= i < r.len() ==> (#[trigger] r[i]).count > 0
    &&& r.len() > 0 ==> r[0].start == 0
    &&& forall|i: int|
        0 < i < r.len() ==> (#[trigger] r[i]).start == r[i - 1].start + r[i - 1].count
    &&& r.len() > 0 ==> r.last().start + r.last().count == items.len()
    &&& items.len() == 0 ==> r.len() == 0
    &&& forall|i: int, k: int|
        0 <= i < r.len() && (#[trigger] r[i]).start <= k < r[i].start + r[i].count
            ==> (#[trigger] items[k]).primitive == r[i].primitive && items[k].material
            == r[i].material
    &&& forall|i: int|
        0 < i < r.len() ==> !((#[trigger] items[r[i].start as int]).primitive == r[i - 1].primitive
            && items[r[i].start as int].material == r[i - 1].material)
}

/// Group the paint-ordered items into minimal instanced draw batches:
/// consecutive items sharing primitive and material fold into one batch,
/// and paint order is never reordered.
#[verifier::rlimit(100)]
pub fn coalesce_batches(items: &Vec<DrawItem>) -> (r: Vec<DrawBatch>)
    ensures
        batches_post(items@, r@),
{
    let mut out: Vec<DrawBatch> = Vec::new();
    let mut j: usize = 0;
    while j < items.len()
        invariant
            j <= items@.len(),
            forall|i: int| 0 <= i < out@.len() ==> (#[trigger] out@[i]).count > 0,
            out@.len() > 0 ==> out@[0].start == 0,
            forall|i: int|
                0 < i < out@.len() ==> (#[trigger] out@[i]).start == out@[i - 1].start + out@[i
                    - 1].count,
            out@.len() > 0 ==> out@.last().start + out@.last().count == j,
            j == 0 ==> out@.len() == 0,
            j > 0 ==> out@.len() > 0,
            forall|i: int, k: int|
                0 <= i < out@.len() && (#[trigger] out@[i]).start <= k < out@[i].start
                    + out@[i].count ==> (#[trigger] items@[k]).primitive == out@[i].primitive
                    && items@[k].material == out@[i].material,
            forall|i: int|
                0 < i < out@.len() ==> !((#[trigger] items@[out@[i].start as int]).primitive == out@[i
                    - 1].primitive && items@[out@[i].start as int].material == out@[i - 1].material),
        decreases items@.len() - j,
    {
        let it = items[j];
        let mut extended = false;
        if out.len() > 0 {
            let li = out.len() - 1;
            let same_prim = match (out[li].primitive, it.primitive) {
                (PrimitiveKind::RoundedRect, PrimitiveKind::RoundedRect) => true,
                (PrimitiveKind::Circle, PrimitiveKind::Circle) => true,
                (PrimitiveKind::Line, PrimitiveKind::Line) => true,
                (PrimitiveKind::Arc, PrimitiveKind::Arc) => true,
                (PrimitiveKind::Path, PrimitiveKind::Path) => true,
                (PrimitiveKind::Text, PrimitiveKind::Text) => true,
                _ => false,
            };
            if same_prim && out[li].material == it.material {
                out[li].count = out[li].count + 1;
                extended = true;
            }
        }
        if !extended {
            let b = DrawBatch { primitive: it.primitive, material: it.material, start: j, count: 1 };
            out.push(b);
        }
        j += 1;
    }
    out
}

} // verus!
