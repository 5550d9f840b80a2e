//! Stable 64-bit element identifiers: the high 32 bits carry the element
//! type, the low 32 bits the per-type instance ordinal. Tags are the join
//! key across the constraint graph, the frame cache and the GPU buffer.

use vstd::prelude::*;

verus! {

/// A tag identifying one element instance.
pub type Tag = u64;

/// What `make_tag` packs: type id in the high half, instance id in the low.
pub open spec fn spec_make_tag(type_id: u32, instance_id: u32) -> int {
    type_id as u64 * 0x1_0000_0000 + instance_id as u64
}

/// Create a tag from a type id and an instance id.
pub fn make_tag(type_id: u32, instance_id: u32) -> (tag: Tag)
    ensures
        tag == spec_make_tag(type_id, instance_id),
{
    let tag = ((type_id as u64) << 32u64) | (instance_id as u64);
    proof {
        assert(tag == type_id as u64 * 0x1_0000_0000 + instance_id as u64) by (bit_vector)
            requires tag == ((type_id as u64) << 32u64) | (instance_id as u64);
    }
    tag
}

/// Extract the type id (high 32 bits) from a tag.
pub fn extract_type(tag: Tag) -> (type_id: u32)
    ensures
        type_id == tag / 0x1_0000_0000,
{
    let t = (tag >> 32u64) as u32;
    proof {
        assert(t == tag / 0x1_0000_0000) by (bit_vector)
            requires t == (tag >> 32u64) as u32;
    }
    t
}

/// Extract the instance id (low 32 bits) from a tag.
pub fn extract_id(tag: Tag) -> (instance_id: u32)
    ensures
        instance_id == tag % 0x1_0000_0000,
{
    let i = tag as u32;
    proof {
        assert(i == tag % 0x1_0000_0000) by (bit_vector)
            requires i == tag as u32;
    }
    i
}

/// A tag round-trips: packing a type id and an instance id and unpacking
/// them again gives the ids back.
pub proof fn lemma_tag_round_trip(type_id: u32, instance_id: u32)
    ensures
        spec_make_tag(type_id, instance_id) / 0x1_0000_0000 == type_id,
        spec_make_tag(type_id, instance_id) % 0x1_0000_0000 == instance_id,
{
    let t = spec_make_tag(type_id, instance_id);
    assert(t / 0x1_0000_0000 == type_id && t % 0x1_0000_0000 == instance_id) by (nonlinear_arith)
        requires t == type_id as u64 * 0x1_0000_0000 + instance_id as u64;
}

/// Hands out per-type instance ordinals so that every element gets a
/// distinct tag within its type.
pub struct TagAllocator {
    /// The next unassigned instance ordinal, one slot per type id seen.
    next: Vec<(u32, u32)>,
}

impl TagAllocator {
    /// Each type id occurs at most once in the ordinal table.
    pub closed spec fn wf(self) -> bool {
        forall|i: int, j: int|
            0 <= i < j < self.next@.len() ==> self.next@[i].0 != self.next@[j].0
    }

    /// The next ordinal for a type id, 0 where the type is new.
    pub closed spec fn spec_next_of(self, type_id: u32) -> u32 {
        if exists|i: int| 0 <= i < self.next@.len() && self.next@[i].0 == type_id {
            self.next@[choose|i: int| 0 <= i < self.next@.len() && self.next@[i].0 == type_id].1
        } else {
            0
        }
    }

    /// Create an allocator with no tags handed out.
    pub fn new() -> (r: TagAllocator)
        ensures
            r.wf(),
            forall|t: u32| r.spec_next_of(t) == 0,
    {
        TagAllocator { next: Vec::new() }
    }

    /// Hand out the next tag for a type. Returns `None` when the type's
    /// ordinals are exhausted.
    pub fn allocate(&mut self, type_id: u32) -> (r: Option<Tag>)
        requires
            old(self).wf(),
        ensures
            final(self).wf(),
            old(self).spec_next_of(type_id) < u32::MAX ==> (r matches Some(t)
                && t == spec_make_tag(type_id, old(self).spec_next_of(type_id))
                && final(self).spec_next_of(type_id) == old(self).spec_next_of(type_id) + 1),
            old(self).spec_next_of(type_id) == u32::MAX ==> (r is None
                && *final(self) == *old(self)),
    {
        let mut i: usize = 0;
        while i < self.next.len()
            invariant
                self.wf(),
                *self == *old(self),
                i <= self.next@.len(),
                forall|k: int| 0 <= k < i ==> self.next@[k].0 != type_id,
            decreases self.next@.len() - i,
        {
            if self.next[i].0 == type_id {
                let n = self.next[i].1;
                if n == u32::MAX {
                    assert(old(self).spec_next_of(type_id) == u32::MAX);
                    return None;
                }
                self.next[i].1 = n + 1;
                assert(old(self).spec_next_of(type_id) == n);
                assert(self.spec_next_of(type_id) == n + 1) by {
                    let j = choose|j: int|
                        0 <= j < self.next@.len() && self.next@[j].0 == type_id;
                    assert(self.next@[j] == self.next@[i as int]);
                }
                return Some(make_tag(type_id, n));
            }
            i += 1;
        }
        assert(old(self).spec_next_of(type_id) == 0);
        self.next.push((type_id, 1));
        assert(self.wf()) by {
            let n = self.next@.len() as int;
            assert(forall|k: int| 0 <= k < n - 1 ==> self.next@[k] == old(self).next@[k]);
        }
        assert(self.spec_next_of(type_id) == 1) by {
            let j = choose|j: int|
                0 <= j < self.next@.len() && self.next@[j].0 == type_id;
            assert(self.next@[self.next@.len() - 1].0 == type_id);
            assert(self.next@[j] == self.next@[self.next@.len() - 1]);
        }
        Some(make_tag(type_id, 0))
    }
}

} // verus!
