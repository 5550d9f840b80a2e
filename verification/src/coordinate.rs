//! The coordinate stack: strictly nested relative-origin frames, pushed on
//! entering a container and popped on leaving it. Constraints are written
//! against the top frame; one post-solve walk over the same nesting turns
//! local values into absolute ones by summing the active origins and
//! padding insets. Every push must be matched by a pop; a pop with no
//! frame left is a construction-time error.

use vstd::prelude::*;
use crate::geom::{Point, spec_clamp, clamp_add, clamp_wide};
use crate::ir::Padding;

verus! {

/// One stack entry: a container's origin and its padding inset.
#[derive(Clone, Copy, PartialEq, Eq, Structural, Debug)]
pub struct Frame {
    /// The container's content origin, relative to the enclosing frame.
    pub origin: Point,
    /// The container's padding inset.
    pub padding: Padding,
}

/// The translation a frame contributes: its origin shifted by its
/// top-left padding corner, clamped into the coordinate domain.
pub open spec fn spec_frame_shift(base: (int, int), f: Frame) -> (int, int) {
    (
        spec_clamp(spec_clamp(base.0 + f.origin.x) + f.padding.left),
        spec_clamp(spec_clamp(base.1 + f.origin.y) + f.padding.top),
    )
}

/// The total translation of a stack of frames, innermost last.
pub open spec fn spec_stack_shift(frames: Seq<Frame>) -> (int, int)
    decreases frames.len(),
{
    if frames.len() == 0 {
        (0, 0)
    } else {
        spec_frame_shift(spec_stack_shift(frames.drop_last()), frames.last())
    }
}

/// The stack of active coordinate frames, with the running translation of
/// the whole stack kept alongside each entry so that popping restores the
/// enclosing translation exactly.
pub struct CoordStack {
    frames: Vec<(Frame, Point)>,
    shift: Point,
}

impl CoordStack {
    /// The active frames, outermost first.
    pub closed spec fn frames(self) -> Seq<Frame> {
        self.frames@.map(|_i: int, e: (Frame, Point)| e.0)
    }

    /// The running translation matches the frames and stays in the
    /// coordinate domain.
    pub closed spec fn wf(self) -> bool {
        &&& (self.shift.x as int, self.shift.y as int) == spec_stack_shift(self.frames())
        &&& self.shift.wf()
        &&& forall|i: int|
            0 <= i < self.frames@.len()
                ==> ((#[trigger] self.frames@[i]).1.x as int, self.frames@[i].1.y as int)
                == spec_stack_shift(self.frames().take(i)) && self.frames@[i].1.wf()
    }

    /// An empty stack: local coordinates are already absolute.
    pub fn new() -> (r: CoordStack)
        ensures
            r.wf(),
            r.frames() =~= Seq::<Frame>::empty(),
    {
        let r = CoordStack { frames: Vec::new(), shift: Point { x: 0, y: 0 } };
        proof {
            assert(r.frames() =~= Seq::<Frame>::empty());
        }
        r
    }

    /// How many frames are active.
    pub fn depth(&self) -> (r: usize)
        ensures
            r == self.frames().len(),
    {
        self.frames.len()
    }

    /// Enter a container: push its frame.
    pub fn push(&mut self, origin: Point, padding: Padding)
        requires
            old(self).wf(),
        ensures
            final(self).wf(),
            final(self).frames() =~= old(self).frames().push(
                Frame { origin, padding },
            ),
    {
        let saved = self.shift;
        let sx = clamp_wide(
            clamp_wide(self.shift.x as i128 + origin.x as i128) as i128 + padding.left as i128,
        );
        let sy = clamp_wide(
            clamp_wide(self.shift.y as i128 + origin.y as i128) as i128 + padding.top as i128,
        );
        self.shift = Point { x: sx, y: sy };
        self.frames.push((Frame { origin, padding }, saved));
        proof {
            let fs = self.frames();
            assert(fs =~= old(self).frames().push(Frame { origin, padding }));
            assert(fs.drop_last() =~= old(self).frames());
            assert(forall|i: int|
                0 <= i < old(self).frames@.len()
                    ==> #[trigger] fs.take(i) =~= old(self).frames().take(i));
            assert(fs.take(old(self).frames@.len() as int) =~= old(self).frames());
        }
    }

    /// Leave a container: pop the innermost frame. `None` with the stack
    /// unchanged where no frame is active — a push/pop mismatch.
    pub fn pop(&mut self) -> (r: Option<Frame>)
        requires
            old(self).wf(),
        ensures
            final(self).wf(),
            old(self).frames().len() > 0 ==> (r == Some(old(self).frames().last())
                && final(self).frames() =~= old(self).frames().drop_last()),
            old(self).frames().len() == 0 ==> (r is None && *final(self) == *old(self)),
    {
        if self.frames.len() == 0 {
            return None;
        }
        let (frame, saved) = self.frames.pop().unwrap();
        self.shift = saved;
        proof {
            assert(self.frames() =~= old(self).frames().drop_last());
            assert(old(self).frames().take(old(self).frames@.len() - 1)
                =~= old(self).frames().drop_last());
            assert(forall|i: int|
                0 <= i < self.frames@.len()
                    ==> #[trigger] self.frames().take(i) =~= old(self).frames().take(i));
        }
        Some(frame)
    }

    /// Convert a point in the top frame's local coordinates to absolute
    /// coordinates: the point translated by the summed stack shift.
    pub fn to_absolute(&self, local: Point) -> (r: Point)
        requires
            self.wf(),
            local.wf(),
        ensures
            r.x == spec_clamp(local.x + spec_stack_shift(self.frames()).0),
            r.y == spec_clamp(local.y + spec_stack_shift(self.frames()).1),
            r.wf(),
    {
        Point { x: clamp_add(local.x, self.shift.x), y: clamp_add(local.y, self.shift.y) }
    }
}

} // verus!
