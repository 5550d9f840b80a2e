//! The constraint graph: layout variables, one per (tag, attribute), and
//! the closed set of fixed-form equations between them. Constraints are
//! directed — each one produces exactly one variable — and producer cycles
//! are expected: the solver resolves them by relaxation, not by any
//! dependency order.

use vstd::prelude::*;
use crate::geom::{Coord, in_domain, spec_clamp, clamp_wide};
use crate::tag::Tag;

verus! {

/// The four layout attributes a variable can stand for.
#[derive(Clone, Copy, PartialEq, Eq, Structural, Debug)]
pub enum AttrKind {
    /// Horizontal position, relative to the parent's content origin.
    X,
    /// Vertical position, relative to the parent's content origin.
    Y,
    /// Width.
    Width,
    /// Height.
    Height,
}

/// One layout variable: its key, its current value and whether it was
/// already resolved at construction time (a fixed size).
#[derive(Clone, Copy, PartialEq, Eq, Structural, Debug)]
pub struct Variable {
    /// The element the variable belongs to.
    pub tag: Tag,
    /// Which attribute it stands for.
    pub attr: AttrKind,
    /// Current value in sub-pixel units.
    pub value: Coord,
    /// True where the value was a literal at construction.
    pub resolved: bool,
}

/// A fixed-form equation producing one variable from others. All terms are
/// in sub-pixel units; every evaluation is clamped into the coordinate
/// domain.
#[derive(Clone, PartialEq, Eq, Debug)]
pub enum Constraint {
    /// `target = value`.
    Fixed {
        /// Produced variable.
        target: usize,
        /// Literal value.
        value: Coord,
    },
    /// `target = source + offset`.
    Offset {
        /// Produced variable.
        target: usize,
        /// Source variable.
        source: usize,
        /// Added literal.
        offset: Coord,
    },
    /// `target = a + b + offset`: stacking, a sibling's position plus its
    /// size plus spacing.
    SumTwo {
        /// Produced variable.
        target: usize,
        /// First source.
        a: usize,
        /// Second source.
        b: usize,
        /// Added literal.
        offset: Coord,
    },
    /// `target = a - b + offset`: trailing-edge alignment.
    Diff {
        /// Produced variable.
        target: usize,
        /// Minuend variable.
        a: usize,
        /// Subtrahend variable.
        b: usize,
        /// Added literal.
        offset: Coord,
    },
    /// `target = sum(sources) + offset`: hug along the stack axis.
    Sum {
        /// Produced variable.
        target: usize,
        /// Summed variables.
        sources: Vec<usize>,
        /// Added literal (spacing total plus padding).
        offset: Coord,
    },
    /// `target = factor * max(sources, 0) + offset`: hug across the stack
    /// axis, and grid cell positioning.
    MaxPlus {
        /// Produced variable.
        target: usize,
        /// Variables the maximum ranges over; the maximum has floor 0.
        sources: Vec<usize>,
        /// Multiplier of the maximum.
        factor: Coord,
        /// Added literal.
        offset: Coord,
    },
    /// `target = max(outer - inner - inset, 0) / 2`: centering within a
    /// content box.
    Center {
        /// Produced variable.
        target: usize,
        /// The enclosing extent.
        outer: usize,
        /// The centered extent.
        inner: usize,
        /// Subtracted literal (the two paddings).
        inset: Coord,
    },
}

impl Constraint {
    /// The index of the variable this constraint produces.
    pub open spec fn spec_target(self) -> int {
        match self {
            Constraint::Fixed { target, .. } => target as int,
            Constraint::Offset { target, .. } => target as int,
            Constraint::SumTwo { target, .. } => target as int,
            Constraint::Diff { target, .. } => target as int,
            Constraint::Sum { target, .. } => target as int,
            Constraint::MaxPlus { target, .. } => target as int,
            Constraint::Center { target, .. } => target as int,
        }
    }

    /// Every referenced variable index lies below `n`.
    pub open spec fn valid(self, n: int) -> bool {
        match self {
            Constraint::Fixed { target, .. } => target < n,
            Constraint::Offset { target, source, .. } => target < n && source < n,
            Constraint::SumTwo { target, a, b, .. } => target < n && a < n && b < n,
            Constraint::Diff { target, a, b, .. } => target < n && a < n && b < n,
            Constraint::Sum { target, sources, .. } => target < n
                && forall|i: int| 0 <= i < sources@.len() ==> sources@[i] < n,
            Constraint::MaxPlus { target, sources, .. } => target < n
                && forall|i: int| 0 <= i < sources@.len() ==> sources@[i] < n,
            Constraint::Center { target, outer, inner, .. } => target < n && outer < n
                && inner < n,
        }
    }

    /// Check at run time that every referenced index lies below `n`.
    pub fn check_valid(&self, n: usize) -> (r: bool)
        ensures
            r == self.valid(n as int),
    {
        match self {
            Constraint::Fixed { target, .. } => *target < n,
            Constraint::Offset { target, source, .. } => *target < n && *source < n,
            Constraint::SumTwo { target, a, b, .. } => *target < n && *a < n && *b < n,
            Constraint::Diff { target, a, b, .. } => *target < n && *a < n && *b < n,
            Constraint::Sum { target, sources, .. } => *target < n && all_below(sources, n),
            Constraint::MaxPlus { target, sources, .. } => *target < n && all_below(sources, n),
            Constraint::Center { target, outer, inner, .. } => *target < n && *outer < n
                && *inner < n,
        }
    }
}

/// Whether every index in the list lies below `n`.
fn all_below(v: &Vec<usize>, n: usize) -> (r: bool)
    ensures
        r == forall|i: int| 0 <= i < v@.len() ==> v@[i] < n,
{
    let mut i: usize = 0;
    while i < v.len()
        invariant
            i <= v@.len(),
            forall|k: int| 0 <= k < i ==> v@[k] < n,
        decreases v@.len() - i,
    {
        if !(v[i] < n) {
            return false;
        }
        i += 1;
    }
    true
}

/// The mathematical shape of one constraint: the same equation forms with
/// the aggregate members as a sequence, so that a whole constraint list
/// can be written down in specification code.
#[allow(missing_docs)]
pub ghost enum ConstraintModel {
    Fixed { target: int, value: int },
    Offset { target: int, source: int, offset: int },
    SumTwo { target: int, a: int, b: int, offset: int },
    Diff { target: int, a: int, b: int, offset: int },
    Sum { target: int, sources: Seq<int>, offset: int },
    MaxPlus { target: int, sources: Seq<int>, factor: int, offset: int },
    Center { target: int, outer: int, inner: int, inset: int },
}

impl Constraint {
    /// The constraint's mathematical shape.
    pub open spec fn model(self) -> ConstraintModel {
        match self {
            Constraint::Fixed { target, value } => ConstraintModel::Fixed {
                target: target as int,
                value: value as int,
            },
            Constraint::Offset { target, source, offset } => ConstraintModel::Offset {
                target: target as int,
                source: source as int,
                offset: offset as int,
            },
            Constraint::SumTwo { target, a, b, offset } => ConstraintModel::SumTwo {
                target: target as int,
                a: a as int,
                b: b as int,
                offset: offset as int,
            },
            Constraint::Diff { target, a, b, offset } => ConstraintModel::Diff {
                target: target as int,
                a: a as int,
                b: b as int,
                offset: offset as int,
            },
            Constraint::Sum { target, sources, offset } => ConstraintModel::Sum {
                target: target as int,
                sources: sources@.map_values(|u: usize| u as int),
                offset: offset as int,
            },
            Constraint::MaxPlus { target, sources, factor, offset } => ConstraintModel::MaxPlus {
                target: target as int,
                sources: sources@.map_values(|u: usize| u as int),
                factor: factor as int,
                offset: offset as int,
            },
            Constraint::Center { target, outer, inner, inset } => ConstraintModel::Center {
                target: target as int,
                outer: outer as int,
                inner: inner as int,
                inset: inset as int,
            },
        }
    }
}

/// The models of a whole constraint list, in order.
pub open spec fn models_of(cs: Seq<Constraint>) -> Seq<ConstraintModel> {
    cs.map_values(|c: Constraint| c.model())
}

/// Structural errors of graph construction. They indicate an authoring bug
/// upstream and are always surfaced, never dropped.
#[derive(Clone, Copy, PartialEq, Eq, Structural, Debug)]
pub enum ConstructionError {
    /// A constraint references a tag with no variables in the graph.
    UnknownTag(Tag),
    /// Two elements of one description carry the same tag.
    DuplicateTag(Tag),
    /// A constraint references a variable index outside the graph.
    InvalidReference,
    /// Coordinate-frame pushes and pops did not pair up.
    FrameMismatch,
}

/// The constraint graph of one frame: variables and the constraints over
/// them, both in creation order. Rebuilt every frame; the creation order
/// is the solver's evaluation order and is part of the system's contract.
#[derive(Clone, PartialEq, Eq, Debug)]
pub struct Graph {
    /// Variables, in creation order.
    pub vars: Vec<Variable>,
    /// Constraints, in creation order.
    pub constraints: Vec<Constraint>,
}

impl Graph {
    /// Every constraint references only existing variables and every
    /// stored value lies in the coordinate domain.
    pub open spec fn wf(self) -> bool {
        &&& forall|i: int|
            0 <= i < self.constraints@.len() ==> self.constraints@[i].valid(self.vars@.len() as int)
        &&& forall|i: int| 0 <= i < self.vars@.len() ==> in_domain(self.vars@[i].value as int)
    }

    /// The variable values, in creation order.
    pub open spec fn values(self) -> Seq<i64> {
        Seq::new(self.vars@.len(), |i: int| self.vars@[i].value)
    }

    /// An empty graph.
    pub fn new() -> (g: Graph)
        ensures
            g.wf(),
            g.vars@.len() == 0,
            g.constraints@.len() == 0,
    {
        Graph { vars: Vec::new(), constraints: Vec::new() }
    }

    /// Add a variable with its initial value (the literal where the size
    /// is fixed, zero otherwise) and return its index. The initial value
    /// is clamped into the coordinate domain.
    pub fn add_variable(&mut self, tag: Tag, attr: AttrKind, initial: Coord, resolved: bool)
        -> (id: usize)
        requires
            old(self).wf(),
        ensures
            final(self).wf(),
            id == old(self).vars@.len(),
            final(self).vars@ == old(self).vars@.push(Variable {
                tag,
                attr,
                value: spec_clamp(initial as int) as i64,
                resolved,
            }),
            final(self).constraints@ == old(self).constraints@,
    {
        let id = self.vars.len();
        let value = clamp_wide(initial as i128);
        self.vars.push(Variable { tag, attr, value, resolved });
        id
    }

    /// The index of the first variable with this tag and attribute.
    pub fn var_index(&self, tag: Tag, attr: AttrKind) -> (r: Option<usize>)
        ensures
            match r {
                Some(i) => i < self.vars@.len() && self.vars@[i as int].tag == tag
                    && self.vars@[i as int].attr == attr
                    && forall|k: int|
                        0 <= k < i ==> !(self.vars@[k].tag == tag && self.vars@[k].attr == attr),
                None => forall|i: int|
                    0 <= i < self.vars@.len()
                        ==> !(self.vars@[i].tag == tag && self.vars@[i].attr == attr),
            },
    {
        let mut i: usize = 0;
        while i < self.vars.len()
            invariant
                i <= self.vars@.len(),
                forall|k: int|
                    0 <= k < i ==> !(self.vars@[k].tag == tag && self.vars@[k].attr == attr),
            decreases self.vars@.len() - i,
        {
            if self.vars[i].tag == tag && matches!(self.vars[i].attr, a if a == attr) {
                return Some(i);
            }
            i += 1;
        }
        None
    }

    /// Add a constraint. A constraint referencing a variable outside the
    /// graph is a construction-time error and leaves the graph unchanged.
    pub fn add_constraint(&mut self, c: Constraint) -> (r: Result<(), ConstructionError>)
        requires
            old(self).wf(),
        ensures
            final(self).wf(),
            c.valid(old(self).vars@.len() as int) ==> (r is Ok
                && final(self).vars@ == old(self).vars@
                && final(self).constraints@ == old(self).constraints@.push(c)),
            !c.valid(old(self).vars@.len() as int) ==> (r
                == Result::<(), ConstructionError>::Err(ConstructionError::InvalidReference)
                && *final(self) == *old(self)),
    {
        if c.check_valid(self.vars.len()) {
            self.constraints.push(c);
            Ok(())
        } else {
            Err(ConstructionError::InvalidReference)
        }
    }
}

} // verus!
