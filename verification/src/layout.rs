//! Graph construction from the element description. One walk over the
//! declarations emits one variable per (tag, attribute) and one constraint
//! per layout rule: stacking for Column and Row, cell indexing for Grid,
//! content-size for Fill, aggregate-of-children for Hug and literals for
//! Fixed. The whole emission is a function of the description alone —
//! [`spec_constraint_models`] and [`spec_vars`] write it down — so a
//! description rebuilt from scratch always yields the same graph.
//! Structural faults — a duplicate tag, or a parent tag that was never
//! declared — are construction-time errors, surfaced to the caller and
//! never dropped.

use vstd::prelude::*;
use crate::geom::{Coord, Point, spec_clamp, clamp_wide};
use crate::ir::{Alignment, LayoutMode, LayoutProperties, Node, Padding, SizeConstraint};
use crate::constraint::{
    AttrKind, Constraint, ConstraintModel, ConstructionError, Graph, Variable, models_of,
};
use crate::tag::Tag;

verus! {

/// One element of the flat description handed to graph construction: its
/// tag, the tag of its enclosing container declared earlier in the list
/// (if any), its declared position for axes no container manages, and its
/// layout properties. Order in the list is paint order and, within one
/// container, stacking order.
#[derive(Clone, Copy, PartialEq, Eq, Debug)]
pub struct LayoutDecl {
    /// The element's tag.
    pub tag: Tag,
    /// The enclosing container's tag; it must be declared earlier.
    pub parent: Option<Tag>,
    /// Declared position, used where no container manages an axis.
    pub position: Point,
    /// Layout properties.
    pub layout: LayoutProperties,
}

impl LayoutDecl {
    /// The declaration a node of the element description contributes,
    /// once the adapter has assigned it a tag and found its container.
    pub fn of_node(tag: Tag, parent: Option<Tag>, node: &Node) -> (r: LayoutDecl)
        ensures
            r.tag == tag,
            r.parent == parent,
            r.position == node.transform.position,
            r.layout == node.layout,
    {
        LayoutDecl { tag, parent, position: node.transform.position, layout: node.layout }
    }
}

/// A well-formed description: tags are pairwise distinct and every parent
/// tag is declared earlier in the list.
pub open spec fn decls_wf(s: Seq<LayoutDecl>) -> bool {
    &&& forall|i: int, j: int| 0 <= i < j < s.len() ==> s[i].tag != s[j].tag
    &&& forall|i: int|
        0 <= i < s.len() ==> ((#[trigger] s[i]).parent matches Some(p)
            ==> exists|j: int| 0 <= j < i && s[j].tag == p)
}

/// Whether a tag is declared at all.
pub open spec fn in_decls(s: Seq<LayoutDecl>, t: Tag) -> bool {
    exists|j: int| 0 <= j < s.len() && s[j].tag == t
}

/// The (unique, under distinct tags) index declaring a tag.
pub open spec fn spec_decl_index(s: Seq<LayoutDecl>, t: Tag) -> int {
    choose|j: int| 0 <= j < s.len() && s[j].tag == t
}

/// With distinct tags, any index declaring the tag is its index.
pub proof fn lemma_decl_index_unique(s: Seq<LayoutDecl>, t: Tag, j: int)
    requires
        forall|a: int, b: int| 0 <= a < b < s.len() ==> s[a].tag != s[b].tag,
        0 <= j < s.len(),
        s[j].tag == t,
    ensures
        in_decls(s, t),
        spec_decl_index(s, t) == j,
{
    assert(in_decls(s, t));
    let j2 = spec_decl_index(s, t);
    if j2 < j {
        assert(s[j2].tag != s[j].tag);
    } else if j2 > j {
        assert(s[j].tag != s[j2].tag);
    }
}

/// The summed horizontal padding, clamped into the coordinate domain.
pub open spec fn spec_pad_h(p: Padding) -> int {
    spec_clamp(p.left + p.right)
}

/// The summed vertical padding, clamped into the coordinate domain.
pub open spec fn spec_pad_v(p: Padding) -> int {
    spec_clamp(p.top + p.bottom)
}

/// Whether the declaration hugs along the given axis.
pub open spec fn spec_axis_hug(d: LayoutDecl, horizontal: bool) -> bool {
    if horizontal {
        d.layout.width is Hug
    } else {
        d.layout.height is Hug
    }
}

/// The declaration's padding along the given axis.
pub open spec fn spec_axis_pad(d: LayoutDecl, horizontal: bool) -> int {
    if horizontal {
        spec_pad_h(d.layout.padding)
    } else {
        spec_pad_v(d.layout.padding)
    }
}

/// The declaration indices of a container's children among the first `n`
/// declarations, in declaration (stacking) order.
pub open spec fn spec_children_upto(s: Seq<LayoutDecl>, t: Tag, n: int) -> Seq<int>
    decreases n,
{
    if n <= 0 {
        Seq::empty()
    } else {
        let rest = spec_children_upto(s, t, n - 1);
        if s[n - 1].parent matches Some(p) && p == t {
            rest.push(n - 1)
        } else {
            rest
        }
    }
}

/// All the declaration indices of a container's children.
pub open spec fn spec_children(s: Seq<LayoutDecl>, t: Tag) -> Seq<int> {
    spec_children_upto(s, t, s.len() as int)
}

/// The variable indices of one attribute of the listed elements.
pub open spec fn spec_attr_list(children: Seq<int>, off: int) -> Seq<int> {
    children.map_values(|c: int| 4 * c + off)
}

/// The variable a Fill axis resolves against and the inset it subtracts:
/// starting at the parent with the parent's own axis padding, walk to the
/// nearest ancestor whose size on the axis is not Hug, summing the padding
/// of each container passed through. A Hug parent merely wraps its
/// content, so the space a Fill child may take comes from further out.
pub open spec fn spec_fill_walk(s: Seq<LayoutDecl>, src: int, inset: int, horizontal: bool)
    -> (int, int)
    decreases src,
{
    if src < 0 || src >= s.len() {
        (src, inset)
    } else if !spec_axis_hug(s[src], horizontal) {
        (src, inset)
    } else {
        match s[src].parent {
            Option::None => (src, inset),
            Option::Some(q) => {
                if in_decls(s, q) {
                    let qi = spec_decl_index(s, q);
                    if 0 <= qi < src {
                        spec_fill_walk(
                            s,
                            qi,
                            spec_clamp(inset + spec_axis_pad(s[qi], horizontal)),
                            horizontal,
                        )
                    } else {
                        (src, inset)
                    }
                } else {
                    (src, inset)
                }
            },
        }
    }
}

/// The width constraint (as its model) one declaration emits.
pub open spec fn spec_width_models(s: Seq<LayoutDecl>, i: int) -> Seq<ConstraintModel> {
    let d = s[i];
    let wv = 4 * i + 2;
    match d.layout.width {
        SizeConstraint::Fixed(v) => seq![ConstraintModel::Fixed { target: wv, value: v as int }],
        SizeConstraint::Fill => match d.parent {
            Option::Some(pt) => if in_decls(s, pt) {
                let p = spec_decl_index(s, pt);
                let w = spec_fill_walk(s, p, spec_axis_pad(s[p], true), true);
                seq![ConstraintModel::Offset { target: wv, source: 4 * w.0 + 2, offset: -w.1 }]
            } else {
                seq![ConstraintModel::Fixed { target: wv, value: 0 }]
            },
            Option::None => seq![ConstraintModel::Fixed { target: wv, value: 0 }],
        },
        SizeConstraint::Hug => {
            let widths = spec_attr_list(spec_children(s, d.tag), 2);
            let m = spec_children(s, d.tag).len() as int;
            let pad = spec_pad_h(d.layout.padding);
            match d.layout.layout_mode {
                Option::Some(LayoutMode::Row { spacing, .. }) => seq![
                    ConstraintModel::Sum {
                        target: wv,
                        sources: widths,
                        offset: spec_clamp((if m == 0 { 0int } else { (m - 1) * spacing }) + pad),
                    },
                ],
                Option::Some(LayoutMode::Grid { columns, spacing }) => {
                    let cols: int = if columns == 0 { 1int } else { columns as int };
                    seq![
                        ConstraintModel::MaxPlus {
                            target: wv,
                            sources: widths,
                            factor: spec_clamp(cols),
                            offset: spec_clamp((cols - 1) * spacing + pad),
                        },
                    ]
                },
                _ => seq![
                    ConstraintModel::MaxPlus {
                        target: wv,
                        sources: widths,
                        factor: 1,
                        offset: pad,
                    },
                ],
            }
        },
    }
}

/// The height constraint (as its model) one declaration emits.
pub open spec fn spec_height_models(s: Seq<LayoutDecl>, i: int) -> Seq<ConstraintModel> {
    let d = s[i];
    let hv = 4 * i + 3;
    match d.layout.height {
        SizeConstraint::Fixed(v) => seq![ConstraintModel::Fixed { target: hv, value: v as int }],
        SizeConstraint::Fill => match d.parent {
            Option::Some(pt) => if in_decls(s, pt) {
                let p = spec_decl_index(s, pt);
                let w = spec_fill_walk(s, p, spec_axis_pad(s[p], false), false);
                seq![ConstraintModel::Offset { target: hv, source: 4 * w.0 + 3, offset: -w.1 }]
            } else {
                seq![ConstraintModel::Fixed { target: hv, value: 0 }]
            },
            Option::None => seq![ConstraintModel::Fixed { target: hv, value: 0 }],
        },
        SizeConstraint::Hug => {
            let heights = spec_attr_list(spec_children(s, d.tag), 3);
            let m = spec_children(s, d.tag).len() as int;
            let pad = spec_pad_v(d.layout.padding);
            match d.layout.layout_mode {
                Option::Some(LayoutMode::Column { spacing, .. }) => seq![
                    ConstraintModel::Sum {
                        target: hv,
                        sources: heights,
                        offset: spec_clamp((if m == 0 { 0int } else { (m - 1) * spacing }) + pad),
                    },
                ],
                Option::Some(LayoutMode::Grid { columns, spacing }) => {
                    let cols: int = if columns == 0 { 1int } else { columns as int };
                    let rows: int = if m == 0 { 0int } else { (m - 1) / cols + 1 };
                    seq![
                        ConstraintModel::MaxPlus {
                            target: hv,
                            sources: heights,
                            factor: spec_clamp(rows),
                            offset: spec_clamp(
                                (if rows == 0 { 0int } else { (rows - 1) * spacing }) + pad,
                            ),
                        },
                    ]
                },
                _ => seq![
                    ConstraintModel::MaxPlus {
                        target: hv,
                        sources: heights,
                        factor: 1,
                        offset: pad,
                    },
                ],
            }
        },
    }
}

/// The cross-axis constraints (as models) of one stacked child: its
/// position within the parent's content box and, for Stretch, its size.
pub open spec fn spec_cross_models(
    align: Alignment,
    pos: int,
    parent_size: int,
    child_size: int,
    pad: int,
) -> Seq<ConstraintModel> {
    match align {
        Alignment::Start => seq![ConstraintModel::Fixed { target: pos, value: 0 }],
        Alignment::Center => seq![
            ConstraintModel::Center { target: pos, outer: parent_size, inner: child_size, inset: pad },
        ],
        Alignment::End => seq![
            ConstraintModel::Diff { target: pos, a: parent_size, b: child_size, offset: -pad },
        ],
        Alignment::Stretch => seq![
            ConstraintModel::Fixed { target: pos, value: 0 },
            ConstraintModel::Offset { target: child_size, source: parent_size, offset: -pad },
        ],
    }
}

/// The position constraints (as models) one declaration emits: stacking
/// or grid indexing along managed axes, alignment across them, the
/// declared literal elsewhere.
pub open spec fn spec_position_models(s: Seq<LayoutDecl>, i: int) -> Seq<ConstraintModel> {
    let d = s[i];
    let xv = 4 * i;
    let yv = 4 * i + 1;
    let literal = seq![
        ConstraintModel::Fixed { target: xv, value: d.position.x as int },
        ConstraintModel::Fixed { target: yv, value: d.position.y as int },
    ];
    match d.parent {
        Option::None => literal,
        Option::Some(pt) => if !in_decls(s, pt) {
            literal
        } else {
            let p = spec_decl_index(s, pt);
            let ord = spec_children_upto(s, pt, i).len() as int;
            match s[p].layout.layout_mode {
                Option::None => literal,
                Option::Some(LayoutMode::Column { spacing, align }) => {
                    let ycs = if ord == 0 {
                        seq![ConstraintModel::Fixed { target: yv, value: 0 }]
                    } else {
                        let prev = spec_children_upto(s, pt, i).last();
                        seq![
                            ConstraintModel::SumTwo {
                                target: yv,
                                a: 4 * prev + 1,
                                b: 4 * prev + 3,
                                offset: spacing as int,
                            },
                        ]
                    };
                    ycs + spec_cross_models(
                        align,
                        xv,
                        4 * p + 2,
                        4 * i + 2,
                        spec_pad_h(s[p].layout.padding),
                    )
                },
                Option::Some(LayoutMode::Row { spacing, align }) => {
                    let xcs = if ord == 0 {
                        seq![ConstraintModel::Fixed { target: xv, value: 0 }]
                    } else {
                        let prev = spec_children_upto(s, pt, i).last();
                        seq![
                            ConstraintModel::SumTwo {
                                target: xv,
                                a: 4 * prev,
                                b: 4 * prev + 2,
                                offset: spacing as int,
                            },
                        ]
                    };
                    xcs + spec_cross_models(
                        align,
                        yv,
                        4 * p + 3,
                        4 * i + 3,
                        spec_pad_v(s[p].layout.padding),
                    )
                },
                Option::Some(LayoutMode::Grid { columns, spacing }) => {
                    let cols: int = if columns == 0 { 1int } else { columns as int };
                    let col = ord % cols;
                    let row = ord / cols;
                    let sib = spec_children(s, pt);
                    seq![
                        ConstraintModel::MaxPlus {
                            target: xv,
                            sources: spec_attr_list(sib, 2),
                            factor: spec_clamp(col),
                            offset: spec_clamp(col * spacing),
                        },
                        ConstraintModel::MaxPlus {
                            target: yv,
                            sources: spec_attr_list(sib, 3),
                            factor: spec_clamp(row),
                            offset: spec_clamp(row * spacing),
                        },
                    ]
                },
            }
        },
    }
}

/// All the constraints (as models) one declaration emits, in emission
/// order: width, height, then positions.
pub open spec fn spec_decl_models(s: Seq<LayoutDecl>, i: int) -> Seq<ConstraintModel> {
    spec_width_models(s, i) + spec_height_models(s, i) + spec_position_models(s, i)
}

/// The constraints (as models) the first `n` declarations emit.
pub open spec fn spec_models_prefix(s: Seq<LayoutDecl>, n: int) -> Seq<ConstraintModel>
    decreases n,
{
    if n <= 0 {
        Seq::empty()
    } else {
        spec_models_prefix(s, n - 1) + spec_decl_models(s, n - 1)
    }
}

/// The whole constraint list (as models) a description builds to: §4.1's
/// rules, one after the other, in declaration order.
pub open spec fn spec_constraint_models(s: Seq<LayoutDecl>) -> Seq<ConstraintModel> {
    spec_models_prefix(s, s.len() as int)
}

/// The variable at index `k` of a built graph: four per declaration in
/// order x, y, width, height; positions initialized to the declared
/// literal, sizes to the Fixed literal where one is given and zero
/// otherwise, with the resolved flag set exactly on Fixed sizes.
pub open spec fn spec_var_at(s: Seq<LayoutDecl>, k: int) -> Variable {
    let d = s[k / 4];
    if k % 4 == 0 {
        Variable {
            tag: d.tag,
            attr: AttrKind::X,
            value: spec_clamp(d.position.x as int) as i64,
            resolved: false,
        }
    } else if k % 4 == 1 {
        Variable {
            tag: d.tag,
            attr: AttrKind::Y,
            value: spec_clamp(d.position.y as int) as i64,
            resolved: false,
        }
    } else if k % 4 == 2 {
        match d.layout.width {
            SizeConstraint::Fixed(v) => Variable {
                tag: d.tag,
                attr: AttrKind::Width,
                value: spec_clamp(v as int) as i64,
                resolved: true,
            },
            _ => Variable { tag: d.tag, attr: AttrKind::Width, value: 0, resolved: false },
        }
    } else {
        match d.layout.height {
            SizeConstraint::Fixed(v) => Variable {
                tag: d.tag,
                attr: AttrKind::Height,
                value: spec_clamp(v as int) as i64,
                resolved: true,
            },
            _ => Variable { tag: d.tag, attr: AttrKind::Height, value: 0, resolved: false },
        }
    }
}

/// The variable table a description builds to.
pub open spec fn spec_vars(s: Seq<LayoutDecl>) -> Seq<Variable> {
    Seq::new((4 * s.len()) as nat, |k: int| spec_var_at(s, k))
}

/// Whether a tag occurs among the first `upto` declarations.
fn tag_declared_before(decls: &Vec<LayoutDecl>, t: Tag, upto: usize) -> (r: bool)
    requires
        upto <= decls@.len(),
    ensures
        r == exists|j: int| 0 <= j < upto && decls@[j].tag == t,
{
    let mut j: usize = 0;
    while j < upto
        invariant
            j <= upto <= decls@.len(),
            forall|k: int| 0 <= k < j ==> decls@[k].tag != t,
        decreases upto - j,
    {
        if decls[j].tag == t {
            return true;
        }
        j += 1;
    }
    false
}

/// Check a description for structural faults: the result is `Ok` exactly
/// where tags are distinct and every parent is declared earlier.
pub fn validate_decls(decls: &Vec<LayoutDecl>) -> (r: Result<(), ConstructionError>)
    ensures
        r is Ok <==> decls_wf(decls@),
        r is Ok ==> r == Result::<(), ConstructionError>::Ok(()),
{
    let mut i: usize = 0;
    while i < decls.len()
        invariant
            i <= decls@.len(),
            forall|a: int, b: int| 0 <= a < b < i ==> decls@[a].tag != decls@[b].tag,
            forall|a: int|
                0 <= a < i ==> ((#[trigger] decls@[a]).parent matches Some(p)
                    ==> exists|j: int| 0 <= j < a && decls@[j].tag == p),
        decreases decls@.len() - i,
    {
        if tag_declared_before(decls, decls[i].tag, i) {
            proof {
                let j = choose|j: int| 0 <= j < i && decls@[j].tag == decls@[i as int].tag;
                assert(!decls_wf(decls@)) by {
                    assert(decls@[j].tag == decls@[i as int].tag);
                }
            }
            return Err(ConstructionError::DuplicateTag(decls[i].tag));
        }
        match decls[i].parent {
            Some(p) => {
                if !tag_declared_before(decls, p, i) {
                    proof {
                        assert(!decls_wf(decls@)) by {
                            assert(decls@[i as int].parent matches Some(q) && q == p);
                        }
                    }
                    return Err(ConstructionError::UnknownTag(p));
                }
            },
            None => {},
        }
        i += 1;
    }
    Ok(())
}

/// The index of the declaration with this tag.
fn decl_index_of(decls: &Vec<LayoutDecl>, t: Tag) -> (r: Option<usize>)
    requires
        forall|a: int, b: int| 0 <= a < b < decls@.len() ==> decls@[a].tag != decls@[b].tag,
    ensures
        r matches Some(i) ==> in_decls(decls@, t) && i as int == spec_decl_index(decls@, t)
            && i < decls@.len(),
        r is None ==> !in_decls(decls@, t),
{
    let mut j: usize = 0;
    while j < decls.len()
        invariant
            j <= decls@.len(),
            forall|a: int, b: int| 0 <= a < b < decls@.len() ==> decls@[a].tag != decls@[b].tag,
            forall|k: int| 0 <= k < j ==> decls@[k].tag != t,
        decreases decls@.len() - j,
    {
        if decls[j].tag == t {
            proof {
                lemma_decl_index_unique(decls@, t, j as int);
            }
            return Some(j);
        }
        j += 1;
    }
    None
}

/// The declaration indices of a container's children, in order.
fn children_of(decls: &Vec<LayoutDecl>, t: Tag) -> (r: Vec<usize>)
    ensures
        r@.map_values(|c: usize| c as int) == spec_children(decls@, t),
        forall|k: int| 0 <= k < r@.len() ==> r@[k] < decls@.len(),
{
    let mut out: Vec<usize> = Vec::new();
    let mut j: usize = 0;
    while j < decls.len()
        invariant
            j <= decls@.len(),
            out@.map_values(|c: usize| c as int) == spec_children_upto(decls@, t, j as int),
            forall|k: int| 0 <= k < out@.len() ==> out@[k] < decls@.len(),
        decreases decls@.len() - j,
    {
        let ghost snap = out@;
        let mut pushed = false;
        match decls[j].parent {
            Some(p) => {
                if p == t {
                    out.push(j);
                    pushed = true;
                }
            },
            None => {},
        }
        proof {
            if pushed {
                assert(out@ == snap.push(j));
                assert(out@.map_values(|c: usize| c as int) =~= snap.map_values(
                    |c: usize| c as int,
                ).push(j as int));
            }
            assert(out@.map_values(|c: usize| c as int) =~= spec_children_upto(
                decls@,
                t,
                j + 1,
            ));
        }
        j += 1;
    }
    out
}

/// The stacking ordinal of declaration `i` among a container's children:
/// how many earlier declarations share the parent, and the last of them.
fn stack_ordinal(decls: &Vec<LayoutDecl>, t: Tag, i: usize) -> (r: (usize, usize))
    requires
        i <= decls@.len(),
    ensures
        r.0 == spec_children_upto(decls@, t, i as int).len(),
        r.0 > 0 ==> r.1 as int == spec_children_upto(decls@, t, i as int).last()
            && r.1 < decls@.len(),
{
    let mut ord: usize = 0;
    let mut prev: usize = 0;
    let mut j: usize = 0;
    while j < i
        invariant
            j <= i <= decls@.len(),
            ord <= j,
            ord == spec_children_upto(decls@, t, j as int).len(),
            ord > 0 ==> prev as int == spec_children_upto(decls@, t, j as int).last() && prev
                < decls@.len(),
        decreases i - j,
    {
        match decls[j].parent {
            Some(p) => {
                if p == t {
                    ord = ord + 1;
                    prev = j;
                }
            },
            None => {},
        }
        proof {
            assert(spec_children_upto(decls@, t, j + 1).len() == ord);
        }
        j += 1;
    }
    (ord, prev)
}

/// The variable indices of one attribute of each listed element:
/// `4 * element + off`.
fn attr_vars(children: &Vec<usize>, off: usize, n: usize) -> (r: Vec<usize>)
    requires
        off < 4,
        n * 4 <= usize::MAX,
        forall|k: int| 0 <= k < children@.len() ==> children@[k] < n,
    ensures
        r@.map_values(|u: usize| u as int) == spec_attr_list(
            children@.map_values(|c: usize| c as int),
            off as int,
        ),
        forall|k: int| 0 <= k < r@.len() ==> r@[k] < 4 * n,
{
    let mut out: Vec<usize> = Vec::new();
    let mut j: usize = 0;
    while j < children.len()
        invariant
            j <= children@.len(),
            off < 4,
            n * 4 <= usize::MAX,
            forall|k: int| 0 <= k < children@.len() ==> children@[k] < n,
            out@.map_values(|u: usize| u as int) == spec_attr_list(
                children@.take(j as int).map_values(|c: usize| c as int),
                off as int,
            ),
            forall|k: int| 0 <= k < out@.len() ==> out@[k] < 4 * n,
        decreases children@.len() - j,
    {
        let ghost snap = out@;
        let ghost prevmap = children@.take(j as int).map_values(|c: usize| c as int);
        out.push(children[j] * 4 + off);
        proof {
            let ghost cj = children@[j as int] as int;
            assert(out@ == snap.push((children@[j as int] * 4 + off) as usize));
            assert(out@.map_values(|u: usize| u as int) =~= spec_attr_list(prevmap, off as int)
                .push(4 * cj + off));
            assert(spec_attr_list(prevmap.push(cj), off as int) =~= spec_attr_list(
                prevmap,
                off as int,
            ).push(4 * cj + off));
            assert(children@.take(j + 1).map_values(|c: usize| c as int) =~= prevmap.push(cj));
            assert(out@.map_values(|u: usize| u as int) == spec_attr_list(
                children@.take(j + 1).map_values(|c: usize| c as int),
                off as int,
            ));
        }
        j += 1;
    }
    proof {
        assert(children@.take(children@.len() as int) =~= children@);
    }
    out
}

/// Push a constraint known to reference only existing variables.
fn push_constraint(g: &mut Graph, c: Constraint)
    requires
        old(g).wf(),
        c.valid(old(g).vars@.len() as int),
    ensures
        final(g).wf(),
        final(g).vars@ == old(g).vars@,
        models_of(final(g).constraints@) == models_of(old(g).constraints@).push(c.model()),
{
    let ghost before = g.constraints@;
    let _ignored = g.add_constraint(c);
    proof {
        assert(models_of(g.constraints@) =~= models_of(before).push(c.model()));
    }
}

/// `k` gaps of `s` sub-pixel units, computed wide.
fn gap_total(k: usize, s: Coord) -> (r: i128)
    ensures
        r == k as int * s as int,
        -0x7FFF_FFFF_FFFF_FFFF_8000_0000_0000_0000 <= r
            <= 0x7FFF_FFFF_FFFF_FFFF_8000_0000_0000_0000,
{
    proof {
        assert(-0x7FFF_FFFF_FFFF_FFFF_8000_0000_0000_0000
            <= (k as int) * (s as int)
            <= 0x7FFF_FFFF_FFFF_FFFF_8000_0000_0000_0000) by (nonlinear_arith)
            requires
                0 <= k as int <= 0xFFFF_FFFF_FFFF_FFFF,
                -0x8000_0000_0000_0000 <= s as int <= 0x7FFF_FFFF_FFFF_FFFF;
    }
    k as i128 * s as i128
}

/// The summed horizontal padding.
fn pad_h(p: &Padding) -> (r: Coord)
    ensures
        r == spec_pad_h(*p),
        crate::geom::in_domain(r as int),
{
    clamp_wide(p.left as i128 + p.right as i128)
}

/// The summed vertical padding.
fn pad_v(p: &Padding) -> (r: Coord)
    ensures
        r == spec_pad_v(*p),
        crate::geom::in_domain(r as int),
{
    clamp_wide(p.top as i128 + p.bottom as i128)
}

/// The variable a Fill axis resolves against, with the summed inset.
fn fill_source(decls: &Vec<LayoutDecl>, p: usize, horizontal: bool) -> (r: (usize, Coord))
    requires
        p < decls@.len(),
        forall|a: int, b: int| 0 <= a < b < decls@.len() ==> decls@[a].tag != decls@[b].tag,
    ensures
        r.0 < decls@.len(),
        crate::geom::in_domain(r.1 as int),
        (r.0 as int, r.1 as int) == spec_fill_walk(
            decls@,
            p as int,
            spec_axis_pad(decls@[p as int], horizontal),
            horizontal,
        ),
{
    let mut src: usize = p;
    let mut inset: Coord = if horizontal {
        pad_h(&decls[p].layout.padding)
    } else {
        pad_v(&decls[p].layout.padding)
    };
    loop
        invariant
            src < decls@.len(),
            crate::geom::in_domain(inset as int),
            forall|a: int, b: int| 0 <= a < b < decls@.len() ==> decls@[a].tag != decls@[b].tag,
            spec_fill_walk(
                decls@,
                p as int,
                spec_axis_pad(decls@[p as int], horizontal),
                horizontal,
            ) == spec_fill_walk(decls@, src as int, inset as int, horizontal),
        ensures
            src < decls@.len(),
            crate::geom::in_domain(inset as int),
            (src as int, inset as int) == spec_fill_walk(
                decls@,
                p as int,
                spec_axis_pad(decls@[p as int], horizontal),
                horizontal,
            ),
        decreases src,
    {
        let hug = if horizontal {
            matches!(decls[src].layout.width, SizeConstraint::Hug)
        } else {
            matches!(decls[src].layout.height, SizeConstraint::Hug)
        };
        if !hug {
            break;
        }
        let qt = match decls[src].parent {
            Some(q) => q,
            None => {
                break;
            },
        };
        match decl_index_of(decls, qt) {
            Some(qi) => {
                if qi < src {
                    let qpad = if horizontal {
                        pad_h(&decls[qi].layout.padding)
                    } else {
                        pad_v(&decls[qi].layout.padding)
                    };
                    inset = crate::geom::clamp_add(inset, qpad);
                    src = qi;
                } else {
                    break;
                }
            },
            None => {
                break;
            },
        }
    }
    (src, inset)
}

/// Build the constraint graph of one description. `Ok` exactly where the
/// description is structurally sound; the graph then holds exactly the
/// variables of [`spec_vars`] and the constraints of
/// [`spec_constraint_models`] — §4.1's layout rules — so a description
/// always builds to one and the same graph.
pub fn build(decls: &Vec<LayoutDecl>) -> (r: Result<Graph, ConstructionError>)
    requires
        decls@.len() * 4 <= usize::MAX,
    ensures
        r is Ok <==> decls_wf(decls@),
        r matches Ok(g) ==> g.wf() && g.vars@ == spec_vars(decls@) && models_of(g.constraints@)
            == spec_constraint_models(decls@),
{
    match validate_decls(decls) {
        Ok(()) => {},
        Err(e) => {
            return Err(e);
        },
    }
    let n = decls.len();
    let mut g = Graph::new();
    let mut i: usize = 0;
    while i < n
        invariant
            i <= n,
            n == decls@.len(),
            n * 4 <= usize::MAX,
            g.wf(),
            g.vars@.len() == 4 * i,
            g.constraints@.len() == 0,
            forall|k: int| 0 <= k < 4 * i ==> g.vars@[k] == spec_var_at(decls@, k),
        decreases n - i,
    {
        let d = &decls[i];
        let (w0, wres) = match d.layout.width {
            SizeConstraint::Fixed(v) => (v, true),
            _ => (0, false),
        };
        let (h0, hres) = match d.layout.height {
            SizeConstraint::Fixed(v) => (v, true),
            _ => (0, false),
        };
        let _x = g.add_variable(d.tag, AttrKind::X, d.position.x, false);
        let _y = g.add_variable(d.tag, AttrKind::Y, d.position.y, false);
        let _w = g.add_variable(d.tag, AttrKind::Width, w0, wres);
        let _h = g.add_variable(d.tag, AttrKind::Height, h0, hres);
        proof {
            assert forall|k: int| 0 <= k < 4 * (i + 1) implies g.vars@[k] == spec_var_at(
                decls@,
                k,
            ) by {
                if k >= 4 * i {
                    assert(k / 4 == i as int);
                    assert(k % 4 == k - 4 * i);
                }
            }
        }
        i += 1;
    }
    proof {
        assert(g.vars@ =~= spec_vars(decls@));
    }
    let ghost vars_done = g.vars@;
    let mut i: usize = 0;
    while i < n
        invariant
            i <= n,
            n == decls@.len(),
            n * 4 <= usize::MAX,
            decls_wf(decls@),
            g.wf(),
            g.vars@ == vars_done,
            g.vars@.len() == 4 * n,
            models_of(g.constraints@) == spec_models_prefix(decls@, i as int),
        decreases n - i,
    {
        let ghost before = models_of(g.constraints@);
        emit_size_constraints(&mut g, decls, i);
        emit_position_constraints(&mut g, decls, i);
        proof {
            assert(models_of(g.constraints@) == before + spec_width_models(decls@, i as int)
                + spec_height_models(decls@, i as int) + spec_position_models(decls@, i as int));
            assert(models_of(g.constraints@) =~= spec_models_prefix(decls@, i + 1));
        }
        i += 1;
    }
    proof {
        assert(models_of(g.constraints@) == spec_constraint_models(decls@));
    }
    Ok(g)
}

/// Emit the width and height constraints of one element.
fn emit_size_constraints(g: &mut Graph, decls: &Vec<LayoutDecl>, i: usize)
    requires
        old(g).wf(),
        i < decls@.len(),
        decls@.len() * 4 <= usize::MAX,
        old(g).vars@.len() == 4 * decls@.len(),
        forall|a: int, b: int| 0 <= a < b < decls@.len() ==> decls@[a].tag != decls@[b].tag,
    ensures
        final(g).wf(),
        final(g).vars@ == old(g).vars@,
        models_of(final(g).constraints@) == models_of(old(g).constraints@) + spec_width_models(
            decls@,
            i as int,
        ) + spec_height_models(decls@, i as int),
{
    let ghost start = models_of(g.constraints@);
    emit_width_constraint(g, decls, i);
    proof {
        assert(models_of(g.constraints@) == start + spec_width_models(decls@, i as int));
    }
    emit_height_constraint(g, decls, i);
    proof {
        assert(models_of(g.constraints@) =~= start + spec_width_models(decls@, i as int)
            + spec_height_models(decls@, i as int));
    }
}

/// Emit the width constraint of one element.
fn emit_width_constraint(g: &mut Graph, decls: &Vec<LayoutDecl>, i: usize)
    requires
        old(g).wf(),
        i < decls@.len(),
        decls@.len() * 4 <= usize::MAX,
        old(g).vars@.len() == 4 * decls@.len(),
        forall|a: int, b: int| 0 <= a < b < decls@.len() ==> decls@[a].tag != decls@[b].tag,
    ensures
        final(g).wf(),
        final(g).vars@ == old(g).vars@,
        models_of(final(g).constraints@) == models_of(old(g).constraints@) + spec_width_models(
            decls@,
            i as int,
        ),
{
    let ghost start = models_of(g.constraints@);
    let n = decls.len();
    let d = &decls[i];
    let w_var = i * 4 + 2;
    match d.layout.width {
        SizeConstraint::Fixed(v) => {
            push_constraint(g, Constraint::Fixed { target: w_var, value: v });
        },
        SizeConstraint::Fill => {
            match d.parent {
                Some(pt) => {
                    match decl_index_of(decls, pt) {
                        Some(p) => {
                            let (src, inset) = fill_source(decls, p, true);
                            push_constraint(
                                g,
                                Constraint::Offset {
                                    target: w_var,
                                    source: src * 4 + 2,
                                    offset: -inset,
                                },
                            );
                        },
                        None => {
                            push_constraint(g, Constraint::Fixed { target: w_var, value: 0 });
                        },
                    }
                },
                None => {
                    push_constraint(g, Constraint::Fixed { target: w_var, value: 0 });
                },
            }
        },
        SizeConstraint::Hug => {
            let children = children_of(decls, d.tag);
            let widths = attr_vars(&children, 2, n);
            let m = children.len();
            let pad = pad_h(&d.layout.padding);
            match d.layout.layout_mode {
                Some(LayoutMode::Row { spacing, .. }) => {
                    let gaps: i128 = if m == 0 {
                        0
                    } else {
                        gap_total(m - 1, spacing)
                    };
                    let offset = clamp_wide(gaps + pad as i128);
                    push_constraint(g, Constraint::Sum { target: w_var, sources: widths, offset });
                },
                Some(LayoutMode::Grid { columns, spacing }) => {
                    let cols: usize = if columns == 0 {
                        1
                    } else {
                        columns
                    };
                    let gaps: i128 = gap_total(cols - 1, spacing);
                    let offset = clamp_wide(gaps + pad as i128);
                    let factor = clamp_wide(cols as i128);
                    push_constraint(
                        g,
                        Constraint::MaxPlus { target: w_var, sources: widths, factor, offset },
                    );
                },
                _ => {
                    push_constraint(
                        g,
                        Constraint::MaxPlus {
                            target: w_var,
                            sources: widths,
                            factor: 1,
                            offset: pad,
                        },
                    );
                },
            }
        },
    }
    proof {
        assert(models_of(g.constraints@) =~= start + spec_width_models(decls@, i as int));
    }
}

/// Emit the height constraint of one element.
fn emit_height_constraint(g: &mut Graph, decls: &Vec<LayoutDecl>, i: usize)
    requires
        old(g).wf(),
        i < decls@.len(),
        decls@.len() * 4 <= usize::MAX,
        old(g).vars@.len() == 4 * decls@.len(),
        forall|a: int, b: int| 0 <= a < b < decls@.len() ==> decls@[a].tag != decls@[b].tag,
    ensures
        final(g).wf(),
        final(g).vars@ == old(g).vars@,
        models_of(final(g).constraints@) == models_of(old(g).constraints@) + spec_height_models(
            decls@,
            i as int,
        ),
{
    let ghost start = models_of(g.constraints@);
    let n = decls.len();
    let d = &decls[i];
    let h_var = i * 4 + 3;
    match d.layout.height {
        SizeConstraint::Fixed(v) => {
            push_constraint(g, Constraint::Fixed { target: h_var, value: v });
        },
        SizeConstraint::Fill => {
            match d.parent {
                Some(pt) => {
                    match decl_index_of(decls, pt) {
                        Some(p) => {
                            let (src, inset) = fill_source(decls, p, false);
                            push_constraint(
                                g,
                                Constraint::Offset {
                                    target: h_var,
                                    source: src * 4 + 3,
                                    offset: -inset,
                                },
                            );
                        },
                        None => {
                            push_constraint(g, Constraint::Fixed { target: h_var, value: 0 });
                        },
                    }
                },
                None => {
                    push_constraint(g, Constraint::Fixed { target: h_var, value: 0 });
                },
            }
        },
        SizeConstraint::Hug => {
            let children = children_of(decls, d.tag);
            let heights = attr_vars(&children, 3, n);
            let m = children.len();
            let pad = pad_v(&d.layout.padding);
            match d.layout.layout_mode {
                Some(LayoutMode::Column { spacing, .. }) => {
                    let gaps: i128 = if m == 0 {
                        0
                    } else {
                        gap_total(m - 1, spacing)
                    };
                    let offset = clamp_wide(gaps + pad as i128);
                    push_constraint(
                        g,
                        Constraint::Sum { target: h_var, sources: heights, offset },
                    );
                },
                Some(LayoutMode::Grid { columns, spacing }) => {
                    let cols: usize = if columns == 0 {
                        1
                    } else {
                        columns
                    };
                    let rows: usize = if m == 0 {
                        0
                    } else {
                        (m - 1) / cols + 1
                    };
                    let gaps: i128 = if rows == 0 {
                        0
                    } else {
                        gap_total(rows - 1, spacing)
                    };
                    let offset = clamp_wide(gaps + pad as i128);
                    let factor = clamp_wide(rows as i128);
                    push_constraint(
                        g,
                        Constraint::MaxPlus { target: h_var, sources: heights, factor, offset },
                    );
                },
                _ => {
                    push_constraint(
                        g,
                        Constraint::MaxPlus {
                            target: h_var,
                            sources: heights,
                            factor: 1,
                            offset: pad,
                        },
                    );
                },
            }
        },
    }
    proof {
        assert(models_of(g.constraints@) =~= start + spec_height_models(decls@, i as int));
    }
}

/// Emit the position constraints of one element.
fn emit_position_constraints(g: &mut Graph, decls: &Vec<LayoutDecl>, i: usize)
    requires
        old(g).wf(),
        i < decls@.len(),
        decls@.len() * 4 <= usize::MAX,
        old(g).vars@.len() == 4 * decls@.len(),
        forall|a: int, b: int| 0 <= a < b < decls@.len() ==> decls@[a].tag != decls@[b].tag,
    ensures
        final(g).wf(),
        final(g).vars@ == old(g).vars@,
        models_of(final(g).constraints@) == models_of(old(g).constraints@)
            + spec_position_models(decls@, i as int),
{
    let ghost start = models_of(g.constraints@);
    let n = decls.len();
    let d = &decls[i];
    let x_var = i * 4;
    let y_var = i * 4 + 1;
    let pt = match d.parent {
        Some(pt) => pt,
        None => {
            push_constraint(g, Constraint::Fixed { target: x_var, value: d.position.x });
            push_constraint(g, Constraint::Fixed { target: y_var, value: d.position.y });
            proof {
                assert(models_of(g.constraints@) =~= start + spec_position_models(
                    decls@,
                    i as int,
                ));
            }
            return;
        },
    };
    let p = match decl_index_of(decls, pt) {
        Some(p) => p,
        None => {
            push_constraint(g, Constraint::Fixed { target: x_var, value: d.position.x });
            push_constraint(g, Constraint::Fixed { target: y_var, value: d.position.y });
            proof {
                assert(models_of(g.constraints@) =~= start + spec_position_models(
                    decls@,
                    i as int,
                ));
            }
            return;
        },
    };
    let mode = match decls[p].layout.layout_mode {
        Some(m) => m,
        None => {
            push_constraint(g, Constraint::Fixed { target: x_var, value: d.position.x });
            push_constraint(g, Constraint::Fixed { target: y_var, value: d.position.y });
            proof {
                assert(models_of(g.constraints@) =~= start + spec_position_models(
                    decls@,
                    i as int,
                ));
            }
            return;
        },
    };
    let (ord, prev) = stack_ordinal(decls, pt, i);
    match mode {
        LayoutMode::Column { spacing, align } => {
            if ord == 0 {
                push_constraint(g, Constraint::Fixed { target: y_var, value: 0 });
            } else {
                push_constraint(
                    g,
                    Constraint::SumTwo {
                        target: y_var,
                        a: prev * 4 + 1,
                        b: prev * 4 + 3,
                        offset: spacing,
                    },
                );
            }
            emit_cross_alignment(g, align, x_var, p * 4 + 2, i * 4 + 2, pad_h(
                &decls[p].layout.padding,
            ));
        },
        LayoutMode::Row { spacing, align } => {
            if ord == 0 {
                push_constraint(g, Constraint::Fixed { target: x_var, value: 0 });
            } else {
                push_constraint(
                    g,
                    Constraint::SumTwo {
                        target: x_var,
                        a: prev * 4,
                        b: prev * 4 + 2,
                        offset: spacing,
                    },
                );
            }
            emit_cross_alignment(g, align, y_var, p * 4 + 3, i * 4 + 3, pad_v(
                &decls[p].layout.padding,
            ));
        },
        LayoutMode::Grid { columns, spacing } => {
            let cols: usize = if columns == 0 {
                1
            } else {
                columns
            };
            let col = ord % cols;
            let row = ord / cols;
            let siblings = children_of(decls, pt);
            let widths = attr_vars(&siblings, 2, n);
            let heights = attr_vars(&siblings, 3, n);
            push_constraint(
                g,
                Constraint::MaxPlus {
                    target: x_var,
                    sources: widths,
                    factor: clamp_wide(col as i128),
                    offset: clamp_wide(gap_total(col, spacing)),
                },
            );
            push_constraint(
                g,
                Constraint::MaxPlus {
                    target: y_var,
                    sources: heights,
                    factor: clamp_wide(row as i128),
                    offset: clamp_wide(gap_total(row, spacing)),
                },
            );
        },
    }
    proof {
        assert(models_of(g.constraints@) =~= start + spec_position_models(decls@, i as int));
    }
}

/// Emit the cross-axis constraints of one stacked child.
fn emit_cross_alignment(
    g: &mut Graph,
    align: Alignment,
    pos_var: usize,
    parent_size_var: usize,
    child_size_var: usize,
    pad: Coord,
)
    requires
        old(g).wf(),
        pos_var < old(g).vars@.len(),
        parent_size_var < old(g).vars@.len(),
        child_size_var < old(g).vars@.len(),
        crate::geom::in_domain(pad as int),
    ensures
        final(g).wf(),
        final(g).vars@ == old(g).vars@,
        models_of(final(g).constraints@) == models_of(old(g).constraints@) + spec_cross_models(
            align,
            pos_var as int,
            parent_size_var as int,
            child_size_var as int,
            pad as int,
        ),
{
    let ghost start = models_of(g.constraints@);
    match align {
        Alignment::Start => {
            push_constraint(g, Constraint::Fixed { target: pos_var, value: 0 });
        },
        Alignment::Center => {
            push_constraint(
                g,
                Constraint::Center {
                    target: pos_var,
                    outer: parent_size_var,
                    inner: child_size_var,
                    inset: pad,
                },
            );
        },
        Alignment::End => {
            push_constraint(
                g,
                Constraint::Diff {
                    target: pos_var,
                    a: parent_size_var,
                    b: child_size_var,
                    offset: -pad,
                },
            );
        },
        Alignment::Stretch => {
            push_constraint(g, Constraint::Fixed { target: pos_var, value: 0 });
            push_constraint(
                g,
                Constraint::Offset {
                    target: child_size_var,
                    source: parent_size_var,
                    offset: -pad,
                },
            );
        },
    }
    proof {
        assert(models_of(g.constraints@) =~= start + spec_cross_models(
            align,
            pos_var as int,
            parent_size_var as int,
            child_size_var as int,
            pad as int,
        ));
    }
}

} // verus!
