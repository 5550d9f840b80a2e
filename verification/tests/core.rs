use origin::batch::{coalesce_batches, coalesce_writes, sort_offsets, DrawItem, PrimitiveKind};
use origin::constraint::{AttrKind, Constraint, ConstructionError, Graph};
use origin::coordinate::CoordStack;
use origin::diff::{diff, CacheEntry, FrameCache};
use origin::dirty_rect::merge_regions;
use origin::geom::{Point, Rect, UNITS_PER_PIXEL};
use origin::ir::{
    Alignment, Color, Fill, LayoutMode, LayoutProperties, Padding, SizeConstraint, Transform,
    VisualProperties,
};
use origin::layout::{build, LayoutDecl};
use origin::solver::{DEFAULT_MAX_ITERATIONS, DEFAULT_TOLERANCE};
use origin::state_hash::{fingerprint, InstanceRecord};
use origin::input::{InputEvent, InputState, MouseButton};
use origin::adapter::{AdapterError, AdapterSource, DesignAdapter, FigmaAdapter};
use origin::tag::{extract_id, extract_type, make_tag, TagAllocator};

const PX: i64 = UNITS_PER_PIXEL;

fn zero_padding() -> Padding {
    Padding { top: 0, right: 0, bottom: 0, left: 0 }
}

fn fixed_layout(w: i64, h: i64) -> LayoutProperties {
    LayoutProperties {
        width: SizeConstraint::Fixed(w),
        height: SizeConstraint::Fixed(h),
        padding: zero_padding(),
        layout_mode: None,
    }
}

fn decl(tag: u64, parent: Option<u64>, layout: LayoutProperties) -> LayoutDecl {
    LayoutDecl { tag, parent, position: Point { x: 0, y: 0 }, layout }
}

fn plain_visual() -> VisualProperties {
    VisualProperties {
        fill: Some(Fill::Solid(Color { r: 10, g: 20, b: 30, a: 255 })),
        stroke: None,
        corner_radii: None,
        effects: Vec::new(),
        opacity: 255,
    }
}

fn record_at(x: i64, y: i64) -> InstanceRecord {
    InstanceRecord {
        transform: Transform {
            position: Point { x, y },
            rotation: 0,
            scale: Point { x: PX, y: PX },
        },
        visual: plain_visual(),
    }
}

#[test]
fn tag_round_trip() {
    let t = make_tag(7, 42);
    assert_eq!(extract_type(t), 7);
    assert_eq!(extract_id(t), 42);
    assert_eq!(t, (7u64 << 32) | 42u64);
}

#[test]
fn tag_allocator_counts_per_type() {
    let mut alloc = TagAllocator::new();
    let a = alloc.allocate(1).unwrap();
    let b = alloc.allocate(1).unwrap();
    let c = alloc.allocate(2).unwrap();
    assert_eq!(extract_id(a), 0);
    assert_eq!(extract_id(b), 1);
    assert_eq!(extract_type(c), 2);
    assert_eq!(extract_id(c), 0);
}

fn column_of_three() -> Vec<LayoutDecl> {
    let container = make_tag(1, 0);
    let mut column_layout = fixed_layout(100 * PX, 100 * PX);
    column_layout.layout_mode =
        Some(LayoutMode::Column { spacing: 5 * PX, align: Alignment::Start });
    let mut decls = Vec::new();
    decls.push(decl(container, None, column_layout));
    for i in 0..3u32 {
        decls.push(decl(make_tag(2, i), Some(container), fixed_layout(10 * PX, 10 * PX)));
    }
    decls
}

#[test]
fn column_stacks_children() {
    // Three fixed-height-10 children, spacing 5, content origin at y = 0:
    // the children resolve to y positions 0, 15 and 30.
    let decls = column_of_three();
    let g = build(&decls).unwrap();
    let r = g.solve(DEFAULT_MAX_ITERATIONS, DEFAULT_TOLERANCE);
    assert!(r.converged);
    let ys: Vec<i64> = (0..3u32)
        .map(|i| r.values[g.var_index(make_tag(2, i), AttrKind::Y).unwrap()])
        .collect();
    assert_eq!(ys, vec![0, 15 * PX, 30 * PX]);
}

#[test]
fn solve_is_deterministic() {
    // Same graph, same construction order: bit-identical outcomes.
    let decls = column_of_three();
    let g = build(&decls).unwrap();
    let a = g.solve(DEFAULT_MAX_ITERATIONS, DEFAULT_TOLERANCE);
    let b = g.solve(DEFAULT_MAX_ITERATIONS, DEFAULT_TOLERANCE);
    assert_eq!(a.values, b.values);
    assert_eq!(a.converged, b.converged);
    assert_eq!(a.residual, b.residual);
}

#[test]
fn hug_column_with_fill_child_converges() {
    // A hug-height Column with one fill-height child inside a fixed
    // 100-pixel outer container: the child ends up 100 pixels minus the
    // Column's own vertical padding.
    let outer = make_tag(1, 0);
    let column = make_tag(1, 1);
    let child = make_tag(2, 0);
    let mut decls = Vec::new();
    decls.push(decl(outer, None, fixed_layout(100 * PX, 100 * PX)));
    let column_layout = LayoutProperties {
        width: SizeConstraint::Fixed(50 * PX),
        height: SizeConstraint::Hug,
        padding: Padding { top: 10 * PX, right: 0, bottom: 10 * PX, left: 0 },
        layout_mode: Some(LayoutMode::Column { spacing: 0, align: Alignment::Start }),
    };
    decls.push(decl(column, Some(outer), column_layout));
    let child_layout = LayoutProperties {
        width: SizeConstraint::Fixed(50 * PX),
        height: SizeConstraint::Fill,
        padding: zero_padding(),
        layout_mode: None,
    };
    decls.push(decl(child, Some(column), child_layout));
    let g = build(&decls).unwrap();
    let r = g.solve(DEFAULT_MAX_ITERATIONS, DEFAULT_TOLERANCE);
    assert!(r.converged);
    let child_h = r.values[g.var_index(child, AttrKind::Height).unwrap()];
    let column_h = r.values[g.var_index(column, AttrKind::Height).unwrap()];
    assert!((child_h - (100 * PX - 20 * PX)).abs() <= DEFAULT_TOLERANCE);
    assert!((column_h - 100 * PX).abs() <= DEFAULT_TOLERANCE);
}

#[test]
fn iteration_cap_yields_partial_result() {
    // A divergent pair of constraints never meets the tolerance: the
    // solver still returns its best values, with the residual reported.
    let mut g = Graph::new();
    let x = g.add_variable(make_tag(1, 0), AttrKind::X, 0, false);
    let y = g.add_variable(make_tag(1, 0), AttrKind::Y, 0, false);
    g.add_constraint(Constraint::Offset { target: x, source: y, offset: PX }).unwrap();
    g.add_constraint(Constraint::Offset { target: y, source: x, offset: PX }).unwrap();
    let r = g.solve(8, DEFAULT_TOLERANCE);
    assert!(!r.converged);
    assert!(r.residual > DEFAULT_TOLERANCE);
    assert_eq!(r.values.len(), 2);
}

#[test]
fn construction_errors_are_surfaced() {
    let t = make_tag(1, 0);
    let dup = vec![decl(t, None, fixed_layout(PX, PX)), decl(t, None, fixed_layout(PX, PX))];
    assert_eq!(build(&dup).unwrap_err(), ConstructionError::DuplicateTag(t));
    let orphan = vec![decl(t, Some(make_tag(9, 9)), fixed_layout(PX, PX))];
    assert_eq!(build(&orphan).unwrap_err(), ConstructionError::UnknownTag(make_tag(9, 9)));
    let mut g = Graph::new();
    let x = g.add_variable(t, AttrKind::X, 0, false);
    let bad = g.add_constraint(Constraint::Offset { target: x, source: 5, offset: 0 });
    assert_eq!(bad.unwrap_err(), ConstructionError::InvalidReference);
}

#[test]
fn coordinate_stack_nests_and_unwinds() {
    let mut stack = CoordStack::new();
    stack.push(Point { x: 10 * PX, y: 20 * PX }, zero_padding());
    stack.push(
        Point { x: PX, y: PX },
        Padding { top: 2 * PX, right: 0, bottom: 0, left: 3 * PX },
    );
    let p = stack.to_absolute(Point { x: 0, y: 0 });
    assert_eq!((p.x, p.y), (14 * PX, 23 * PX));
    assert!(stack.pop().is_some());
    let q = stack.to_absolute(Point { x: 0, y: 0 });
    assert_eq!((q.x, q.y), (10 * PX, 20 * PX));
    assert!(stack.pop().is_some());
    assert!(stack.pop().is_none());
}

#[test]
fn quantization_hides_subvisual_jitter() {
    // Two records whose positions differ by a delta far below the
    // 1/16-pixel step fingerprint identically.
    let a = record_at(1000 * 64, 2000 * 64);
    let b = record_at(1000 * 64 + 1, 2000 * 64 + 1);
    assert_eq!(fingerprint(&a), fingerprint(&b));
}

#[test]
fn fingerprint_sees_visible_changes() {
    let a = record_at(0, 0);
    let moved = record_at(64 * PX, 0);
    assert_ne!(fingerprint(&a), fingerprint(&moved));
    let mut dimmed = record_at(0, 0);
    dimmed.visual.opacity = 128;
    assert_ne!(fingerprint(&a), fingerprint(&dimmed));
}

#[test]
fn diff_on_identical_frames_is_empty() {
    // Idempotence: the same instances with unchanged fingerprints give
    // empty Added, Removed and Modified classes.
    let prev = vec![
        CacheEntry { tag: 1, fingerprint: 11, slot: 0 },
        CacheEntry { tag: 2, fingerprint: 22, slot: 1 },
    ];
    let cur = vec![(1u64, 11u64), (2u64, 22u64)];
    let d = diff(&prev, &cur);
    assert!(d.added.is_empty());
    assert!(d.removed.is_empty());
    assert!(d.modified.is_empty());
    assert_eq!(d.unchanged, vec![1, 2]);
}

#[test]
fn diff_classifies_every_tag() {
    let prev = vec![
        CacheEntry { tag: 1, fingerprint: 11, slot: 0 },
        CacheEntry { tag: 2, fingerprint: 22, slot: 1 },
        CacheEntry { tag: 3, fingerprint: 33, slot: 2 },
    ];
    let cur = vec![(2u64, 99u64), (3u64, 33u64), (4u64, 44u64)];
    let d = diff(&prev, &cur);
    assert_eq!(d.added, vec![4]);
    assert_eq!(d.removed, vec![1]);
    assert_eq!(d.modified, vec![2]);
    assert_eq!(d.unchanged, vec![3]);
}

#[test]
fn removed_slot_is_reused_before_growth() {
    // A removed tag frees its slot; the next added tag takes it before
    // the buffer's high-water mark moves.
    let empty = FrameCache::new(16);
    let first = empty.apply(&vec![(1u64, 11u64), (2u64, 22u64)]).unwrap();
    assert_eq!(first.capacity, 2);
    let slot_of_2 = first.entries.iter().find(|e| e.tag == 2).unwrap().slot;
    // Tag 2 leaves, tag 3 arrives.
    let second = first.apply(&vec![(1u64, 11u64), (3u64, 33u64)]).unwrap();
    assert_eq!(second.capacity, 2, "capacity must not grow while a slot is free");
    let slot_of_3 = second.entries.iter().find(|e| e.tag == 3).unwrap().slot;
    assert_eq!(slot_of_3, slot_of_2);
    let slot_of_1 = second.entries.iter().find(|e| e.tag == 1).unwrap().slot;
    assert_ne!(slot_of_1, slot_of_3);
}

#[test]
fn capacity_growth_is_requested_when_full() {
    let empty = FrameCache::new(1);
    let one = empty.apply(&vec![(1u64, 11u64)]).unwrap();
    let overflow = one.apply(&vec![(1u64, 11u64), (2u64, 22u64)]);
    assert_eq!(overflow.unwrap_err().tag, 2);
}

#[test]
fn contiguous_offsets_collapse_into_one_write() {
    // Five contiguous instances make one write; a sixth far away makes a
    // second, separate one.
    let stride = 64u64;
    let five = sort_offsets(vec![128, 0, 192, 64, 256]);
    let writes = coalesce_writes(&five, stride, 0);
    assert_eq!(writes.len(), 1);
    assert_eq!(writes[0].offset, 0);
    assert_eq!(writes[0].len, 320);
    let six = sort_offsets(vec![128, 0, 192, 64, 256, 100_000]);
    let writes = coalesce_writes(&six, stride, 0);
    assert_eq!(writes.len(), 2);
    assert_eq!(writes[1].offset, 100_000);
    assert_eq!(writes[1].len, 64);
}

#[test]
fn small_gaps_merge_within_threshold() {
    let offsets = sort_offsets(vec![0, 100]);
    let apart = coalesce_writes(&offsets, 64, 16);
    assert_eq!(apart.len(), 2);
    let merged = coalesce_writes(&offsets, 64, 36);
    assert_eq!(merged.len(), 1);
    assert_eq!(merged[0].len, 164);
}

#[test]
fn draw_batches_preserve_paint_order() {
    let items = vec![
        DrawItem { primitive: PrimitiveKind::RoundedRect, material: 1, slot: 0 },
        DrawItem { primitive: PrimitiveKind::RoundedRect, material: 1, slot: 1 },
        DrawItem { primitive: PrimitiveKind::Text, material: 2, slot: 2 },
        DrawItem { primitive: PrimitiveKind::RoundedRect, material: 1, slot: 3 },
    ];
    let batches = coalesce_batches(&items);
    assert_eq!(batches.len(), 3, "an interleaved state change must split batches");
    assert_eq!((batches[0].start, batches[0].count), (0, 2));
    assert_eq!((batches[1].start, batches[1].count), (2, 1));
    assert_eq!((batches[2].start, batches[2].count), (3, 1));
}

#[test]
fn input_state_tracks_pointer() {
    let mut state = InputState::new();
    state.update(&InputEvent::MouseMove { x: 3 * PX, y: 4 * PX });
    assert_eq!((state.mouse_pos.x, state.mouse_pos.y), (3 * PX, 4 * PX));
    state.update(&InputEvent::MouseDown { button: MouseButton::Left, x: 3 * PX, y: 4 * PX });
    assert!(state.is_pressed(MouseButton::Left));
    assert!(!state.is_pressed(MouseButton::Right));
    state.update(&InputEvent::MouseUp { button: MouseButton::Left, x: 3 * PX, y: 4 * PX });
    assert!(!state.is_pressed(MouseButton::Left));
    state.update(&InputEvent::Scroll { delta_x: PX, delta_y: 0 });
    assert_eq!((state.mouse_pos.x, state.mouse_pos.y), (3 * PX, 4 * PX));
}

#[test]
fn figma_adapter_declines_parsing_for_now() {
    let adapter = FigmaAdapter::new();
    let parsed = adapter.parse(AdapterSource::Data(vec![1, 2, 3]));
    assert!(matches!(parsed, Err(AdapterError::UnsupportedFeature(_))));
    assert!(adapter.supports_hot_reload());
    let _with = FigmaAdapter::with_token(String::from("token"));
}

#[test]
fn dirty_rects_union_and_touch() {
    let a = Rect { x0: 0, y0: 0, x1: 10 * PX, y1: 10 * PX };
    let b = Rect { x0: 5 * PX, y0: 5 * PX, x1: 20 * PX, y1: 8 * PX };
    let far = Rect { x0: 100 * PX, y0: 100 * PX, x1: 110 * PX, y1: 110 * PX };
    assert!(a.touches(&b));
    assert!(!a.touches(&far));
    let u = a.union(&b);
    assert_eq!((u.x0, u.y0, u.x1, u.y1), (0, 0, 20 * PX, 10 * PX));
}

#[test]
fn dirty_regions_merge_into_disjoint_cover() {
    let a = Rect { x0: 0, y0: 0, x1: 10 * PX, y1: 10 * PX };
    let b = Rect { x0: 5 * PX, y0: 5 * PX, x1: 20 * PX, y1: 8 * PX };
    let far = Rect { x0: 100 * PX, y0: 100 * PX, x1: 110 * PX, y1: 110 * PX };
    let bridge = Rect { x0: 15 * PX, y0: 0, x1: 105 * PX, y1: 105 * PX };
    let merged = merge_regions(&vec![a, b, far]);
    assert_eq!(merged.len(), 2, "overlapping boxes must merge, distant ones must not");
    assert_eq!(merged[0], Rect { x0: 0, y0: 0, x1: 20 * PX, y1: 10 * PX });
    assert_eq!(merged[1], far);
    // A box touching both previously separate regions pulls them together.
    let merged = merge_regions(&vec![a, b, far, bridge]);
    assert_eq!(merged.len(), 1);
    assert_eq!(merged[0], Rect { x0: 0, y0: 0, x1: 110 * PX, y1: 110 * PX });
    let merged = merge_regions(&vec![]);
    assert!(merged.is_empty());
}

#[test]
fn adapter_token_and_default() {
    let d = <FigmaAdapter as Default>::default();
    let parsed = d.parse(AdapterSource::FilePath(String::from("design.fig")));
    match parsed {
        Err(AdapterError::UnsupportedFeature(m)) => {
            assert_eq!(m, "Figma parsing not yet implemented");
        }
        _ => panic!("parsing must decline with the diagnostic message"),
    }
}

#[test]
fn rebuilt_description_solves_identically() {
    // Building the same description twice gives the same graph, so the
    // same resolved values.
    let decls = column_of_three();
    let g1 = build(&decls).unwrap();
    let g2 = build(&decls).unwrap();
    assert_eq!(g1, g2);
    let a = g1.solve(DEFAULT_MAX_ITERATIONS, DEFAULT_TOLERANCE);
    let b = g2.solve(DEFAULT_MAX_ITERATIONS, DEFAULT_TOLERANCE);
    assert_eq!(a.values, b.values);
}
