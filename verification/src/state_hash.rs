//! The state hasher: a stable fingerprint of everything visually
//! observable about one resolved instance. Numeric fields are quantized to
//! a fixed global step (1/16 px, and the 1/255 color step that the 8-bit
//! channels already have) before hashing, so jitter below visual
//! significance never shows up as a change. The tag is the lookup key, not
//! part of the hash.

use vstd::prelude::*;
use crate::geom::{Coord, COORD_LIMIT, QUANT_STEP, in_domain};
use crate::ir::{Color, ColorStop, CornerRadii, Effect, Fill, Stroke, StrokeCap, StrokeJoin,
    Transform, VisualProperties};

verus! {

/// A fixed-width fingerprint of one instance's visible state.
pub type Fingerprint = u64;

/// The fold's starting value.
pub const HASH_SEED: u64 = 0xcbf2_9ce4_8422_2325;

/// The fold's multiplier.
pub const HASH_PRIME: u64 = 0x0000_0100_0000_01b3;

/// The quantization bucket of a coordinate: the domain shifted to start
/// at zero, then divided by the step. Values closer together than the
/// step land in the same or an adjacent bucket; equal buckets hash alike.
pub open spec fn spec_quant(v: int) -> int {
    (v + COORD_LIMIT) / (QUANT_STEP as int)
}

/// Quantize one coordinate.
pub fn quantize(v: Coord) -> (q: u64)
    requires
        in_domain(v as int),
    ensures
        q == spec_quant(v as int),
{
    ((v + COORD_LIMIT) as u64) / (QUANT_STEP as u64)
}

/// One fold step: xor the word in, multiply, keep the low 64 bits.
pub open spec fn spec_mix(h: u64, w: u64) -> u64 {
    (((h ^ w) as int * HASH_PRIME as int) % 0x1_0000_0000_0000_0000) as u64
}

/// Mix one word into the running hash.
pub fn mix(h: u64, w: u64) -> (r: u64)
    ensures
        r == spec_mix(h, w),
{
    let x = h ^ w;
    proof {
        assert(x as int * HASH_PRIME as int <= 0xFFFF_FFFF_FFFF_FFFF_FFFF_FFFF_FFFF_FFFF)
            by (nonlinear_arith)
            requires 0 <= x as int <= 0xFFFF_FFFF_FFFF_FFFF;
    }
    ((x as u128 * HASH_PRIME as u128) % 0x1_0000_0000_0000_0000) as u64
}

/// The hash of the first `n` words, folded left from the seed.
pub open spec fn spec_hash_prefix(ws: Seq<u64>, n: int) -> u64
    decreases n,
{
    if n <= 0 {
        HASH_SEED
    } else {
        spec_mix(spec_hash_prefix(ws, n - 1), ws[n - 1])
    }
}

/// The hash of a word sequence.
pub open spec fn spec_hash_words(ws: Seq<u64>) -> u64 {
    spec_hash_prefix(ws, ws.len() as int)
}

/// Fold a word list into a hash.
pub fn hash_words(ws: &Vec<u64>) -> (r: u64)
    ensures
        r == spec_hash_words(ws@),
{
    let mut h = HASH_SEED;
    let mut i: usize = 0;
    while i < ws.len()
        invariant
            i <= ws@.len(),
            h == spec_hash_prefix(ws@, i as int),
        decreases ws@.len() - i,
    {
        h = mix(h, ws[i]);
        i += 1;
    }
    h
}

/// A color packed into one word, one byte per channel.
pub open spec fn spec_color_word(c: Color) -> u64 {
    (c.r as int * 0x100_0000 + c.g as int * 0x1_0000 + c.b as int * 0x100 + c.a as int) as u64
}

/// Pack a color into one word.
pub fn color_word(c: &Color) -> (w: u64)
    ensures
        w == spec_color_word(*c),
{
    c.r as u64 * 0x100_0000 + c.g as u64 * 0x1_0000 + c.b as u64 * 0x100 + c.a as u64
}

/// The word of a stroke cap.
pub open spec fn spec_cap_word(c: StrokeCap) -> u64 {
    match c {
        StrokeCap::Butt => 0u64,
        StrokeCap::Round => 1u64,
        StrokeCap::Square => 2u64,
    }
}

/// The word of a stroke join.
pub open spec fn spec_join_word(j: StrokeJoin) -> u64 {
    match j {
        StrokeJoin::Miter => 0u64,
        StrokeJoin::Round => 1u64,
        StrokeJoin::Bevel => 2u64,
    }
}

/// The resolved, frame-final state of one tag: its absolute transform and
/// its visual attributes. Produced once per tag per frame.
#[derive(Clone, PartialEq, Eq, Debug)]
pub struct InstanceRecord {
    /// Absolute transform from the solver.
    pub transform: Transform,
    /// Visual attributes passed through from the description.
    pub visual: VisualProperties,
}

/// Every coordinate of the transform lies in the coordinate domain.
pub open spec fn transform_wf(t: Transform) -> bool {
    &&& in_domain(t.position.x as int) && in_domain(t.position.y as int)
    &&& in_domain(t.rotation as int)
    &&& in_domain(t.scale.x as int) && in_domain(t.scale.y as int)
}

/// Every coordinate of the fill lies in the coordinate domain.
pub open spec fn fill_wf(f: Option<Fill>) -> bool {
    match f {
        Option::None => true,
        Option::Some(Fill::Solid(_)) => true,
        Option::Some(Fill::LinearGradient(lg)) => in_domain(lg.start.x as int)
            && in_domain(lg.start.y as int) && in_domain(lg.end.x as int)
            && in_domain(lg.end.y as int)
            && forall|i: int|
            0 <= i < lg.stops@.len() ==> in_domain((#[trigger] lg.stops@[i]).position as int),
        Option::Some(Fill::RadialGradient(rg)) => in_domain(rg.center.x as int)
            && in_domain(rg.center.y as int) && in_domain(rg.radius as int)
            && forall|i: int|
            0 <= i < rg.stops@.len() ==> in_domain((#[trigger] rg.stops@[i]).position as int),
    }
}

/// Every coordinate of one effect lies in the coordinate domain.
pub open spec fn effect_wf(e: Effect) -> bool {
    match e {
        Effect::DropShadow { offset, blur, .. } => in_domain(offset.x as int)
            && in_domain(offset.y as int) && in_domain(blur as int),
        Effect::InnerShadow { offset, blur, .. } => in_domain(offset.x as int)
            && in_domain(offset.y as int) && in_domain(blur as int),
        Effect::Blur { radius } => in_domain(radius as int),
    }
}

/// Every numeric field of the record lies in the coordinate domain: the
/// shape every record produced by the solver and the description has.
pub open spec fn record_wf(rec: InstanceRecord) -> bool {
    &&& transform_wf(rec.transform)
    &&& fill_wf(rec.visual.fill)
    &&& match rec.visual.stroke {
        Option::None => true,
        Option::Some(s) => in_domain(s.width as int),
    }
    &&& match rec.visual.corner_radii {
        Option::None => true,
        Option::Some(r) => in_domain(r.top_left as int) && in_domain(r.top_right as int)
            && in_domain(r.bottom_right as int) && in_domain(r.bottom_left as int),
    }
    &&& forall|i: int|
        0 <= i < rec.visual.effects@.len() ==> effect_wf(#[trigger] rec.visual.effects@[i])
}

/// The quantized words of the transform.
pub open spec fn spec_transform_words(t: Transform) -> Seq<u64> {
    seq![
        spec_quant(t.position.x as int) as u64,
        spec_quant(t.position.y as int) as u64,
        spec_quant(t.rotation as int) as u64,
        spec_quant(t.scale.x as int) as u64,
        spec_quant(t.scale.y as int) as u64,
    ]
}

/// The words of one gradient stop.
pub open spec fn spec_stop_words(s: ColorStop) -> Seq<u64> {
    seq![spec_quant(s.position as int) as u64, spec_color_word(s.color)]
}

/// The words of the first `n` gradient stops.
pub open spec fn spec_stops_words(ss: Seq<ColorStop>, n: int) -> Seq<u64>
    decreases n,
{
    if n <= 0 {
        Seq::empty()
    } else {
        spec_stops_words(ss, n - 1) + spec_stop_words(ss[n - 1])
    }
}

/// The words of the fill, a leading word telling the kinds apart.
pub open spec fn spec_fill_words(f: Option<Fill>) -> Seq<u64> {
    match f {
        Option::None => seq![0u64],
        Option::Some(Fill::Solid(c)) => seq![1u64, spec_color_word(c)],
        Option::Some(Fill::LinearGradient(lg)) => seq![
            2u64,
            spec_quant(lg.start.x as int) as u64,
            spec_quant(lg.start.y as int) as u64,
            spec_quant(lg.end.x as int) as u64,
            spec_quant(lg.end.y as int) as u64,
            lg.stops@.len() as u64,
        ] + spec_stops_words(lg.stops@, lg.stops@.len() as int),
        Option::Some(Fill::RadialGradient(rg)) => seq![
            3u64,
            spec_quant(rg.center.x as int) as u64,
            spec_quant(rg.center.y as int) as u64,
            spec_quant(rg.radius as int) as u64,
            rg.stops@.len() as u64,
        ] + spec_stops_words(rg.stops@, rg.stops@.len() as int),
    }
}

/// The words of the stroke.
pub open spec fn spec_stroke_words(s: Option<Stroke>) -> Seq<u64> {
    match s {
        Option::None => seq![0u64],
        Option::Some(st) => seq![
            1u64,
            spec_color_word(st.color),
            spec_quant(st.width as int) as u64,
            spec_cap_word(st.cap),
            spec_join_word(st.join),
        ],
    }
}

/// The words of the corner radii.
pub open spec fn spec_radii_words(r: Option<CornerRadii>) -> Seq<u64> {
    match r {
        Option::None => seq![0u64],
        Option::Some(cr) => seq![
            1u64,
            spec_quant(cr.top_left as int) as u64,
            spec_quant(cr.top_right as int) as u64,
            spec_quant(cr.bottom_right as int) as u64,
            spec_quant(cr.bottom_left as int) as u64,
        ],
    }
}

/// The words of one effect, a leading word telling the kinds apart.
pub open spec fn spec_effect_words(e: Effect) -> Seq<u64> {
    match e {
        Effect::DropShadow { offset, blur, color } => seq![
            1u64,
            spec_quant(offset.x as int) as u64,
            spec_quant(offset.y as int) as u64,
            spec_quant(blur as int) as u64,
            spec_color_word(color),
        ],
        Effect::InnerShadow { offset, blur, color } => seq![
            2u64,
            spec_quant(offset.x as int) as u64,
            spec_quant(offset.y as int) as u64,
            spec_quant(blur as int) as u64,
            spec_color_word(color),
        ],
        Effect::Blur { radius } => seq![3u64, spec_quant(radius as int) as u64],
    }
}

/// The words of the first `n` effects.
pub open spec fn spec_effects_words(es: Seq<Effect>, n: int) -> Seq<u64>
    decreases n,
{
    if n <= 0 {
        Seq::empty()
    } else {
        spec_effects_words(es, n - 1) + spec_effect_words(es[n - 1])
    }
}

/// The quantized view of a record: every semantically visible field, in a
/// fixed canonical order, numeric fields by bucket. Records with equal
/// quantized views are the same picture.
pub open spec fn spec_record_words(rec: InstanceRecord) -> Seq<u64> {
    spec_transform_words(rec.transform) + seq![rec.visual.opacity as u64]
        + spec_fill_words(rec.visual.fill) + spec_stroke_words(rec.visual.stroke)
        + spec_radii_words(rec.visual.corner_radii)
        + seq![rec.visual.effects@.len() as u64]
        + spec_effects_words(rec.visual.effects@, rec.visual.effects@.len() as int)
}

/// What `fingerprint` computes: the fold of the record's quantized view.
pub open spec fn spec_fingerprint(rec: InstanceRecord) -> u64 {
    spec_hash_words(spec_record_words(rec))
}

/// Append the words of the gradient stops.
fn push_stops_words(out: &mut Vec<u64>, ss: &Vec<ColorStop>)
    requires
        forall|i: int| 0 <= i < ss@.len() ==> in_domain((#[trigger] ss@[i]).position as int),
    ensures
        final(out)@ == old(out)@ + spec_stops_words(ss@, ss@.len() as int),
{
    let mut i: usize = 0;
    while i < ss.len()
        invariant
            i <= ss@.len(),
            forall|k: int| 0 <= k < ss@.len() ==> in_domain((#[trigger] ss@[k]).position as int),
            out@ == old(out)@ + spec_stops_words(ss@, i as int),
        decreases ss@.len() - i,
    {
        let s = &ss[i];
        out.push(quantize(s.position));
        out.push(color_word(&s.color));
        proof {
            assert(out@ =~= old(out)@ + spec_stops_words(ss@, i + 1));
        }
        i += 1;
    }
}

/// Append the words of the fill.
fn push_fill_words(out: &mut Vec<u64>, f: &Option<Fill>)
    requires
        fill_wf(*f),
    ensures
        final(out)@ == old(out)@ + spec_fill_words(*f),
{
    match f {
        Option::None => {
            out.push(0);
            proof {
                assert(out@ =~= old(out)@ + spec_fill_words(*f));
            }
        },
        Option::Some(Fill::Solid(c)) => {
            out.push(1);
            out.push(color_word(c));
            proof {
                assert(out@ =~= old(out)@ + spec_fill_words(*f));
            }
        },
        Option::Some(Fill::LinearGradient(lg)) => {
            out.push(2);
            out.push(quantize(lg.start.x));
            out.push(quantize(lg.start.y));
            out.push(quantize(lg.end.x));
            out.push(quantize(lg.end.y));
            out.push(lg.stops.len() as u64);
            push_stops_words(out, &lg.stops);
            proof {
                assert(out@ =~= old(out)@ + spec_fill_words(*f));
            }
        },
        Option::Some(Fill::RadialGradient(rg)) => {
            out.push(3);
            out.push(quantize(rg.center.x));
            out.push(quantize(rg.center.y));
            out.push(quantize(rg.radius));
            out.push(rg.stops.len() as u64);
            push_stops_words(out, &rg.stops);
            proof {
                assert(out@ =~= old(out)@ + spec_fill_words(*f));
            }
        },
    }
}

/// Append the words of the stroke.
fn push_stroke_words(out: &mut Vec<u64>, st: &Option<Stroke>)
    requires
        match *st {
            Option::None => true,
            Option::Some(s) => in_domain(s.width as int),
        },
    ensures
        final(out)@ == old(out)@ + spec_stroke_words(*st),
{
    match st {
        Option::None => {
            out.push(0);
        },
        Option::Some(s) => {
            out.push(1);
            out.push(color_word(&s.color));
            out.push(quantize(s.width));
            out.push(match s.cap {
                StrokeCap::Butt => 0,
                StrokeCap::Round => 1,
                StrokeCap::Square => 2,
            });
            out.push(match s.join {
                StrokeJoin::Miter => 0,
                StrokeJoin::Round => 1,
                StrokeJoin::Bevel => 2,
            });
        },
    }
    proof {
        assert(out@ =~= old(out)@ + spec_stroke_words(*st));
    }
}

/// Append the words of the corner radii.
fn push_radii_words(out: &mut Vec<u64>, cr: &Option<CornerRadii>)
    requires
        match *cr {
            Option::None => true,
            Option::Some(r) => in_domain(r.top_left as int) && in_domain(r.top_right as int)
                && in_domain(r.bottom_right as int) && in_domain(r.bottom_left as int),
        },
    ensures
        final(out)@ == old(out)@ + spec_radii_words(*cr),
{
    match cr {
        Option::None => {
            out.push(0);
        },
        Option::Some(r) => {
            out.push(1);
            out.push(quantize(r.top_left));
            out.push(quantize(r.top_right));
            out.push(quantize(r.bottom_right));
            out.push(quantize(r.bottom_left));
        },
    }
    proof {
        assert(out@ =~= old(out)@ + spec_radii_words(*cr));
    }
}

/// Append the words of the effects.
fn push_effects_words(out: &mut Vec<u64>, es: &Vec<Effect>)
    requires
        forall|i: int| 0 <= i < es@.len() ==> effect_wf(#[trigger] es@[i]),
    ensures
        final(out)@ == old(out)@ + spec_effects_words(es@, es@.len() as int),
{
    let mut i: usize = 0;
    while i < es.len()
        invariant
            i <= es@.len(),
            forall|k: int| 0 <= k < es@.len() ==> effect_wf(#[trigger] es@[k]),
            out@ == old(out)@ + spec_effects_words(es@, i as int),
        decreases es@.len() - i,
    {
        match &es[i] {
            Effect::DropShadow { offset, blur, color } => {
                out.push(1);
                out.push(quantize(offset.x));
                out.push(quantize(offset.y));
                out.push(quantize(*blur));
                out.push(color_word(color));
            },
            Effect::InnerShadow { offset, blur, color } => {
                out.push(2);
                out.push(quantize(offset.x));
                out.push(quantize(offset.y));
                out.push(quantize(*blur));
                out.push(color_word(color));
            },
            Effect::Blur { radius } => {
                out.push(3);
                out.push(quantize(*radius));
            },
        }
        proof {
            assert(out@ =~= old(out)@ + spec_effects_words(es@, i + 1));
        }
        i += 1;
    }
}

/// Compute the fingerprint of one instance: the hash of its quantized
/// view. Two records whose quantized views agree — in particular, records
/// differing only by deltas below the quantization step that stay within
/// one bucket — always fingerprint identically, across frames and runs.
pub fn fingerprint(rec: &InstanceRecord) -> (fp: Fingerprint)
    requires
        record_wf(*rec),
    ensures
        fp == spec_fingerprint(*rec),
{
    let mut ws: Vec<u64> = Vec::new();
    ws.push(quantize(rec.transform.position.x));
    ws.push(quantize(rec.transform.position.y));
    ws.push(quantize(rec.transform.rotation));
    ws.push(quantize(rec.transform.scale.x));
    ws.push(quantize(rec.transform.scale.y));
    ws.push(rec.visual.opacity as u64);
    proof {
        assert(ws@ =~= spec_transform_words(rec.transform) + seq![rec.visual.opacity as u64]);
    }
    push_fill_words(&mut ws, &rec.visual.fill);
    push_stroke_words(&mut ws, &rec.visual.stroke);
    push_radii_words(&mut ws, &rec.visual.corner_radii);
    ws.push(rec.visual.effects.len() as u64);
    push_effects_words(&mut ws, &rec.visual.effects);
    proof {
        assert(ws@ =~= spec_record_words(*rec));
    }
    hash_words(&ws)
}

/// Quantization stability: two records with the same visual attributes
/// whose transforms fall in the same quantization buckets — as any two
/// transforms differing by less than a bucket's width do when they do not
/// straddle a bucket edge — produce equal fingerprints.
pub proof fn lemma_fingerprint_quantization_stable(a: InstanceRecord, b: InstanceRecord)
    requires
        a.visual == b.visual,
        spec_quant(a.transform.position.x as int) == spec_quant(b.transform.position.x as int),
        spec_quant(a.transform.position.y as int) == spec_quant(b.transform.position.y as int),
        spec_quant(a.transform.rotation as int) == spec_quant(b.transform.rotation as int),
        spec_quant(a.transform.scale.x as int) == spec_quant(b.transform.scale.x as int),
        spec_quant(a.transform.scale.y as int) == spec_quant(b.transform.scale.y as int),
    ensures
        spec_fingerprint(a) == spec_fingerprint(b),
{
    assert(spec_transform_words(a.transform) =~= spec_transform_words(b.transform));
    assert(spec_record_words(a) =~= spec_record_words(b));
}

/// Fingerprints see only the quantized view: records with equal quantized
/// views hash identically, whatever their exact numeric fields were.
pub proof fn lemma_fingerprint_of_quantized_view(a: InstanceRecord, b: InstanceRecord)
    requires
        spec_record_words(a) == spec_record_words(b),
    ensures
        spec_fingerprint(a) == spec_fingerprint(b),
{
}

} // verus!
