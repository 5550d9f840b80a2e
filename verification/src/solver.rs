//! Gauss-Seidel relaxation over the constraint graph. Each pass evaluates
//! every constraint in creation order and overwrites the produced variable
//! in place, so later constraints in the same pass already see the fresh
//! values — that asymmetry speeds convergence and is part of the contract,
//! since reproducibility depends on the fixed order. Iteration stops when
//! the largest absolute change of a pass falls to the tolerance or the
//! pass budget runs out; a spent budget degrades to a best-effort partial
//! result, never to a failure, because a frame must always render.

use vstd::prelude::*;
use crate::geom::{Coord, COORD_LIMIT, in_domain, spec_clamp, clamp_wide};
use crate::constraint::{Constraint, Graph, models_of};

verus! {

/// A reasonable pass budget: cycles settle in a handful of passes.
pub const DEFAULT_MAX_ITERATIONS: usize = 64;

/// Convergence tolerance in sub-pixel units, below visual significance.
pub const DEFAULT_TOLERANCE: Coord = 10;

/// Sum of the first `n` referenced values.
pub open spec fn spec_sum_prefix(vals: Seq<i64>, sources: Seq<usize>, n: int) -> int
    decreases n,
{
    if n <= 0 {
        0
    } else {
        spec_sum_prefix(vals, sources, n - 1) + vals[sources[n - 1] as int]
    }
}

/// Maximum of the first `n` referenced values, with floor 0.
pub open spec fn spec_max_prefix(vals: Seq<i64>, sources: Seq<usize>, n: int) -> int
    decreases n,
{
    if n <= 0 {
        0
    } else {
        let m = spec_max_prefix(vals, sources, n - 1);
        let v = vals[sources[n - 1] as int] as int;
        if v > m {
            v
        } else {
            m
        }
    }
}

/// The value a constraint produces from the current variable values,
/// clamped into the coordinate domain.
pub open spec fn spec_eval(c: Constraint, vals: Seq<i64>) -> int {
    match c {
        Constraint::Fixed { value, .. } => spec_clamp(value as int),
        Constraint::Offset { source, offset, .. } => spec_clamp(
            vals[source as int] + offset,
        ),
        Constraint::SumTwo { a, b, offset, .. } => spec_clamp(
            vals[a as int] + vals[b as int] + offset,
        ),
        Constraint::Diff { a, b, offset, .. } => spec_clamp(
            vals[a as int] - vals[b as int] + offset,
        ),
        Constraint::Sum { sources, offset, .. } => spec_clamp(
            spec_sum_prefix(vals, sources@, sources@.len() as int) + offset,
        ),
        Constraint::MaxPlus { sources, factor, offset, .. } => spec_clamp(
            factor * spec_max_prefix(vals, sources@, sources@.len() as int) + offset,
        ),
        Constraint::Center { outer, inner, inset, .. } => {
            let d = spec_clamp(vals[outer as int] - vals[inner as int] - inset);
            if d < 0 {
                0
            } else {
                d / 2
            }
        },
    }
}

/// One constraint applied in place: the produced variable overwritten.
pub open spec fn spec_apply(c: Constraint, vals: Seq<i64>) -> Seq<i64> {
    vals.update(c.spec_target(), spec_eval(c, vals) as i64)
}

/// The values after the first `n` constraints of a pass.
pub open spec fn spec_pass(cs: Seq<Constraint>, vals: Seq<i64>, n: int) -> Seq<i64>
    decreases n,
{
    if n <= 0 {
        vals
    } else {
        spec_apply(cs[n - 1], spec_pass(cs, vals, n - 1))
    }
}

/// The largest absolute change any of the first `n` constraint
/// applications of a pass made to its produced variable.
pub open spec fn spec_pass_delta(cs: Seq<Constraint>, vals: Seq<i64>, n: int) -> int
    decreases n,
{
    if n <= 0 {
        0
    } else {
        let before = spec_pass(cs, vals, n - 1);
        let c = cs[n - 1];
        let change = spec_eval(c, before) - before[c.spec_target()];
        let d = if change < 0 {
            -change
        } else {
            change
        };
        let rest = spec_pass_delta(cs, vals, n - 1);
        if d > rest {
            d
        } else {
            rest
        }
    }
}

/// Relaxation to a fixed point: passes until the largest change of a pass
/// is at most the tolerance (converged) or the budget is spent (partial).
/// Yields the final values, whether it converged, and the last pass's
/// largest change (0 where no pass ran).
pub open spec fn spec_relax(cs: Seq<Constraint>, vals: Seq<i64>, fuel: nat, tol: int)
    -> (Seq<i64>, bool, int)
    decreases fuel,
{
    if fuel == 0 {
        (vals, false, 0)
    } else {
        let next = spec_pass(cs, vals, cs.len() as int);
        let delta = spec_pass_delta(cs, vals, cs.len() as int);
        if delta <= tol {
            (next, true, delta)
        } else if fuel == 1 {
            (next, false, delta)
        } else {
            spec_relax(cs, next, (fuel - 1) as nat, tol)
        }
    }
}

/// Every value of the sequence lies in the coordinate domain.
pub open spec fn all_in_domain(vals: Seq<i64>) -> bool {
    forall|i: int| 0 <= i < vals.len() ==> in_domain(vals[i] as int)
}

/// What a solve produced: the resolved values in variable creation order,
/// whether the pass deltas reached the tolerance within the budget, and
/// the last pass's largest change as the achieved residual. A result with
/// `converged == false` is the best current estimate, usable as a partial
/// result.
#[derive(Clone, PartialEq, Eq, Debug)]
pub struct SolveOutcome {
    /// Final variable values, one per graph variable, in creation order.
    pub values: Vec<Coord>,
    /// Whether the tolerance was met within the budget.
    pub converged: bool,
    /// The largest absolute change of the last pass run, 0 where none ran.
    pub residual: Coord,
}

/// Evaluate one constraint against the current values.
fn eval(c: &Constraint, vals: &Vec<Coord>) -> (r: Coord)
    requires
        c.valid(vals@.len() as int),
        all_in_domain(vals@),
    ensures
        r == spec_eval(*c, vals@),
        in_domain(r as int),
{
    match c {
        Constraint::Fixed { value, .. } => clamp_wide(*value as i128),
        Constraint::Offset { source, offset, .. } => clamp_wide(
            vals[*source] as i128 + *offset as i128,
        ),
        Constraint::SumTwo { a, b, offset, .. } => clamp_wide(
            vals[*a] as i128 + vals[*b] as i128 + *offset as i128,
        ),
        Constraint::Diff { a, b, offset, .. } => clamp_wide(
            vals[*a] as i128 - vals[*b] as i128 + *offset as i128,
        ),
        Constraint::Sum { sources, offset, .. } => {
            let mut acc: i128 = 0;
            let mut i: usize = 0;
            while i < sources.len()
                invariant
                    i <= sources@.len(),
                    all_in_domain(vals@),
                    forall|k: int| 0 <= k < sources@.len() ==> sources@[k] < vals@.len(),
                    acc == spec_sum_prefix(vals@, sources@, i as int),
                    -(i as int) * COORD_LIMIT <= acc <= (i as int) * COORD_LIMIT,
                decreases sources@.len() - i,
            {
                let v = vals[sources[i]];
                proof {
                    assert(in_domain(v as int));
                    assert((i as int) * COORD_LIMIT + COORD_LIMIT
                        == ((i + 1) as int) * COORD_LIMIT) by (nonlinear_arith);
                    assert(-((i as int) * COORD_LIMIT) - COORD_LIMIT
                        == -(((i + 1) as int) * COORD_LIMIT)) by (nonlinear_arith);
                }
                acc = acc + v as i128;
                i += 1;
            }
            proof {
                assert((sources@.len() as int) * COORD_LIMIT
                    < 0x4000_0000_0000_0000_0000_0000_0000_0000_i128) by (nonlinear_arith)
                    requires sources@.len() <= usize::MAX;
            }
            clamp_wide(acc + *offset as i128)
        },
        Constraint::MaxPlus { sources, factor, offset, .. } => {
            let mut m: Coord = 0;
            let mut i: usize = 0;
            while i < sources.len()
                invariant
                    i <= sources@.len(),
                    all_in_domain(vals@),
                    forall|k: int| 0 <= k < sources@.len() ==> sources@[k] < vals@.len(),
                    m == spec_max_prefix(vals@, sources@, i as int),
                    0 <= m <= COORD_LIMIT,
                decreases sources@.len() - i,
            {
                let v = vals[sources[i]];
                proof {
                    assert(in_domain(v as int));
                }
                if v > m {
                    m = v;
                }
                i += 1;
            }
            proof {
                assert(-0x4000_0000_0000_0000_0000_0000_0000_0000_i128
                    < (*factor as int) * (m as int)
                    < 0x4000_0000_0000_0000_0000_0000_0000_0000_i128) by (nonlinear_arith)
                    requires
                        i64::MIN <= *factor <= i64::MAX,
                        0 <= m <= COORD_LIMIT;
            }
            clamp_wide(*factor as i128 * m as i128 + *offset as i128)
        },
        Constraint::Center { outer, inner, inset, .. } => {
            let d = clamp_wide(
                vals[*outer] as i128 - vals[*inner] as i128 - *inset as i128,
            );
            if d < 0 {
                0
            } else {
                (d as u64 / 2) as i64
            }
        },
    }
}

/// One full relaxation pass in place, in constraint creation order.
/// Returns the largest absolute change made to any produced variable.
fn run_pass(cs: &Vec<Constraint>, vals: &mut Vec<Coord>) -> (delta: Coord)
    requires
        forall|i: int| 0 <= i < cs@.len() ==> cs@[i].valid(old(vals)@.len() as int),
        all_in_domain(old(vals)@),
    ensures
        final(vals)@ == spec_pass(cs@, old(vals)@, cs@.len() as int),
        delta == spec_pass_delta(cs@, old(vals)@, cs@.len() as int),
        all_in_domain(final(vals)@),
        final(vals)@.len() == old(vals)@.len(),
        0 <= delta,
{
    let mut delta: Coord = 0;
    let mut j: usize = 0;
    while j < cs.len()
        invariant
            j <= cs@.len(),
            forall|i: int| 0 <= i < cs@.len() ==> cs@[i].valid(old(vals)@.len() as int),
            vals@.len() == old(vals)@.len(),
            all_in_domain(vals@),
            vals@ == spec_pass(cs@, old(vals)@, j as int),
            delta == spec_pass_delta(cs@, old(vals)@, j as int),
            0 <= delta,
        decreases cs@.len() - j,
    {
        let c = &cs[j];
        let nv = eval(c, vals);
        let t = match c {
            Constraint::Fixed { target, .. } => *target,
            Constraint::Offset { target, .. } => *target,
            Constraint::SumTwo { target, .. } => *target,
            Constraint::Diff { target, .. } => *target,
            Constraint::Sum { target, .. } => *target,
            Constraint::MaxPlus { target, .. } => *target,
            Constraint::Center { target, .. } => *target,
        };
        proof {
            assert(t == c.spec_target());
            assert(t < vals@.len());
        }
        let old_v = vals[t];
        let change = if nv >= old_v {
            nv - old_v
        } else {
            old_v - nv
        };
        vals.set(t, nv);
        if change > delta {
            delta = change;
        }
        j += 1;
    }
    delta
}

impl Graph {
    /// Resolve the graph by Gauss-Seidel relaxation: up to
    /// `max_iterations` passes, stopping once the largest absolute change
    /// of a pass is at most `tolerance`. The outcome is the value of
    /// [`spec_relax`] on the graph's constraints and initial values: the
    /// same graph with the same budget always resolves to the same bits.
    pub fn solve(&self, max_iterations: usize, tolerance: Coord) -> (r: SolveOutcome)
        requires
            self.wf(),
            tolerance >= 0,
        ensures
            ({
                let o = spec_relax(
                    self.constraints@,
                    self.values(),
                    max_iterations as nat,
                    tolerance as int,
                );
                r.values@ == o.0 && r.converged == o.1 && r.residual == o.2
            }),
            r.values@.len() == self.vars@.len(),
            all_in_domain(r.values@),
    {
        let mut vals: Vec<Coord> = Vec::new();
        let mut i: usize = 0;
        while i < self.vars.len()
            invariant
                i <= self.vars@.len(),
                self.wf(),
                vals@.len() == i,
                forall|k: int| 0 <= k < i ==> vals@[k] == self.vars@[k].value,
            decreases self.vars@.len() - i,
        {
            vals.push(self.vars[i].value);
            i += 1;
        }
        proof {
            assert(vals@ =~= self.values());
        }
        let ghost orig = vals@;
        let ghost o = spec_relax(
            self.constraints@,
            orig,
            max_iterations as nat,
            tolerance as int,
        );
        let mut converged = false;
        let mut residual: Coord = 0;
        let mut iter: usize = 0;
        loop
            invariant_except_break
                iter <= max_iterations,
                self.wf(),
                vals@.len() == self.vars@.len(),
                all_in_domain(vals@),
                tolerance >= 0,
                o == spec_relax(
                    self.constraints@,
                    vals@,
                    (max_iterations - iter) as nat,
                    tolerance as int,
                ),
            ensures
                vals@ == o.0,
                converged == o.1,
                residual == o.2,
                vals@.len() == self.vars@.len(),
                all_in_domain(vals@),
            decreases max_iterations - iter,
        {
            if iter >= max_iterations {
                converged = false;
                residual = 0;
                break;
            }
            let ghost fuel = (max_iterations - iter) as nat;
            let ghost pass_start = vals@;
            let delta = run_pass(&self.constraints, &mut vals);
            proof {
                assert(fuel > 0);
                assert(vals@ == spec_pass(
                    self.constraints@,
                    pass_start,
                    self.constraints@.len() as int,
                ));
            }
            if delta <= tolerance {
                proof {
                    assert(o == spec_relax(self.constraints@, pass_start, fuel, tolerance as int));
                }
                converged = true;
                residual = delta;
                break;
            }
            iter += 1;
            if iter == max_iterations {
                proof {
                    assert(fuel == 1);
                    assert(o == spec_relax(self.constraints@, pass_start, fuel, tolerance as int));
                }
                converged = false;
                residual = delta;
                break;
            }
            proof {
                assert(o == spec_relax(self.constraints@, pass_start, fuel, tolerance as int));
                assert(spec_relax(self.constraints@, pass_start, fuel, tolerance as int)
                    == spec_relax(
                    self.constraints@,
                    vals@,
                    (fuel - 1) as nat,
                    tolerance as int,
                ));
            }
        }
        SolveOutcome { values: vals, converged, residual }

    }
}

/// Summing reads sources only through their values: lists with equal
/// integer views sum alike.
pub proof fn lemma_sum_prefix_model(v: Seq<i64>, s1: Seq<usize>, s2: Seq<usize>, n: int)
    requires
        s1.map_values(|u: usize| u as int) == s2.map_values(|u: usize| u as int),
        n <= s1.len(),
    ensures
        spec_sum_prefix(v, s1, n) == spec_sum_prefix(v, s2, n),
    decreases n,
{
    if n > 0 {
        lemma_sum_prefix_model(v, s1, s2, n - 1);
        assert(s1.map_values(|u: usize| u as int).len() == s1.len());
        assert(s2.map_values(|u: usize| u as int).len() == s2.len());
        assert(s1.map_values(|u: usize| u as int)[n - 1] == s1[n - 1] as int);
        assert(s2.map_values(|u: usize| u as int)[n - 1] == s2[n - 1] as int);
    }
}

/// Taking a maximum reads sources only through their values.
pub proof fn lemma_max_prefix_model(v: Seq<i64>, s1: Seq<usize>, s2: Seq<usize>, n: int)
    requires
        s1.map_values(|u: usize| u as int) == s2.map_values(|u: usize| u as int),
        n <= s1.len(),
    ensures
        spec_max_prefix(v, s1, n) == spec_max_prefix(v, s2, n),
    decreases n,
{
    if n > 0 {
        lemma_max_prefix_model(v, s1, s2, n - 1);
        assert(s1.map_values(|u: usize| u as int).len() == s1.len());
        assert(s2.map_values(|u: usize| u as int).len() == s2.len());
        assert(s1.map_values(|u: usize| u as int)[n - 1] == s1[n - 1] as int);
        assert(s2.map_values(|u: usize| u as int)[n - 1] == s2[n - 1] as int);
    }
}

/// Evaluation depends only on a constraint's mathematical shape.
pub proof fn lemma_eval_model(c1: Constraint, c2: Constraint, vals: Seq<i64>)
    requires
        c1.model() == c2.model(),
    ensures
        spec_eval(c1, vals) == spec_eval(c2, vals),
        c1.spec_target() == c2.spec_target(),
{
    match (c1, c2) {
        (Constraint::Sum { sources: s1, .. }, Constraint::Sum { sources: s2, .. }) => {
            assert(s1@.map_values(|u: usize| u as int) == s2@.map_values(|u: usize| u as int));
            assert(s1@.len() == s2@.len()) by {
                assert(s1@.map_values(|u: usize| u as int).len() == s1@.len());
            }
            lemma_sum_prefix_model(vals, s1@, s2@, s1@.len() as int);
        },
        (Constraint::MaxPlus { sources: s1, .. }, Constraint::MaxPlus { sources: s2, .. }) => {
            assert(s1@.map_values(|u: usize| u as int) == s2@.map_values(|u: usize| u as int));
            assert(s1@.len() == s2@.len()) by {
                assert(s1@.map_values(|u: usize| u as int).len() == s1@.len());
            }
            lemma_max_prefix_model(vals, s1@, s2@, s1@.len() as int);
        },
        _ => {},
    }
}

/// One pass depends only on the constraints' shapes.
pub proof fn lemma_pass_model(cs1: Seq<Constraint>, cs2: Seq<Constraint>, vals: Seq<i64>, n: int)
    requires
        models_of(cs1) == models_of(cs2),
        n <= cs1.len(),
    ensures
        spec_pass(cs1, vals, n) == spec_pass(cs2, vals, n),
        spec_pass_delta(cs1, vals, n) == spec_pass_delta(cs2, vals, n),
    decreases n,
{
    if n > 0 {
        lemma_pass_model(cs1, cs2, vals, n - 1);
        assert(models_of(cs1).len() == cs1.len());
        assert(models_of(cs2).len() == cs2.len());
        assert(models_of(cs1)[n - 1] == cs1[n - 1].model());
        assert(models_of(cs2)[n - 1] == cs2[n - 1].model());
        lemma_eval_model(cs1[n - 1], cs2[n - 1], spec_pass(cs1, vals, n - 1));
    }
}

/// The whole relaxation depends only on the constraints' shapes.
pub proof fn lemma_relax_model(
    cs1: Seq<Constraint>,
    cs2: Seq<Constraint>,
    vals: Seq<i64>,
    fuel: nat,
    tol: int,
)
    requires
        models_of(cs1) == models_of(cs2),
    ensures
        spec_relax(cs1, vals, fuel, tol) == spec_relax(cs2, vals, fuel, tol),
    decreases fuel,
{
    if fuel > 0 {
        assert(cs1.len() == cs2.len()) by {
            assert(models_of(cs1).len() == cs1.len());
            assert(models_of(cs2).len() == cs2.len());
        }
        lemma_pass_model(cs1, cs2, vals, cs1.len() as int);
        if !(spec_pass_delta(cs1, vals, cs1.len() as int) <= tol) && fuel != 1 {
            lemma_relax_model(
                cs1,
                cs2,
                spec_pass(cs1, vals, cs1.len() as int),
                (fuel - 1) as nat,
                tol,
            );
        }
    }
}

/// Rebuild determinism: two graphs with the same variable table and the
/// same constraint shapes — as any two builds of one description produce
/// — relax to the same outcome under the same budget and tolerance.
pub proof fn lemma_rebuilt_graph_deterministic(g1: Graph, g2: Graph, fuel: nat, tol: int)
    requires
        g1.vars@ == g2.vars@,
        models_of(g1.constraints@) == models_of(g2.constraints@),
    ensures
        spec_relax(g1.constraints@, g1.values(), fuel, tol) == spec_relax(
            g2.constraints@,
            g2.values(),
            fuel,
            tol,
        ),
{
    assert(g1.values() =~= g2.values());
    lemma_relax_model(g1.constraints@, g2.constraints@, g1.values(), fuel, tol);
}

/// Determinism: one constraint graph, one budget, one tolerance — one
/// outcome. Two solves of the same graph in the same construction order
/// yield bit-identical resolved values, converged flags and residuals,
/// however often and whenever they run.
pub proof fn lemma_solve_deterministic(
    cs: Seq<Constraint>,
    vals: Seq<i64>,
    fuel: nat,
    tol: int,
    a: (Seq<i64>, bool, int),
    b: (Seq<i64>, bool, int),
)
    requires
        a == spec_relax(cs, vals, fuel, tol),
        b == spec_relax(cs, vals, fuel, tol),
    ensures
        a == b,
{
}

} // verus!
