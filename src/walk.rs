use rand::Rng;
use rand::StdRng;
use vstd::prelude::*;
use crate::vector::Vector3D;

verus! {

#[verifier::external_type_specification]
#[verifier::external_body]
pub struct ExStdRng(StdRng);

/// Relies on rand's `Rng::choose`: `None` exactly when the slice is empty, otherwise
/// one of the slice's elements.
#[verifier::external_body]
fn pick<T: Copy>(rng: &mut StdRng, values: &[T]) -> (r: Option<T>)
    ensures
        r is None <==> values@.len() == 0,
        r matches Some(v) ==> values@.contains(v),
{
    rng.choose(values).copied()
}

/// The six moves of the discrete walk: one unit along either direction of each axis.
pub open spec fn axis_steps() -> Seq<Vector3D<i64>> {
    seq![
        Vector3D { x: 1i64, y: 0i64, z: 0i64 },
        Vector3D { x: -1i64, y: 0i64, z: 0i64 },
        Vector3D { x: 0i64, y: 1i64, z: 0i64 },
        Vector3D { x: 0i64, y: -1i64, z: 0i64 },
        Vector3D { x: 0i64, y: 0i64, z: 1i64 },
        Vector3D { x: 0i64, y: 0i64, z: -1i64 },
    ]
}

/// A lattice point as a triple of mathematical integers.
pub open spec fn point(v: Vector3D<i64>) -> (int, int, int) {
    (v.x as int, v.y as int, v.z as int)
}

/// Where a walk that starts at the origin and makes the moves `w` in order ends.
pub open spec fn walk_end(w: Seq<Vector3D<i64>>) -> (int, int, int)
    decreases w.len(),
{
    if w.len() == 0 {
        (0, 0, 0)
    } else {
        let p = walk_end(w.drop_last());
        (p.0 + w.last().x, p.1 + w.last().y, p.2 + w.last().z)
    }
}

/// `w` is a discrete walk of `n` moves, each one of the six axis moves.
pub open spec fn is_discrete_walk(w: Seq<Vector3D<i64>>, n: nat) -> bool {
    &&& w.len() == n
    &&& forall|i: int| 0 <= i < w.len() ==> axis_steps().contains(#[trigger] w[i])
}

/// Some discrete walk of `n` moves ends at `p`.
pub open spec fn reachable(p: (int, int, int), n: nat) -> bool {
    exists|w: Seq<Vector3D<i64>>| is_discrete_walk(w, n) && walk_end(w) == p
}

pub open spec fn squared_len(p: (int, int, int)) -> int {
    p.0 * p.0 + p.1 * p.1 + p.2 * p.2
}

pub open spec fn abs(a: int) -> int {
    if a < 0 { -a } else { a }
}

/// The sum of the squared distances from the origin of the points `ends`.
pub open spec fn total_squared(ends: Seq<(int, int, int)>) -> int
    decreases ends.len(),
{
    if ends.len() == 0 {
        0
    } else {
        total_squared(ends.drop_last()) + squared_len(ends.last())
    }
}

/// `total` is the sum of squared displacements of `trials` discrete walks of `n` moves.
pub open spec fn is_discrete_total(total: int, n: nat, trials: nat) -> bool {
    exists|ends: Seq<(int, int, int)>|
        ends.len() == trials && (forall|i: int| 0 <= i < ends.len() ==> reachable(#[trigger] ends[i], n))
            && total == total_squared(ends)
}

/// A walk of `n` moves stays within `n` moves of the origin (in taxicab distance).
pub proof fn lemma_walk_end_bounded(w: Seq<Vector3D<i64>>, n: nat)
    requires
        is_discrete_walk(w, n),
    ensures
        abs(walk_end(w).0) + abs(walk_end(w).1) + abs(walk_end(w).2) <= n,
    decreases n,
{
    if n > 0 {
        let u = w.drop_last();
        assert(is_discrete_walk(u, (n - 1) as nat)) by {
            assert forall|i: int| 0 <= i < u.len() implies axis_steps().contains(#[trigger] u[i]) by {
                assert(u[i] == w[i]);
            }
        }
        lemma_walk_end_bounded(u, (n - 1) as nat);
        assert(axis_steps().contains(w[n - 1]));
    }
}

/// Walks of no moves end at the origin: whatever the number of trials, the total is zero.
pub proof fn lemma_zero_steps_total(total: int, trials: nat)
    requires
        is_discrete_total(total, 0, trials),
    ensures
        total == 0,
{
    let ends = choose|ends: Seq<(int, int, int)>|
        ends.len() == trials && (forall|i: int| 0 <= i < ends.len() ==> reachable(#[trigger] ends[i], 0))
            && total == total_squared(ends);
    lemma_total_of_origins(ends);
}

proof fn lemma_total_of_origins(ends: Seq<(int, int, int)>)
    requires
        forall|i: int| 0 <= i < ends.len() ==> reachable(#[trigger] ends[i], 0),
    ensures
        total_squared(ends) == 0,
    decreases ends.len(),
{
    if ends.len() > 0 {
        let u = ends.drop_last();
        assert forall|i: int| 0 <= i < u.len() implies reachable(#[trigger] u[i], 0) by {
            assert(u[i] == ends[i]);
        }
        lemma_total_of_origins(u);
        assert(reachable(ends[ends.len() - 1], 0));
        let w = choose|w: Seq<Vector3D<i64>>| is_discrete_walk(w, 0) && walk_end(w) == ends.last();
        assert(w.len() == 0);
        assert(walk_end(w) == (0int, 0int, 0int));
        assert(ends.last() == walk_end(w));
        let p = ends.last();
        assert(p.0 * p.0 + p.1 * p.1 + p.2 * p.2 == 0) by (nonlinear_arith)
            requires
                p.0 == 0 && p.1 == 0 && p.2 == 0,
        ;
    }
}

/// One discrete walk of `steps` moves from the origin, each move drawn uniformly from
/// the six axis moves. The result is the end point in units of the step length.
pub fn random_walk_discrete(rng: &mut StdRng, steps: usize) -> (r: Vector3D<i64>)
    requires
        steps <= i64::MAX,
    ensures
        reachable(point(r), steps as nat),
{
    let possibilities: Vec<Vector3D<i64>> = vec![
        Vector3D::new(1, 0, 0),
        Vector3D::new(-1, 0, 0),
        Vector3D::new(0, 1, 0),
        Vector3D::new(0, -1, 0),
        Vector3D::new(0, 0, 1),
        Vector3D::new(0, 0, -1),
    ];
    assert(possibilities@ =~= axis_steps());
    let mut position = Vector3D::<i64>::null_vector();
    let ghost mut w: Seq<Vector3D<i64>> = Seq::empty();
    let mut k: usize = 0;
    while k < steps
        invariant
            k <= steps <= i64::MAX,
            possibilities@ == axis_steps(),
            is_discrete_walk(w, k as nat),
            walk_end(w) == point(position),
        decreases steps - k,
    {
        proof {
            lemma_walk_end_bounded(w, k as nat);
        }
        let step = match pick(rng, possibilities.as_slice()) {
            Some(v) => v,
            None => Vector3D::new(0, 0, 0),
        };
        assert(axis_steps().contains(step));
        position = position + step;
        proof {
            let w0 = w;
            w = w.push(step);
            assert(w.drop_last() =~= w0);
            assert forall|i: int| 0 <= i < w.len() implies axis_steps().contains(#[trigger] w[i]) by {
                if i < w0.len() {
                    assert(w[i] == w0[i]);
                }
            }
        }
        k = k + 1;
    }
    position
}

proof fn lemma_squares_bounded(a: int, b: int, c: int, n: int)
    requires
        abs(a) + abs(b) + abs(c) <= n,
    ensures
        0 <= a * a <= n * n,
        0 <= b * b <= n * n,
        0 <= c * c <= n * n,
        a * a + b * b <= n * n,
        a * a + b * b + c * c <= n * n,
{
    let (p, q, r) = (abs(a), abs(b), abs(c));
    assert(a * a == p * p && b * b == q * q && c * c == r * r) by (nonlinear_arith)
        requires
            p == abs(a) && q == abs(b) && r == abs(c),
    ;
    assert(p * p + q * q + r * r <= (p + q + r) * (p + q + r)) by (nonlinear_arith)
        requires
            p >= 0 && q >= 0 && r >= 0,
    ;
    assert((p + q + r) * (p + q + r) <= n * n) by (nonlinear_arith)
        requires
            0 <= p + q + r <= n,
    ;
    assert(0 <= p * p && 0 <= q * q && 0 <= r * r) by (nonlinear_arith);
}

/// The sum, over `simulations` independent discrete walks of `steps` moves, of the squared
/// distance of each end point from the origin, in units of the squared step length.
/// Dividing by `simulations` gives the mean squared displacement.
pub fn total_squared_displacement_discrete(rng: &mut StdRng, steps: usize, simulations: usize) -> (r: u128)
    requires
        steps <= i32::MAX,
    ensures
        is_discrete_total(r as int, steps as nat, simulations as nat),
        r <= simulations * (steps * steps),
{
    let mut total: u128 = 0;
    let ghost mut ends: Seq<(int, int, int)> = Seq::empty();
    let mut k: usize = 0;
    while k < simulations
        invariant
            k <= simulations,
            steps <= i32::MAX,
            ends.len() == k,
            forall|i: int| 0 <= i < ends.len() ==> reachable(#[trigger] ends[i], steps as nat),
            total == total_squared(ends),
            total <= k * (steps * steps),
        decreases simulations - k,
    {
        let position = random_walk_discrete(rng, steps);
        let ghost p = point(position);
        proof {
            let w = choose|w: Seq<Vector3D<i64>>| is_discrete_walk(w, steps as nat) && walk_end(w) == p;
            lemma_walk_end_bounded(w, steps as nat);
            lemma_squares_bounded(p.0, p.1, p.2, steps as int);
            assert(steps * steps <= i32::MAX * i32::MAX) by (nonlinear_arith)
                requires
                    steps <= i32::MAX,
            ;
            assert(k * (steps * steps) + steps * steps == (k + 1) * (steps * steps)) by (nonlinear_arith);
            assert((k + 1) * (steps * steps) <= simulations * (steps * steps)) by (nonlinear_arith)
                requires
                    k + 1 <= simulations,
            ;
            assert(simulations * (steps * steps) <= usize::MAX * (i32::MAX * i32::MAX)) by (nonlinear_arith)
                requires
                    simulations <= usize::MAX,
                    steps * steps <= i32::MAX * i32::MAX,
                    steps * steps >= 0,
            ;
        }
        let square = position.norm_squared();
        total = total + square as u128;
        proof {
            let e0 = ends;
            ends = ends.push(p);
            assert(ends.drop_last() =~= e0);
            assert forall|i: int| 0 <= i < ends.len() implies reachable(#[trigger] ends[i], steps as nat) by {
                if i < e0.len() {
                    assert(ends[i] == e0[i]);
                }
            }
        }
        k = k + 1;
    }
    total
}

/// For each step count `0, 1, ..., step_counts - 1` in order, the total of
/// [`total_squared_displacement_discrete`] over `simulations` fresh walks.
pub fn sweep_discrete(rng: &mut StdRng, step_counts: usize, simulations: usize) -> (r: Vec<u128>)
    requires
        step_counts <= i32::MAX,
    ensures
        r@.len() == step_counts,
        forall|n: int| 0 <= n < step_counts ==> is_discrete_total(#[trigger] r@[n] as int, n as nat, simulations as nat),
        step_counts > 0 ==> r@[0] == 0,
{
    let mut totals: Vec<u128> = Vec::new();
    let mut n: usize = 0;
    while n < step_counts
        invariant
            n <= step_counts <= i32::MAX,
            totals@.len() == n,
            forall|m: int| 0 <= m < n ==> is_discrete_total(#[trigger] totals@[m] as int, m as nat, simulations as nat),
        decreases step_counts - n,
    {
        let t = total_squared_displacement_discrete(rng, n, simulations);
        totals.push(t);
        n = n + 1;
    }
    if step_counts > 0 {
        proof {
            lemma_zero_steps_total(totals@[0] as int, simulations as nat);
        }
    }
    totals
}

} // verus!
