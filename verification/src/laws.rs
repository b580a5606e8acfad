//! The general laws of the steering engine, each proved once and for all:
//! the force clamp, the behaviour of an isolated agent, and the symmetry of
//! the separation rule between two agents at rest.

use vstd::prelude::*;
use crate::agent::Agent;
use crate::steering::{
    ali_sum, alignment_spec, coh_sum, cohesion_spec, dist_sq, is_neighbor, sep_sum,
    separation_spec, steer_spec, step_spec,
};
use crate::vec2::{lemma_scale_odd, lemma_truncate_norm, scale_spec, V2};
use crate::{MAX_ALIGNMENT, MAX_COHESION, MAX_FORCE, MAX_SEPARATION, MAX_VELOCITY};

verus! {

/// Squared distance is symmetric in its two points.
pub proof fn lemma_dist_sq_sym(p: V2, q: V2)
    ensures
        dist_sq(p, q) == dist_sq(q, p),
{
    assert((p.x - q.x) * (p.x - q.x) == (q.x - p.x) * (q.x - p.x) && (p.y - q.y) * (p.y - q.y) == (
    q.y - p.y) * (q.y - p.y)) by (nonlinear_arith);
}

/// Law: the combined per-frame steering vector, taken before it is added to
/// the velocity, never exceeds [`MAX_FORCE`] in magnitude, for every agent
/// and every snapshot.
pub proof fn lemma_force_clamped(a: Agent, s: Seq<Agent>)
    ensures
        ({
            let st = steer_spec(a, s);
            st.0 * st.0 + st.1 * st.1 <= (MAX_FORCE as int) * (MAX_FORCE as int)
        }),
        -(MAX_FORCE as int) <= steer_spec(a, s).0 <= MAX_FORCE as int,
        -(MAX_FORCE as int) <= steer_spec(a, s).1 <= MAX_FORCE as int,
{
    let sep = separation_spec(a, s);
    let ali = alignment_spec(a, s);
    let coh = cohesion_spec(a, s);
    lemma_truncate_norm(
        sep.0 * crate::SEPARATION_WEIGHT + ali.0 * crate::ALIGNMENT_WEIGHT + coh.0
            * crate::COHESION_WEIGHT,
        sep.1 * crate::SEPARATION_WEIGHT + ali.1 * crate::ALIGNMENT_WEIGHT + coh.1
            * crate::COHESION_WEIGHT,
        MAX_FORCE as int,
    );
}

/// No agent of `s` is a neighbour of `a` for any rule when each is either
/// `a` itself or out of the widest radius; then the separation fold is zero.
proof fn lemma_sep_sum_zero(a: Agent, s: Seq<Agent>)
    requires
        forall|j: int| 0 <= j < s.len() ==> !is_neighbor(a, #[trigger] s[j], MAX_SEPARATION as int),
    ensures
        sep_sum(a, s) == (0int, 0int, 0int),
    decreases s.len(),
{
    if s.len() > 0 {
        assert(forall|j: int|
            0 <= j < s.drop_last().len() ==> !is_neighbor(
                a,
                #[trigger] s.drop_last()[j],
                MAX_SEPARATION as int,
            ));
        lemma_sep_sum_zero(a, s.drop_last());
    }
}

/// As `lemma_sep_sum_zero`, for the alignment fold.
proof fn lemma_ali_sum_zero(a: Agent, s: Seq<Agent>)
    requires
        forall|j: int| 0 <= j < s.len() ==> !is_neighbor(a, #[trigger] s[j], MAX_ALIGNMENT as int),
    ensures
        ali_sum(a, s) == (0int, 0int),
    decreases s.len(),
{
    if s.len() > 0 {
        assert(forall|j: int|
            0 <= j < s.drop_last().len() ==> !is_neighbor(
                a,
                #[trigger] s.drop_last()[j],
                MAX_ALIGNMENT as int,
            ));
        lemma_ali_sum_zero(a, s.drop_last());
    }
}

/// As `lemma_sep_sum_zero`, for the cohesion fold.
proof fn lemma_coh_sum_zero(a: Agent, s: Seq<Agent>)
    requires
        forall|j: int| 0 <= j < s.len() ==> !is_neighbor(a, #[trigger] s[j], MAX_COHESION as int),
    ensures
        coh_sum(a, s) == (0int, 0int, 0int),
    decreases s.len(),
{
    if s.len() > 0 {
        assert(forall|j: int|
            0 <= j < s.drop_last().len() ==> !is_neighbor(
                a,
                #[trigger] s.drop_last()[j],
                MAX_COHESION as int,
            ));
        lemma_coh_sum_zero(a, s.drop_last());
    }
}

/// Law: an isolated agent, one with no other agent within the widest rule
/// radius, feels zero separation, alignment and cohesion force, so its
/// velocity is unchanged by a step and its position advances by exactly
/// that velocity (up to the boundary wrap; with the step inside the bounds,
/// exactly linearly).
pub proof fn lemma_isolated_agent(a: Agent, s: Seq<Agent>, w: int, h: int)
    requires
        a.wf(),
        forall|j: int|
            0 <= j < s.len() ==> ((#[trigger] s[j]).id == a.id || dist_sq(s[j].position, a.position)
                >= (MAX_ALIGNMENT as int) * (MAX_ALIGNMENT as int)),
    ensures
        separation_spec(a, s) == (0int, 0int),
        alignment_spec(a, s) == (0int, 0int),
        cohesion_spec(a, s) == (0int, 0int),
        steer_spec(a, s) == (0int, 0int),
        step_spec(a, s, w, h).0 == a.velocity.x as int,
        step_spec(a, s, w, h).1 == a.velocity.y as int,
        (step_spec(a, s, w, h).2, step_spec(a, s, w, h).3) == crate::agent::wrap_spec(
            a.position.x + a.velocity.x,
            a.position.y + a.velocity.y,
            w,
            h,
        ),
        (-(w / 2) <= a.position.x + a.velocity.x <= w / 2 && -(h / 2) <= a.position.y
            + a.velocity.y <= h / 2) ==> (step_spec(a, s, w, h).2 == a.position.x + a.velocity.x
            && step_spec(a, s, w, h).3 == a.position.y + a.velocity.y),
{
    assert((MAX_SEPARATION as int) * (MAX_SEPARATION as int) == 256_000_000int && (
    MAX_ALIGNMENT as int) * (MAX_ALIGNMENT as int) == 1_024_000_000int && (MAX_COHESION as int) * (
    MAX_COHESION as int) == 256_000_000int && (MAX_FORCE as int) * (MAX_FORCE as int) == 2500int)
        by (nonlinear_arith)
        requires
            MAX_SEPARATION == 16000i64,
            MAX_ALIGNMENT == 32000i64,
            MAX_COHESION == 16000i64,
            MAX_FORCE == 50i64,
    ;
    assert(forall|j: int| 0 <= j < s.len() ==> !is_neighbor(a, #[trigger] s[j], MAX_SEPARATION as int));
    assert(forall|j: int| 0 <= j < s.len() ==> !is_neighbor(a, #[trigger] s[j], MAX_ALIGNMENT as int));
    assert(forall|j: int| 0 <= j < s.len() ==> !is_neighbor(a, #[trigger] s[j], MAX_COHESION as int));
    lemma_sep_sum_zero(a, s);
    lemma_ali_sum_zero(a, s);
    lemma_coh_sum_zero(a, s);
    lemma_truncate_norm(0, 0, MAX_FORCE as int);
    assert(steer_spec(a, s) == (0int, 0int));
    assert(a.velocity.x + 0 == a.velocity.x as int);
}

/// Law: two agents at rest, each the other's separation neighbour, push
/// each other apart with exactly opposite forces of equal magnitude. (With
/// a shared nonzero velocity the subtraction of the common velocity breaks
/// the antisymmetry, so rest is required.)
pub proof fn lemma_separation_symmetry(a: Agent, b: Agent)
    requires
        a.id != b.id,
        a.velocity == (V2 { x: 0, y: 0 }),
        b.velocity == (V2 { x: 0, y: 0 }),
        dist_sq(a.position, b.position) < (MAX_SEPARATION as int) * (MAX_SEPARATION as int),
    ensures
        separation_spec(b, seq![a, b]).0 == -separation_spec(a, seq![a, b]).0,
        separation_spec(b, seq![a, b]).1 == -separation_spec(a, seq![a, b]).1,
{
    let s = seq![a, b];
    lemma_dist_sq_sym(a.position, b.position);
    assert(s.drop_last() =~= seq![a]);
    assert(s.last() == b);
    assert(seq![a].drop_last() =~= Seq::<Agent>::empty());
    assert(seq![a].last() == a);
    assert(sep_sum(a, Seq::<Agent>::empty()) == (0int, 0int, 0int));
    assert(sep_sum(b, Seq::<Agent>::empty()) == (0int, 0int, 0int));
    assert(!is_neighbor(a, a, MAX_SEPARATION as int));
    assert(!is_neighbor(b, b, MAX_SEPARATION as int));
    assert(is_neighbor(a, b, MAX_SEPARATION as int));
    assert(is_neighbor(b, a, MAX_SEPARATION as int));
    let dx = a.position.x - b.position.x;
    let dy = a.position.y - b.position.y;
    assert(sep_sum(a, seq![a]) == (0int, 0int, 0int));
    assert(sep_sum(b, seq![a]) == (-dx, -dy, 1int));
    assert(sep_sum(a, s) == (dx, dy, 1int));
    assert(sep_sum(b, s) == (-dx, -dy, 1int));
    if dx == 0 && dy == 0 {
        assert(separation_spec(a, s) == (0int, 0int));
        assert(separation_spec(b, s) == (0int, 0int));
    } else {
        lemma_scale_odd(dx, dy, MAX_VELOCITY as int);
        assert(separation_spec(a, s).0 == scale_spec(dx, dy, MAX_VELOCITY as int).0 - 0);
        assert(separation_spec(b, s).0 == scale_spec(-dx, -dy, MAX_VELOCITY as int).0 - 0);
    }
}

} // verus!
