//! Composition of affine transforms.
//!
//! A transform built from a translation, a rotation and a scale multiplies
//! them in that order into an accumulator that starts at the identity, and
//! leaves out each part whose parameters make it the identity. The laws of
//! composition are stated over `ExactAffine`, the affine map
//! `(x, y) -> (m11 x + m12 y + dx, m21 x + m22 y + dy)` in exact arithmetic.
use vstd::prelude::*;

verus! {

/// One part of a composed transform.
#[derive(Clone, Copy, Debug, PartialEq, Eq, Structural)]
pub enum Step {
    Translate,
    Rotate,
    Scale,
}

/// The parts to multiply in, in order: translation, rotation, scale, each only when flagged.
pub open spec fn planned_steps(translate: bool, rotate: bool, scale: bool) -> Seq<Step> {
    let t = if translate {
        seq![Step::Translate]
    } else {
        Seq::<Step>::empty()
    };
    let r = if rotate {
        seq![Step::Rotate]
    } else {
        Seq::<Step>::empty()
    };
    let s = if scale {
        seq![Step::Scale]
    } else {
        Seq::<Step>::empty()
    };
    t + r + s
}

/// The parts of a composed transform to multiply in, in order. A flag is false when that
/// part's parameters make it the identity, and the part is then left out.
pub fn composition_steps(translate: bool, rotate: bool, scale: bool) -> (r: Vec<Step>)
    ensures
        r@ == planned_steps(translate, rotate, scale),
{
    let mut steps: Vec<Step> = Vec::new();
    if translate {
        steps.push(Step::Translate);
    }
    if rotate {
        steps.push(Step::Rotate);
    }
    if scale {
        steps.push(Step::Scale);
    }
    proof {
        let t = if translate {
            seq![Step::Translate]
        } else {
            Seq::<Step>::empty()
        };
        let r = if rotate {
            seq![Step::Rotate]
        } else {
            Seq::<Step>::empty()
        };
        let s = if scale {
            seq![Step::Scale]
        } else {
            Seq::<Step>::empty()
        };
        assert(steps@ =~= t + r + s);
    }
    steps
}

/// An affine map of the plane in exact arithmetic:
/// `(x, y) -> (m11 x + m12 y + dx, m21 x + m22 y + dy)`.
pub ghost struct ExactAffine {
    pub m11: int,
    pub m12: int,
    pub m21: int,
    pub m22: int,
    pub dx: int,
    pub dy: int,
}

/// The identity map.
pub open spec fn identity() -> ExactAffine {
    ExactAffine { m11: 1, m12: 0, m21: 0, m22: 1, dx: 0, dy: 0 }
}

/// A pure translation.
pub open spec fn translation(dx: int, dy: int) -> ExactAffine {
    ExactAffine { m11: 1, m12: 0, m21: 0, m22: 1, dx, dy }
}

/// A pure scale about the origin.
pub open spec fn scaling(sx: int, sy: int) -> ExactAffine {
    ExactAffine { m11: sx, m12: 0, m21: 0, m22: sy, dx: 0, dy: 0 }
}

/// The image of the point `(x, y)` under `m`.
pub open spec fn apply(m: ExactAffine, x: int, y: int) -> (int, int) {
    (m.m11 * x + m.m12 * y + m.dx, m.m21 * x + m.m22 * y + m.dy)
}

/// The product `a * b`: linear parts multiplied, translation `a.linear * b.translation +
/// a.translation`.
pub open spec fn multiply(a: ExactAffine, b: ExactAffine) -> ExactAffine {
    ExactAffine {
        m11: a.m11 * b.m11 + a.m12 * b.m21,
        m12: a.m11 * b.m12 + a.m12 * b.m22,
        m21: a.m21 * b.m11 + a.m22 * b.m21,
        m22: a.m21 * b.m12 + a.m22 * b.m22,
        dx: a.m11 * b.dx + a.m12 * b.dy + a.dx,
        dy: a.m21 * b.dx + a.m22 * b.dy + a.dy,
    }
}

/// The images of all `vertices` under `m`, in order.
pub open spec fn transform_vertices(m: ExactAffine, vertices: Seq<(int, int)>) -> Seq<(int, int)> {
    vertices.map_values(|v: (int, int)| apply(m, v.0, v.1))
}

/// The matrix that a step stands for, given the translation, rotation and scale matrices.
pub open spec fn step_matrix(
    step: Step,
    t: ExactAffine,
    r: ExactAffine,
    s: ExactAffine,
) -> ExactAffine {
    match step {
        Step::Translate => t,
        Step::Rotate => r,
        Step::Scale => s,
    }
}

/// The accumulator after multiplying in each of `steps` in turn, starting from the identity:
/// `acc = multiply(acc, next)`.
pub open spec fn composed(
    steps: Seq<Step>,
    t: ExactAffine,
    r: ExactAffine,
    s: ExactAffine,
) -> ExactAffine
    decreases steps.len(),
{
    if steps.len() == 0 {
        identity()
    } else {
        multiply(composed(steps.drop_last(), t, r, s), step_matrix(steps.last(), t, r, s))
    }
}

/// One output coordinate of a product, regrouped by the input coordinates.
proof fn lemma_row_regroups(p: int, q: int, c: int, u: (int, int, int), v: (int, int, int), x: int, y: int)
    ensures
        p * (u.0 * x + u.1 * y + u.2) + q * (v.0 * x + v.1 * y + v.2) + c == (p * u.0 + q * v.0)
            * x + (p * u.1 + q * v.1) * y + (p * u.2 + q * v.2 + c),
{
    assert(p * (u.0 * x + u.1 * y + u.2) == (p * u.0) * x + (p * u.1) * y + p * u.2)
        by (nonlinear_arith);
    assert(q * (v.0 * x + v.1 * y + v.2) == (q * v.0) * x + (q * v.1) * y + q * v.2)
        by (nonlinear_arith);
    assert((p * u.0 + q * v.0) * x == (p * u.0) * x + (q * v.0) * x) by (nonlinear_arith);
    assert((p * u.1 + q * v.1) * y == (p * u.1) * y + (q * v.1) * y) by (nonlinear_arith);
}

/// Applying `multiply(a, b)` to a point is applying `b` first and then `a`.
pub proof fn lemma_multiply_applies(a: ExactAffine, b: ExactAffine, x: int, y: int)
    ensures
        apply(multiply(a, b), x, y) == apply(a, apply(b, x, y).0, apply(b, x, y).1),
{
    let bu = (b.m11, b.m12, b.dx);
    let bv = (b.m21, b.m22, b.dy);
    lemma_row_regroups(a.m11, a.m12, a.dx, bu, bv, x, y);
    lemma_row_regroups(a.m21, a.m22, a.dy, bu, bv, x, y);
}

/// Transforming a polygon's vertices by the identity leaves them as they are.
pub proof fn lemma_identity_transform(vertices: Seq<(int, int)>)
    ensures
        transform_vertices(identity(), vertices) == vertices,
{
    assert(transform_vertices(identity(), vertices) =~= vertices);
}

/// The identity is neutral on both sides of a product.
pub proof fn lemma_identity_neutral(a: ExactAffine)
    ensures
        multiply(a, identity()) == a,
        multiply(identity(), a) == a,
{
}

/// A translation by zero and a scale by one are the identity.
pub proof fn lemma_trivial_parts_are_identity()
    ensures
        translation(0, 0) == identity(),
        scaling(1, 1) == identity(),
{
}

/// Leaving out the parts that are the identity does not change the composed transform: the
/// planned steps give the same matrix as multiplying in the translation, the rotation and the
/// scale unconditionally.
pub proof fn lemma_skipping_identity_parts(
    translate: bool,
    rotate: bool,
    scale: bool,
    t: ExactAffine,
    r: ExactAffine,
    s: ExactAffine,
)
    requires
        !translate ==> t == identity(),
        !rotate ==> r == identity(),
        !scale ==> s == identity(),
    ensures
        composed(planned_steps(translate, rotate, scale), t, r, s) == multiply(
            multiply(multiply(identity(), t), r),
            s,
        ),
{
    let all = seq![Step::Translate, Step::Rotate, Step::Scale];
    let p = planned_steps(translate, rotate, scale);
    lemma_identity_neutral(t);
    lemma_identity_neutral(r);
    lemma_identity_neutral(s);
    lemma_identity_neutral(multiply(t, r));
    let t_part = if translate { seq![Step::Translate] } else { Seq::<Step>::empty() };
    let r_part = if rotate { seq![Step::Rotate] } else { Seq::<Step>::empty() };
    let tr = t_part + r_part;
    assert(p == tr + if scale { seq![Step::Scale] } else { Seq::<Step>::empty() });
    if scale {
        assert(p.drop_last() =~= tr);
        assert(p.last() == Step::Scale);
    } else {
        assert(p =~= tr);
    }
    if rotate {
        assert(tr.drop_last() =~= t_part);
        assert(tr.last() == Step::Rotate);
    } else {
        assert(tr =~= t_part);
    }
    if translate {
        assert(t_part.drop_last() =~= Seq::<Step>::empty());
    }
    assert(composed(Seq::<Step>::empty(), t, r, s) == identity());
    assert(composed(t_part, t, r, s) == multiply(identity(), t));
    assert(composed(tr, t, r, s) == multiply(multiply(identity(), t), r));
}

} // verus!
