//! The laws the generated dispatch obeys, proved against the
//! generation pass and its semantics.

use vstd::prelude::*;
use crate::generate::{
    arm_of, arms_of, bounds_of, field_bounds, fields_bounds, generated_impl_of,
};
use crate::output::{BoundKind, BoundView, FieldOp};
use crate::semantics::{
    AbsValue, arm_ops, find_arm, lemma_find_arm, lemma_sem_fields_pointwise, sem_animate,
    sem_field, sem_fields,
};
use crate::shape::{FieldView, TypeDefView, VariantView, ty_mentions_param};

verus! {

/// Variant names are pairwise distinct, as the host language requires
/// of one type's constructors.
pub open spec fn distinct_variant_names(vs: Seq<VariantView>) -> bool {
    forall|p: int, q: int| 0 <= p < q < vs.len() ==> vs[p].name != vs[q].name
}

/// A value built by variant `i`'s constructor of `t`, with one field
/// value per declared field.
pub open spec fn is_operand_of<V>(t: TypeDefView, i: int, v: AbsValue<V>) -> bool {
    &&& 0 <= i < t.variants.len()
    &&& v.ctor == t.variants[i].name
    &&& v.fields.len() == t.variants[i].fields.len()
}

proof fn lemma_arms_membership(vs: Seq<VariantView>)
    ensures
        forall|k: int|
            0 <= k < arms_of(vs).len() ==> exists|p: int|
                0 <= p < vs.len() && !vs[p].error && #[trigger] arms_of(vs)[k] == arm_of(vs[p]),
    decreases vs.len(),
{
    if vs.len() == 0 {
    } else {
        lemma_arms_membership(vs.drop_last());
        let prefix = arms_of(vs.drop_last());
        assert forall|k: int| 0 <= k < arms_of(vs).len() implies exists|p: int|
            0 <= p < vs.len() && !vs[p].error && #[trigger] arms_of(vs)[k] == arm_of(vs[p]) by {
            if k < prefix.len() {
                assert(arms_of(vs)[k] == prefix[k]);
                let p = choose|p: int|
                    0 <= p < vs.drop_last().len() && !vs.drop_last()[p].error && prefix[k]
                        == arm_of(vs.drop_last()[p]);
                assert(vs.drop_last()[p] == vs[p]);
                assert(arms_of(vs)[k] == arm_of(vs[p]));
            } else {
                assert(!vs.last().error);
                assert(arms_of(vs)[k] == arm_of(vs[vs.len() - 1]));
            }
        }
    }
}

proof fn lemma_live_arm_present(vs: Seq<VariantView>, i: int)
    requires
        0 <= i < vs.len(),
        !vs[i].error,
    ensures
        exists|k: int|
            0 <= k < arms_of(vs).len() && #[trigger] arms_of(vs)[k] == arm_of(vs[i]),
    decreases vs.len(),
{
    if i == vs.len() - 1 {
        assert(arms_of(vs)[arms_of(vs).len() - 1] == arm_of(vs[i]));
    } else {
        assert(vs.drop_last()[i] == vs[i]);
        lemma_live_arm_present(vs.drop_last(), i);
        let k = choose|k: int|
            0 <= k < arms_of(vs.drop_last()).len() && #[trigger] arms_of(vs.drop_last())[k]
                == arm_of(vs.drop_last()[i]);
        assert(arms_of(vs)[k] == arm_of(vs[i]));
    }
}

/// With distinct constructor names the generated match is routed by
/// the operands' variant: a live variant's operands reach exactly the
/// arm generated for that variant, and an error variant's operands
/// reach no arm at all.
pub proof fn lemma_dispatch_arm(vs: Seq<VariantView>, i: int)
    requires
        distinct_variant_names(vs),
        0 <= i < vs.len(),
    ensures
        !vs[i].error ==> 0 <= find_arm(arms_of(vs), vs[i].name) < arms_of(vs).len()
            && arms_of(vs)[find_arm(arms_of(vs), vs[i].name)] == arm_of(vs[i]),
        vs[i].error ==> find_arm(arms_of(vs), vs[i].name) == -1,
{
    lemma_arms_membership(vs);
    if !vs[i].error {
        lemma_live_arm_present(vs, i);
        let kw = choose|k: int|
            0 <= k < arms_of(vs).len() && #[trigger] arms_of(vs)[k] == arm_of(vs[i]);
        assert(arms_of(vs)[kw].variant == vs[i].name);
        lemma_find_arm(arms_of(vs), vs[i].name);
        let k = find_arm(arms_of(vs), vs[i].name);
        assert(0 <= k < arms_of(vs).len() && arms_of(vs)[k].variant == vs[i].name);
        let p = choose|p: int|
            0 <= p < vs.len() && !vs[p].error && #[trigger] arms_of(vs)[k] == arm_of(vs[p]);
        assert(vs[p].name == vs[i].name);
        if p < i {
            assert(vs[p].name != vs[i].name);
        } else if i < p {
            assert(vs[i].name != vs[p].name);
        }
        assert(p == i);
    } else {
        assert forall|k: int| 0 <= k < arms_of(vs).len() implies arms_of(vs)[k].variant
            != vs[i].name by {
            let p = choose|p: int|
                0 <= p < vs.len() && !vs[p].error && #[trigger] arms_of(vs)[k] == arm_of(vs[p]);
            assert(arms_of(vs)[k].variant == vs[p].name);
            if p < i {
                assert(vs[p].name != vs[i].name);
            } else if i < p {
                assert(vs[i].name != vs[p].name);
            }
        }
        lemma_find_arm(arms_of(vs), vs[i].name);
    }
}

proof fn lemma_sem_fields_self_id<V>(ops: Seq<FieldOp>, a: Seq<V>, anim: spec_fn(V, V) -> Option<V>)
    requires
        a.len() == ops.len(),
        forall|x: V| #[trigger] anim(x, x) == Some(x),
    ensures
        sem_fields(ops, a, a, anim) == Some(a),
    decreases ops.len(),
{
    if ops.len() == 0 {
        assert(a =~= Seq::<V>::empty());
    } else {
        lemma_sem_fields_self_id(ops.drop_first(), a.drop_first(), anim);
        assert(sem_field(ops[0], a[0], a[0], anim) == Some(a[0]));
        assert(seq![a[0]] + a.drop_first() =~= a);
    }
}

proof fn lemma_sem_fields_fail_at<V>(
    ops: Seq<FieldOp>,
    a: Seq<V>,
    b: Seq<V>,
    anim: spec_fn(V, V) -> Option<V>,
    j: int,
)
    requires
        a.len() == ops.len(),
        b.len() == ops.len(),
        0 <= j < ops.len(),
        sem_field(ops[j], a[j], b[j], anim) is None,
    ensures
        sem_fields(ops, a, b, anim) is None,
    decreases ops.len(),
{
    if j == 0 {
    } else if sem_field(ops[0], a[0], b[0], anim) is None {
    } else {
        assert(ops.drop_first()[j - 1] == ops[j]);
        assert(a.drop_first()[j - 1] == a[j]);
        assert(b.drop_first()[j - 1] == b[j]);
        lemma_sem_fields_fail_at(ops.drop_first(), a.drop_first(), b.drop_first(), anim, j - 1);
    }
}

/// Combining a value of a live variant with itself, under any
/// interpolation that preserves identity on equal inputs, succeeds and
/// reproduces the value: every equality check trivially passes and
/// every delegated call receives two equal field values.
pub proof fn lemma_self_combine_identity<V>(
    t: TypeDefView,
    i: int,
    v: AbsValue<V>,
    anim: spec_fn(V, V) -> Option<V>,
)
    requires
        distinct_variant_names(t.variants),
        is_operand_of(t, i, v),
        !t.variants[i].error,
        forall|x: V| #[trigger] anim(x, x) == Some(x),
    ensures
        sem_animate(generated_impl_of(t), v, v, anim) == Some(v),
{
    lemma_dispatch_arm(t.variants, i);
    let g = generated_impl_of(t);
    let k = find_arm(g.arms, v.ctor);
    assert(g.arms[k] == arm_of(t.variants[i]));
    let ops = arm_ops(g.arms[k]);
    assert(ops.len() == t.variants[i].fields.len());
    lemma_sem_fields_self_id(ops, v.fields, anim);
    assert(AbsValue { ctor: v.ctor, fields: v.fields } =~= v);
}

/// Two operands of one variant that disagree on a field marked
/// "equal" never combine, regardless of every other field and of the
/// interpolation in force: the generated equality check fails, or —
/// when the variant is an error variant — no arm exists at all.
pub proof fn lemma_equal_field_mismatch_fails<V>(
    t: TypeDefView,
    i: int,
    j: int,
    x: AbsValue<V>,
    y: AbsValue<V>,
    anim: spec_fn(V, V) -> Option<V>,
)
    requires
        distinct_variant_names(t.variants),
        is_operand_of(t, i, x),
        is_operand_of(t, i, y),
        0 <= j < t.variants[i].fields.len(),
        t.variants[i].fields[j].equal,
        x.fields[j] != y.fields[j],
    ensures
        sem_animate(generated_impl_of(t), x, y, anim) is None,
{
    lemma_dispatch_arm(t.variants, i);
    let g = generated_impl_of(t);
    if !t.variants[i].error {
        let k = find_arm(g.arms, x.ctor);
        assert(g.arms[k] == arm_of(t.variants[i]));
        let ops = arm_ops(g.arms[k]);
        assert(ops[j] == FieldOp::CheckEqual);
        assert(sem_field(ops[j], x.fields[j], y.fields[j], anim) is None);
        lemma_sem_fields_fail_at(ops, x.fields, y.fields, anim, j);
    }
}

/// Two operands of an error variant never combine: no arm is
/// generated for the variant, and the pairing falls to the catch-all,
/// whose presence the error variant itself forces.
pub proof fn lemma_error_variant_fails<V>(
    t: TypeDefView,
    i: int,
    x: AbsValue<V>,
    y: AbsValue<V>,
    anim: spec_fn(V, V) -> Option<V>,
)
    requires
        distinct_variant_names(t.variants),
        is_operand_of(t, i, x),
        is_operand_of(t, i, y),
        t.variants[i].error,
    ensures
        sem_animate(generated_impl_of(t), x, y, anim) is None,
        generated_impl_of(t).catch_all,
{
    lemma_dispatch_arm(t.variants, i);
}

/// Operands of two different variants never combine, whatever their
/// fields hold; the catch-all arm this failure falls to is always
/// generated when more than one variant exists.
pub proof fn lemma_cross_variant_fails<V>(
    t: TypeDefView,
    i: int,
    j: int,
    x: AbsValue<V>,
    y: AbsValue<V>,
    anim: spec_fn(V, V) -> Option<V>,
)
    requires
        distinct_variant_names(t.variants),
        is_operand_of(t, i, x),
        is_operand_of(t, j, y),
        i != j,
    ensures
        sem_animate(generated_impl_of(t), x, y, anim) is None,
        generated_impl_of(t).catch_all,
{
    if i < j {
        assert(t.variants[i].name != t.variants[j].name);
    } else {
        assert(t.variants[j].name != t.variants[i].name);
    }
}

/// Exactly one branch decides each field's statement: a live
/// variant's arm gives a field the equality check when and only when
/// the field is marked "equal", and the delegated call otherwise.
pub proof fn lemma_one_statement_per_field(t: TypeDefView, i: int, j: int)
    requires
        0 <= i < t.variants.len(),
        !t.variants[i].error,
        0 <= j < t.variants[i].fields.len(),
    ensures
        arm_of(t.variants[i]).fields[j].op == FieldOp::CheckEqual <==> t.variants[i].fields[j].equal,
        arm_of(t.variants[i]).fields[j].op == FieldOp::Animate <==> !t.variants[i].fields[j].equal,
{
}


proof fn lemma_contains_concat_left<A>(x: Seq<A>, y: Seq<A>, b: A)
    requires
        x.contains(b),
    ensures
        (x + y).contains(b),
{
    let m = choose|m: int| 0 <= m < x.len() && x[m] == b;
    assert((x + y)[m] == b);
}

proof fn lemma_contains_concat_right<A>(x: Seq<A>, y: Seq<A>, b: A)
    requires
        y.contains(b),
    ensures
        (x + y).contains(b),
{
    let m = choose|m: int| 0 <= m < y.len() && y[m] == b;
    assert((x + y)[x.len() + m] == b);
}

proof fn lemma_fields_bounds_cover(fs: Seq<FieldView>, params: Seq<Seq<char>>, j: int, b: BoundView)
    requires
        0 <= j < fs.len(),
        field_bounds(fs[j], params).contains(b),
    ensures
        fields_bounds(fs, params).contains(b),
    decreases fs.len(),
{
    if j == fs.len() - 1 {
        lemma_contains_concat_right(
            fields_bounds(fs.drop_last(), params),
            field_bounds(fs.last(), params),
            b,
        );
    } else {
        assert(fs.drop_last()[j] == fs[j]);
        lemma_fields_bounds_cover(fs.drop_last(), params, j, b);
        lemma_contains_concat_left(
            fields_bounds(fs.drop_last(), params),
            field_bounds(fs.last(), params),
            b,
        );
    }
}

proof fn lemma_bounds_of_cover(vs: Seq<VariantView>, params: Seq<Seq<char>>, i: int, b: BoundView)
    requires
        0 <= i < vs.len(),
        !vs[i].error,
        fields_bounds(vs[i].fields, params).contains(b),
    ensures
        bounds_of(vs, params).contains(b),
    decreases vs.len(),
{
    if i == vs.len() - 1 {
        lemma_contains_concat_right(
            bounds_of(vs.drop_last(), params),
            fields_bounds(vs.last().fields, params),
            b,
        );
    } else {
        assert(vs.drop_last()[i] == vs[i]);
        lemma_bounds_of_cover(vs.drop_last(), params, i, b);
        if !vs.last().error {
            lemma_contains_concat_left(
                bounds_of(vs.drop_last(), params),
                fields_bounds(vs.last().fields, params),
                b,
            );
        }
    }
}

/// An "equal" field whose type mentions a generic parameter puts both
/// the comparability and the duplicability predicate on the emitted
/// where-clause: the generated equality check and value copy need
/// them, and an impl lacking either could not type-check.
pub proof fn lemma_equal_field_bounds_present(t: TypeDefView, i: int, j: int)
    requires
        0 <= i < t.variants.len(),
        !t.variants[i].error,
        0 <= j < t.variants[i].fields.len(),
        t.variants[i].fields[j].equal,
        ty_mentions_param(t.variants[i].fields[j].ty, t.params),
    ensures
        generated_impl_of(t).bounds.contains(
            BoundView { ty: t.variants[i].fields[j].ty, kind: BoundKind::Compare },
        ),
        generated_impl_of(t).bounds.contains(
            BoundView { ty: t.variants[i].fields[j].ty, kind: BoundKind::Duplicate },
        ),
{
    let f = t.variants[i].fields[j];
    let cb = BoundView { ty: f.ty, kind: BoundKind::Compare };
    let db = BoundView { ty: f.ty, kind: BoundKind::Duplicate };
    assert(field_bounds(f, t.params)[0] == cb);
    assert(field_bounds(f, t.params)[1] == db);
    assert(field_bounds(f, t.params).contains(cb));
    assert(field_bounds(f, t.params).contains(db));
    lemma_fields_bounds_cover(t.variants[i].fields, t.params, j, cb);
    lemma_fields_bounds_cover(t.variants[i].fields, t.params, j, db);
    lemma_bounds_of_cover(t.variants, t.params, i, cb);
    lemma_bounds_of_cover(t.variants, t.params, i, db);
}

/// An interpolated field puts the animatability predicate on the
/// emitted where-clause unconditionally, whether or not its type
/// mentions a generic parameter.
pub proof fn lemma_animate_bound_present(t: TypeDefView, i: int, j: int)
    requires
        0 <= i < t.variants.len(),
        !t.variants[i].error,
        0 <= j < t.variants[i].fields.len(),
        !t.variants[i].fields[j].equal,
    ensures
        generated_impl_of(t).bounds.contains(
            BoundView { ty: t.variants[i].fields[j].ty, kind: BoundKind::Animate },
        ),
{
    let f = t.variants[i].fields[j];
    let ab = BoundView { ty: f.ty, kind: BoundKind::Animate };
    assert(field_bounds(f, t.params)[0] == ab);
    assert(field_bounds(f, t.params).contains(ab));
    lemma_fields_bounds_cover(t.variants[i].fields, t.params, j, ab);
    lemma_bounds_of_cover(t.variants, t.params, i, ab);
}

proof fn lemma_fields_bounds_inv(fs: Seq<FieldView>, params: Seq<Seq<char>>, b: BoundView)
    requires
        fields_bounds(fs, params).contains(b),
    ensures
        exists|j: int|
            0 <= j < fs.len() && #[trigger] field_bounds(fs[j], params).contains(b),
    decreases fs.len(),
{
    if fs.len() == 0 {
        let m = choose|m: int|
            0 <= m < fields_bounds(fs, params).len() && fields_bounds(fs, params)[m] == b;
    } else {
        let x = fields_bounds(fs.drop_last(), params);
        let y = field_bounds(fs.last(), params);
        let m = choose|m: int| 0 <= m < (x + y).len() && (x + y)[m] == b;
        if m < x.len() {
            assert(x[m] == b);
            assert(x.contains(b));
            lemma_fields_bounds_inv(fs.drop_last(), params, b);
            let j = choose|j: int|
                0 <= j < fs.drop_last().len() && #[trigger] field_bounds(
                    fs.drop_last()[j],
                    params,
                ).contains(b);
            assert(fs.drop_last()[j] == fs[j]);
            assert(field_bounds(fs[j], params).contains(b));
        } else {
            assert(y[m - x.len()] == b);
            assert(y.contains(b));
            assert(field_bounds(fs[fs.len() - 1], params).contains(b));
        }
    }
}

proof fn lemma_bounds_of_inv(vs: Seq<VariantView>, params: Seq<Seq<char>>, b: BoundView)
    requires
        bounds_of(vs, params).contains(b),
    ensures
        exists|i: int|
            0 <= i < vs.len() && !vs[i].error && #[trigger] fields_bounds(
                vs[i].fields,
                params,
            ).contains(b),
    decreases vs.len(),
{
    if vs.len() == 0 {
        let m = choose|m: int|
            0 <= m < bounds_of(vs, params).len() && bounds_of(vs, params)[m] == b;
    } else if vs.last().error {
        lemma_bounds_of_inv(vs.drop_last(), params, b);
        let i = choose|i: int|
            0 <= i < vs.drop_last().len() && !vs.drop_last()[i].error && #[trigger] fields_bounds(
                vs.drop_last()[i].fields,
                params,
            ).contains(b);
        assert(vs.drop_last()[i] == vs[i]);
        assert(fields_bounds(vs[i].fields, params).contains(b));
    } else {
        let x = bounds_of(vs.drop_last(), params);
        let y = fields_bounds(vs.last().fields, params);
        let m = choose|m: int| 0 <= m < (x + y).len() && (x + y)[m] == b;
        if m < x.len() {
            assert(x[m] == b);
            assert(x.contains(b));
            lemma_bounds_of_inv(vs.drop_last(), params, b);
            let i = choose|i: int|
                0 <= i < vs.drop_last().len() && !vs.drop_last()[i].error
                    && #[trigger] fields_bounds(vs.drop_last()[i].fields, params).contains(b);
            assert(vs.drop_last()[i] == vs[i]);
            assert(fields_bounds(vs[i].fields, params).contains(b));
        } else {
            assert(y[m - x.len()] == b);
            assert(y.contains(b));
            assert(fields_bounds(vs[vs.len() - 1].fields, params).contains(b));
        }
    }
}

/// Conversely, the emitted where-clause carries nothing spurious:
/// every predicate on it is one that some field of some live variant
/// requires.
pub proof fn lemma_bounds_justified(t: TypeDefView, b: BoundView)
    requires
        generated_impl_of(t).bounds.contains(b),
    ensures
        exists|i: int, j: int|
            0 <= i < t.variants.len() && !t.variants[i].error && 0 <= j
                < t.variants[i].fields.len() && #[trigger] field_bounds(
                t.variants[i].fields[j],
                t.params,
            ).contains(b),
{
    lemma_bounds_of_inv(t.variants, t.params, b);
    let i = choose|i: int|
        0 <= i < t.variants.len() && !t.variants[i].error && #[trigger] fields_bounds(
            t.variants[i].fields,
            t.params,
        ).contains(b);
    lemma_fields_bounds_inv(t.variants[i].fields, t.params, b);
    let j = choose|j: int|
        0 <= j < t.variants[i].fields.len() && #[trigger] field_bounds(
            t.variants[i].fields[j],
            t.params,
        ).contains(b);
    assert(0 <= i < t.variants.len() && !t.variants[i].error && 0 <= j
        < t.variants[i].fields.len() && field_bounds(
        t.variants[i].fields[j],
        t.params,
    ).contains(b));
}

/// The outcome is a pointwise function of positional pairing:
/// permuting a variant's declared field order, and both operands'
/// field values with it, permutes a successful outcome the same way,
/// and cannot turn success into failure or failure into success.
pub proof fn lemma_field_order_determinism<V>(
    ops1: Seq<FieldOp>,
    a1: Seq<V>,
    b1: Seq<V>,
    ops2: Seq<FieldOp>,
    a2: Seq<V>,
    b2: Seq<V>,
    anim: spec_fn(V, V) -> Option<V>,
    perm: Seq<int>,
    inv: Seq<int>,
)
    requires
        a1.len() == ops1.len(),
        b1.len() == ops1.len(),
        ops2.len() == ops1.len(),
        a2.len() == ops1.len(),
        b2.len() == ops1.len(),
        perm.len() == ops1.len(),
        inv.len() == ops1.len(),
        forall|i: int| 0 <= i < ops1.len() ==> 0 <= #[trigger] perm[i] < ops1.len(),
        forall|i: int| 0 <= i < ops1.len() ==> 0 <= #[trigger] inv[i] < ops1.len(),
        forall|i: int| 0 <= i < ops1.len() ==> inv[#[trigger] perm[i]] == i,
        forall|i: int| 0 <= i < ops1.len() ==> perm[#[trigger] inv[i]] == i,
        forall|i: int|
            0 <= i < ops1.len() ==> #[trigger] ops2[i] == ops1[perm[i]] && a2[i] == a1[perm[i]]
                && b2[i] == b1[perm[i]],
    ensures
        (sem_fields(ops2, a2, b2, anim) is Some) <==> (sem_fields(ops1, a1, b1, anim) is Some),
        (sem_fields(ops1, a1, b1, anim) is Some) ==> forall|i: int|
            0 <= i < ops1.len() ==> #[trigger] sem_fields(ops2, a2, b2, anim).unwrap()[i]
                == sem_fields(ops1, a1, b1, anim).unwrap()[perm[i]],
{
    lemma_sem_fields_pointwise(ops1, a1, b1, anim);
    lemma_sem_fields_pointwise(ops2, a2, b2, anim);
    if sem_fields(ops1, a1, b1, anim) is Some {
        assert forall|i: int| 0 <= i < ops2.len() implies sem_field(
            ops2[i],
            a2[i],
            b2[i],
            anim,
        ) is Some by {
            assert(sem_field(ops1[perm[i]], a1[perm[i]], b1[perm[i]], anim) is Some);
        }
        assert(sem_fields(ops2, a2, b2, anim) is Some);
        assert forall|i: int| 0 <= i < ops1.len() implies #[trigger] sem_fields(
            ops2,
            a2,
            b2,
            anim,
        ).unwrap()[i] == sem_fields(ops1, a1, b1, anim).unwrap()[perm[i]] by {
            assert(sem_fields(ops2, a2, b2, anim).unwrap()[i] == sem_field(
                ops2[i],
                a2[i],
                b2[i],
                anim,
            ).unwrap());
            assert(sem_fields(ops1, a1, b1, anim).unwrap()[perm[i]] == sem_field(
                ops1[perm[i]],
                a1[perm[i]],
                b1[perm[i]],
                anim,
            ).unwrap());
        }
    }
    if sem_fields(ops2, a2, b2, anim) is Some {
        assert forall|i: int| 0 <= i < ops1.len() implies sem_field(
            ops1[i],
            a1[i],
            b1[i],
            anim,
        ) is Some by {
            assert(sem_field(ops2[inv[i]], a2[inv[i]], b2[inv[i]], anim) is Some);
            assert(ops2[inv[i]] == ops1[perm[inv[i]]]);
            assert(perm[inv[i]] == i);
        }
        assert(sem_fields(ops1, a1, b1, anim) is Some);
    }
}


} // verus!
