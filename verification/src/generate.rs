//! The generation pass: from a type definition to the structured
//! description of its `animate` implementation.
//!
//! The pass walks every variant once. An error variant contributes no
//! arm but forces the catch-all. A live variant contributes one arm
//! with one statement per field — an equality check for an "equal"
//! field, a delegated call otherwise — and its fields' bounds are
//! pushed into the shared accumulator: comparability and duplicability
//! for an "equal" field whose type mentions a generic parameter, the
//! animatability bound unconditionally for every other field.

use vstd::prelude::*;
use crate::output::{
    ArmField, ArmFieldView, Bound, BoundKind, BoundView, FieldOp, GeneratedImpl,
    GeneratedImplView, MatchArm, MatchArmView,
};
use crate::shape::{
    Field, FieldView, Ty, TypeDef, TypeDefView, Variant, VariantView, is_parameterized,
    ty_mentions_param,
};

verus! {

/// The statement an attributed field gets: exactly one of the two
/// branches applies to every field of a live variant.
pub open spec fn field_op_of(f: FieldView) -> FieldOp {
    if f.equal {
        FieldOp::CheckEqual
    } else {
        FieldOp::Animate
    }
}

/// The match arm generated for one live variant.
pub open spec fn arm_of(v: VariantView) -> MatchArmView {
    MatchArmView {
        variant: v.name,
        fields: v.fields.map_values(|f: FieldView| ArmFieldView { name: f.name, op: field_op_of(f) }),
    }
}

/// The arms generated for a variant list: one per live variant, in
/// declaration order; error variants contribute none.
pub open spec fn arms_of(vs: Seq<VariantView>) -> Seq<MatchArmView>
    decreases vs.len(),
{
    if vs.len() == 0 {
        Seq::empty()
    } else if vs.last().error {
        arms_of(vs.drop_last())
    } else {
        arms_of(vs.drop_last()) + seq![arm_of(vs.last())]
    }
}

/// The where-clause predicates one field requires: an "equal" field
/// needs comparability and duplicability, but only when its type
/// mentions a generic parameter; every other field needs the
/// animatability bound unconditionally.
pub open spec fn field_bounds(f: FieldView, params: Seq<Seq<char>>) -> Seq<BoundView> {
    if f.equal {
        if ty_mentions_param(f.ty, params) {
            seq![
                BoundView { ty: f.ty, kind: BoundKind::Compare },
                BoundView { ty: f.ty, kind: BoundKind::Duplicate },
            ]
        } else {
            Seq::empty()
        }
    } else {
        seq![BoundView { ty: f.ty, kind: BoundKind::Animate }]
    }
}

/// The predicates a field list requires, in field order.
pub open spec fn fields_bounds(fs: Seq<FieldView>, params: Seq<Seq<char>>) -> Seq<BoundView>
    decreases fs.len(),
{
    if fs.len() == 0 {
        Seq::empty()
    } else {
        fields_bounds(fs.drop_last(), params) + field_bounds(fs.last(), params)
    }
}

/// The predicates accumulated over a whole variant list: fields of
/// error variants are never visited, so they contribute none.
pub open spec fn bounds_of(vs: Seq<VariantView>, params: Seq<Seq<char>>) -> Seq<BoundView>
    decreases vs.len(),
{
    if vs.len() == 0 {
        Seq::empty()
    } else if vs.last().error {
        bounds_of(vs.drop_last(), params)
    } else {
        bounds_of(vs.drop_last(), params) + fields_bounds(vs.last().fields, params)
    }
}

/// Whether the generated match needs a trailing catch-all arm: always
/// when more than one variant exists (cross-variant combinations must
/// fail), and when any variant is an error variant (its operands must
/// fail even under a single-variant match).
pub open spec fn needs_catch_all(vs: Seq<VariantView>) -> bool {
    vs.len() > 1 || exists|k: int| 0 <= k < vs.len() && vs[k].error
}

/// The whole generated implementation for a type definition.
pub open spec fn generated_impl_of(t: TypeDefView) -> GeneratedImplView {
    GeneratedImplView {
        name: t.name,
        params: t.params,
        bounds: bounds_of(t.variants, t.params),
        arms: arms_of(t.variants),
        catch_all: needs_catch_all(t.variants),
    }
}

fn clone_strings(v: &Vec<String>) -> (r: Vec<String>)
    ensures
        r.deep_view() == v.deep_view(),
{
    let mut r: Vec<String> = Vec::new();
    let n: usize = v.len();
    let mut j: usize = 0;
    while j < n
        invariant
            n == v.len(),
            j <= n,
            r.deep_view().len() == j,
            forall|k: int| 0 <= k < j ==> r.deep_view()[k] == v.deep_view()[k],
        decreases n - j,
    {
        r.push(v[j].clone());
        j += 1;
    }
    proof {
        assert(r.deep_view() =~= v.deep_view());
    }
    r
}

fn clone_ty(t: &Ty) -> (r: Ty)
    ensures
        r@ == t@,
{
    let r = Ty { text: t.text.clone(), idents: clone_strings(&t.idents) };
    proof {
        assert(r@ =~= t@);
    }
    r
}

fn arm_fields_for(v: &Variant) -> (r: Vec<ArmField>)
    ensures
        r.deep_view() == arm_of(v@).fields,
{
    let mut r: Vec<ArmField> = Vec::new();
    let n: usize = v.fields.len();
    let mut j: usize = 0;
    while j < n
        invariant
            n == v.fields.len(),
            j <= n,
            r.deep_view().len() == j,
            forall|k: int| 0 <= k < j ==> r.deep_view()[k] == arm_of(v@).fields[k],
        decreases n - j,
    {
        let f = &v.fields[j];
        let op = if f.attrs.equal {
            FieldOp::CheckEqual
        } else {
            FieldOp::Animate
        };
        let ghost pre = r.deep_view();
        r.push(ArmField { name: f.name.clone(), op });
        proof {
            assert(v@.fields[j as int] == f@);
            assert forall|k: int| 0 <= k < j + 1 implies r.deep_view()[k] == arm_of(
                v@,
            ).fields[k] by {
                if k < j {
                    assert(r.deep_view()[k] == pre[k]);
                    assert(pre[k] == arm_of(v@).fields[k]);
                }
            }
        }
        j += 1;
    }
    proof {
        assert(r.deep_view() =~= arm_of(v@).fields);
    }
    r
}

fn push_bounds_for_fields(bounds: &mut Vec<Bound>, fields: &Vec<Field>, params: &Vec<String>)
    ensures
        final(bounds).deep_view() == old(bounds).deep_view() + fields_bounds(
            fields.deep_view(),
            params.deep_view(),
        ),
{
    let n: usize = fields.len();
    let mut j: usize = 0;
    while j < n
        invariant
            n == fields.len(),
            j <= n,
            bounds.deep_view() == old(bounds).deep_view() + fields_bounds(
                fields.deep_view().take(j as int),
                params.deep_view(),
            ),
        decreases n - j,
    {
        let ghost pre = bounds.deep_view();
        let f = &fields[j];
        if f.attrs.equal {
            if is_parameterized(&f.ty, params) {
                bounds.push(Bound { ty: clone_ty(&f.ty), kind: BoundKind::Compare });
                bounds.push(Bound { ty: clone_ty(&f.ty), kind: BoundKind::Duplicate });
            }
        } else {
            bounds.push(Bound { ty: clone_ty(&f.ty), kind: BoundKind::Animate });
        }
        proof {
            let fs = fields.deep_view();
            let ps = params.deep_view();
            assert(fs.take(j as int + 1).drop_last() =~= fs.take(j as int));
            assert(fs.take(j as int + 1).last() == fs[j as int]);
            assert(bounds.deep_view() =~= pre + field_bounds(fs[j as int], ps));
            assert(bounds.deep_view() =~= old(bounds).deep_view() + fields_bounds(
                fs.take(j as int + 1),
                ps,
            ));
        }
        j += 1;
    }
    proof {
        assert(fields.deep_view().take(n as int) =~= fields.deep_view());
    }
}

/// The generation pass. The result is exactly the structured
/// implementation that [`generated_impl_of`] ascribes to the input's
/// shape: arms for the live variants in order, the catch-all flag, and
/// the accumulated where-clause.
pub fn derive(input: &TypeDef) -> (r: GeneratedImpl)
    ensures
        r@ == generated_impl_of(input@),
{
    let mut arms: Vec<MatchArm> = Vec::new();
    let mut bounds: Vec<Bound> = Vec::new();
    let mut saw_error: bool = false;
    let n: usize = input.variants.len();
    let mut i: usize = 0;
    while i < n
        invariant
            n == input.variants.len(),
            i <= n,
            arms.deep_view() == arms_of(input@.variants.take(i as int)),
            bounds.deep_view() == bounds_of(input@.variants.take(i as int), input@.params),
            saw_error == exists|k: int| 0 <= k < i && input@.variants[k].error,
        decreases n - i,
    {
        let ghost pre_arms = arms.deep_view();
        let ghost pre_bounds = bounds.deep_view();
        let v = &input.variants[i];
        if v.attrs.error {
            saw_error = true;
        } else {
            let afields = arm_fields_for(v);
            push_bounds_for_fields(&mut bounds, &v.fields, &input.params);
            arms.push(MatchArm { variant: v.name.clone(), fields: afields });
        }
        proof {
            let vs = input@.variants;
            let ps = input@.params;
            assert(vs.take(i as int + 1).drop_last() =~= vs.take(i as int));
            assert(vs.take(i as int + 1).last() == vs[i as int]);
            assert(vs[i as int] == v@);
            if v@.error {
                assert(arms.deep_view() == arms_of(vs.take(i as int + 1)));
                assert(bounds.deep_view() == bounds_of(vs.take(i as int + 1), ps));
            } else {
                assert(arms.deep_view().last() =~= arm_of(v@));
                assert(arms.deep_view() =~= arms_of(vs.take(i as int + 1)));
                assert(bounds.deep_view() =~= bounds_of(vs.take(i as int + 1), ps));
            }
        }
        i += 1;
    }
    let catch_all = input.variants.len() > 1 || saw_error;
    let r = GeneratedImpl {
        name: input.name.clone(),
        params: clone_strings(&input.params),
        bounds,
        arms,
        catch_all,
    };
    proof {
        assert(input@.variants.take(n as int) =~= input@.variants);
        assert(r@ =~= generated_impl_of(input@));
    }
    r
}

} // verus!
