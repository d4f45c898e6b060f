//! The meaning of the generated dispatch.
//!
//! The generator never touches runtime values, but its output has a
//! precise runtime reading: match on the two operands' constructors,
//! run one statement per field when a single arm covers both, fail
//! through the catch-all otherwise. This module writes that reading
//! down as spec functions over abstract operand values, and gives an
//! executable evaluator over plain values so the dispatch can actually
//! be run. The laws about the generator are stated against these
//! functions.

use vstd::prelude::*;
use crate::output::{ArmFieldView, FieldOp, GeneratedImpl, GeneratedImplView, MatchArm,
    MatchArmView};

verus! {

/// A runtime value of a processed type, in the abstract: the
/// constructor it was built with, and one field value per declared
/// field, with the field representation left generic.
#[verifier::ext_equal]
pub struct AbsValue<V> {
    pub ctor: Seq<char>,
    pub fields: Seq<V>,
}

/// What one generated field statement computes from the two operands'
/// values for that field. The delegated call is abstracted by `anim`,
/// the field type's own interpolation under the procedure in force.
pub open spec fn sem_field<V>(op: FieldOp, a: V, b: V, anim: spec_fn(V, V) -> Option<V>) -> Option<
    V,
> {
    match op {
        FieldOp::CheckEqual => if a == b {
            Some(a)
        } else {
            None
        },
        FieldOp::Animate => anim(a, b),
    }
}

/// What an arm's statement list computes, in field order, failing as
/// soon as one statement fails.
pub open spec fn sem_fields<V>(
    ops: Seq<FieldOp>,
    a: Seq<V>,
    b: Seq<V>,
    anim: spec_fn(V, V) -> Option<V>,
) -> Option<Seq<V>>
    decreases ops.len(),
{
    if ops.len() == 0 {
        Some(Seq::empty())
    } else {
        match sem_field(ops[0], a[0], b[0], anim) {
            Option::None => Option::None,
            Option::Some(v) => match sem_fields(
                ops.drop_first(),
                a.drop_first(),
                b.drop_first(),
                anim,
            ) {
                Option::None => Option::None,
                Option::Some(rest) => Option::Some(seq![v] + rest),
            },
        }
    }
}

/// The statements of an arm, in field order.
pub open spec fn arm_ops(arm: MatchArmView) -> Seq<FieldOp> {
    arm.fields.map_values(|f: ArmFieldView| f.op)
}

/// The index of the first arm whose constructor is `ctor`, or -1 when
/// none matches: the order in which a match tries its arms.
pub open spec fn find_arm(arms: Seq<MatchArmView>, ctor: Seq<char>) -> int
    decreases arms.len(),
{
    if arms.len() == 0 {
        -1
    } else if arms[0].variant == ctor {
        0
    } else if find_arm(arms.drop_first(), ctor) == -1 {
        -1
    } else {
        find_arm(arms.drop_first(), ctor) + 1
    }
}

/// What the generated match computes on two operands: when both carry
/// the same constructor and an arm covers it, the arm's statements run
/// in field order and a success rebuilds the value; any other pairing
/// falls to the catch-all arm and fails. (When no catch-all was
/// generated — a single live variant — every well-formed pairing is
/// covered by the one arm, so the fall-through case never arises.)
pub open spec fn sem_animate<V>(
    g: GeneratedImplView,
    this: AbsValue<V>,
    other: AbsValue<V>,
    anim: spec_fn(V, V) -> Option<V>,
) -> Option<AbsValue<V>> {
    if this.ctor == other.ctor && find_arm(g.arms, this.ctor) >= 0 {
        let arm = g.arms[find_arm(g.arms, this.ctor)];
        match sem_fields(arm_ops(arm), this.fields, other.fields, anim) {
            Option::Some(fs) => Option::Some(AbsValue { ctor: this.ctor, fields: fs }),
            Option::None => Option::None,
        }
    } else {
        Option::None
    }
}

/// Whether the generated match has an arm for this pairing of
/// operands: either the catch-all is present, or a single arm covers
/// both constructors.
pub open spec fn dispatch_covered<V>(
    g: GeneratedImplView,
    this: AbsValue<V>,
    other: AbsValue<V>,
) -> bool {
    g.catch_all || (this.ctor == other.ctor && find_arm(g.arms, this.ctor) >= 0)
}

/// A statement list succeeds exactly when every one of its statements
/// does, and then the result pairs the statements' outcomes with their
/// field positions: the dispatch is a pointwise, order-respecting
/// function of the aligned operand fields.
pub proof fn lemma_sem_fields_pointwise<V>(
    ops: Seq<FieldOp>,
    a: Seq<V>,
    b: Seq<V>,
    anim: spec_fn(V, V) -> Option<V>,
)
    requires
        a.len() == ops.len(),
        b.len() == ops.len(),
    ensures
        (sem_fields(ops, a, b, anim) is Some) <==> (forall|i: int|
            0 <= i < ops.len() ==> sem_field(ops[i], a[i], b[i], anim) is Some),
        sem_fields(ops, a, b, anim) is Some ==> sem_fields(ops, a, b, anim).unwrap().len()
            == ops.len(),
        sem_fields(ops, a, b, anim) is Some ==> forall|i: int|
            0 <= i < ops.len() ==> sem_fields(ops, a, b, anim).unwrap()[i] == sem_field(
                ops[i],
                a[i],
                b[i],
                anim,
            ).unwrap(),
    decreases ops.len(),
{
    if ops.len() == 0 {
    } else {
        lemma_sem_fields_pointwise(ops.drop_first(), a.drop_first(), b.drop_first(), anim);
        assert(forall|i: int|
            1 <= i < ops.len() ==> ops.drop_first()[i - 1] == ops[i] && a.drop_first()[i - 1]
                == a[i] && b.drop_first()[i - 1] == b[i]);
        if sem_field(ops[0], a[0], b[0], anim) is Some {
            assert((sem_fields(ops.drop_first(), a.drop_first(), b.drop_first(), anim) is Some)
                <==> (forall|i: int|
                1 <= i < ops.len() ==> sem_field(ops[i], a[i], b[i], anim) is Some));
        }
    }
}

/// `find_arm` returns the index of the first matching arm, and -1
/// exactly when no arm matches.
pub proof fn lemma_find_arm(arms: Seq<MatchArmView>, ctor: Seq<char>)
    ensures
        (exists|k: int| 0 <= k < arms.len() && arms[k].variant == ctor) ==> 0 <= find_arm(
            arms,
            ctor,
        ) < arms.len() && arms[find_arm(arms, ctor)].variant == ctor,
        (forall|k: int| 0 <= k < arms.len() ==> arms[k].variant != ctor) ==> find_arm(arms, ctor)
            == -1,
    decreases arms.len(),
{
    if arms.len() == 0 {
    } else if arms[0].variant == ctor {
    } else {
        lemma_find_arm(arms.drop_first(), ctor);
        assert(forall|k: int| 1 <= k < arms.len() ==> arms.drop_first()[k - 1] == arms[k]);
        if exists|k: int| 0 <= k < arms.len() && arms[k].variant == ctor {
            let k = choose|k: int| 0 <= k < arms.len() && arms[k].variant == ctor;
            assert(arms.drop_first()[k - 1].variant == ctor);
        }
    }
}

/// A concrete operand for running the dispatch: a constructor name
/// and one plain value per field.
pub struct Operand {
    pub ctor: String,
    pub fields: Vec<u64>,
}

impl View for Operand {
    type V = AbsValue<u64>;

    open spec fn view(&self) -> AbsValue<u64> {
        AbsValue { ctor: self.ctor@, fields: self.fields@ }
    }
}

/// The procedure the executable evaluator threads through delegated
/// calls: keep one operand's value, or refuse — the latter modelling a
/// field type whose own animation fails under the procedure in force.
#[derive(Clone, Copy, Debug, PartialEq, Eq, Structural)]
pub enum Procedure {
    KeepThis,
    KeepOther,
    Refuse,
}

/// What a delegated call returns under a procedure.
pub open spec fn proc_combine(p: Procedure, a: u64, b: u64) -> Option<u64> {
    match p {
        Procedure::KeepThis => Some(a),
        Procedure::KeepOther => Some(b),
        Procedure::Refuse => None,
    }
}

/// A procedure's delegated-call semantics, as a function on field
/// values.
pub open spec fn proc_sem(p: Procedure) -> spec_fn(u64, u64) -> Option<u64> {
    |a: u64, b: u64| proc_combine(p, a, b)
}

fn combine(p: Procedure, a: u64, b: u64) -> (r: Option<u64>)
    ensures
        r == proc_combine(p, a, b),
{
    match p {
        Procedure::KeepThis => Some(a),
        Procedure::KeepOther => Some(b),
        Procedure::Refuse => None,
    }
}

fn find_arm_exec(arms: &Vec<MatchArm>, ctor: &String) -> (r: Option<usize>)
    ensures
        match r {
            Some(k) => k < arms.len() && find_arm(arms.deep_view(), ctor@) == k as int
                && arms.deep_view()[k as int].variant == ctor@,
            None => find_arm(arms.deep_view(), ctor@) == -1,
        },
{
    let n: usize = arms.len();
    let mut k: usize = 0;
    while k < n
        invariant
            n == arms.len(),
            k <= n,
            forall|m: int| 0 <= m < k ==> arms.deep_view()[m].variant != ctor@,
        decreases n - k,
    {
        if arms[k].variant.eq(ctor) {
            proof {
                lemma_find_arm_first(arms.deep_view(), ctor@, k as int);
            }
            return Some(k);
        }
        k += 1;
    }
    proof {
        lemma_find_arm(arms.deep_view(), ctor@);
    }
    None
}

/// Runs the generated dispatch on two operands under a procedure.
///
/// The preconditions say the generated match covers the pairing (it
/// always does once the catch-all is present) and that each operand is
/// well-formed for the arms that can match it: a value built by a
/// constructor has exactly as many fields as the constructor declares.
/// The result is exactly what [`sem_animate`] ascribes to the
/// generated implementation.
pub fn animate_operands(
    g: &GeneratedImpl,
    this: &Operand,
    other: &Operand,
    p: Procedure,
) -> (r: Result<Operand, ()>)
    requires
        dispatch_covered(g@, this@, other@),
        forall|k: int|
            0 <= k < g@.arms.len() && g@.arms[k].variant == this@.ctor ==> g@.arms[k].fields.len()
                == this@.fields.len(),
        forall|k: int|
            0 <= k < g@.arms.len() && g@.arms[k].variant == other@.ctor ==> g@.arms[k].fields.len()
                == other@.fields.len(),
    ensures
        match r {
            Ok(v) => sem_animate(g@, this@, other@, proc_sem(p)) == Some(v@),
            Err(e) => sem_animate(g@, this@, other@, proc_sem(p)) is None,
        },
{
    if !this.ctor.eq(&other.ctor) {
        return Err(());
    }
    let found = find_arm_exec(&g.arms, &this.ctor);
    match found {
        Option::None => {
            proof {
                assert(!(this@.ctor == other@.ctor && find_arm(g@.arms, this@.ctor) >= 0));
            }
            Err(())
        },
        Option::Some(k) => {
            let nf: usize = g.arms[k].fields.len();
            let ghost ops = arm_ops(g@.arms[k as int]);
            let ghost af = proc_sem(p);
            let ghost fa = this@.fields;
            let ghost fb = other@.fields;
            proof {
                assert(g@.arms[k as int].fields.len() == this@.fields.len());
                assert(ops.len() == nf);
            }
            let mut out: Vec<u64> = Vec::new();
            proof {
                assert(ops.skip(0) =~= ops);
                assert(fa.skip(0) =~= fa);
                assert(fb.skip(0) =~= fb);
                if sem_fields(ops, fa, fb, af) is Some {
                    let rest = sem_fields(ops, fa, fb, af).unwrap();
                    assert(Seq::<u64>::empty() + rest =~= rest);
                }
            }
            let mut j: usize = 0;
            while j < nf
                invariant
                    nf == g@.arms[k as int].fields.len(),
                    k < g@.arms.len(),
                    this@.ctor == other@.ctor,
                    find_arm(g@.arms, this@.ctor) == k as int,
                    ops == arm_ops(g@.arms[k as int]),
                    af == proc_sem(p),
                    fa == this@.fields,
                    fb == other@.fields,
                    fa.len() == nf,
                    fb.len() == nf,
                    j <= nf,
                    out@.len() == j,
                    sem_fields(ops, fa, fb, af) == (match sem_fields(
                        ops.skip(j as int),
                        fa.skip(j as int),
                        fb.skip(j as int),
                        af,
                    ) {
                        Option::Some(rest) => Option::Some(out@ + rest),
                        Option::None => Option::None::<Seq<u64>>,
                    }),
                decreases nf - j,
            {
                let a = this.fields[j];
                let b = other.fields[j];
                let fr = match g.arms[k].fields[j].op {
                    FieldOp::CheckEqual => if a == b {
                        Some(a)
                    } else {
                        None
                    },
                    FieldOp::Animate => combine(p, a, b),
                };
                proof {
                    let ji = j as int;
                    assert(ops.skip(ji)[0] == ops[ji]);
                    assert(fa.skip(ji)[0] == fa[ji]);
                    assert(fb.skip(ji)[0] == fb[ji]);
                    assert(ops.skip(ji).drop_first() =~= ops.skip(ji + 1));
                    assert(fa.skip(ji).drop_first() =~= fa.skip(ji + 1));
                    assert(fb.skip(ji).drop_first() =~= fb.skip(ji + 1));
                    assert(ops[ji] == g@.arms[k as int].fields[ji].op);
                    assert(fr == sem_field(ops[ji], fa[ji], fb[ji], af));
                }
                match fr {
                    Option::Some(v) => {
                        let ghost pre = out@;
                        out.push(v);
                        proof {
                            let ji = j as int;
                            if sem_fields(ops.skip(ji + 1), fa.skip(ji + 1), fb.skip(ji + 1), af)
                                is Some {
                                let rest = sem_fields(
                                    ops.skip(ji + 1),
                                    fa.skip(ji + 1),
                                    fb.skip(ji + 1),
                                    af,
                                ).unwrap();
                                assert(pre + (seq![v] + rest) =~= out@ + rest);
                            }
                        }
                    },
                    Option::None => {
                        proof {
                            assert(sem_fields(ops, fa, fb, af) is None);
                            assert(sem_animate(g@, this@, other@, af) is None);
                        }
                        return Err(());
                    },
                }
                j += 1;
            }
            proof {
                assert(ops.skip(nf as int) =~= Seq::<FieldOp>::empty());
                assert(sem_fields(ops.skip(nf as int), fa.skip(nf as int), fb.skip(nf as int), af)
                    == Some(Seq::<u64>::empty()));
                assert(out@ + Seq::<u64>::empty() =~= out@);
                assert(sem_fields(ops, fa, fb, af) == Some(out@));
            }
            let rv = Operand { ctor: this.ctor.clone(), fields: out };
            proof {
                assert(rv@ =~= AbsValue { ctor: this@.ctor, fields: out@ });
            }
            Ok(rv)
        },
    }
}

/// `find_arm` returns `k` whenever arm `k` matches and no earlier arm
/// does.
pub proof fn lemma_find_arm_first(arms: Seq<MatchArmView>, ctor: Seq<char>, k: int)
    requires
        0 <= k < arms.len(),
        arms[k].variant == ctor,
        forall|m: int| 0 <= m < k ==> arms[m].variant != ctor,
    ensures
        find_arm(arms, ctor) == k,
    decreases arms.len(),
{
    if k == 0 {
    } else {
        assert(forall|m: int| 0 <= m < k - 1 ==> arms.drop_first()[m] == arms[m + 1]);
        assert(arms.drop_first()[k - 1] == arms[k]);
        lemma_find_arm_first(arms.drop_first(), ctor, k - 1);
    }
}

} // verus!
