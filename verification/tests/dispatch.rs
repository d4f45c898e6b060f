use animate_derive::generate;
use animate_derive::semantics::{Operand, Procedure, animate_operands};
use animate_derive::shape::{AnimateAttrs, AnimateFieldAttrs, Field, Ty, TypeDef, Variant};

fn ty(text: &str) -> Ty {
    Ty { text: text.to_string(), idents: vec![text.to_string()] }
}

fn field(name: &str, equal: bool) -> Field {
    Field { name: name.to_string(), ty: ty("u64"), attrs: AnimateFieldAttrs { equal } }
}

fn variant(name: &str, fields: Vec<Field>, error: bool) -> Variant {
    Variant { name: name.to_string(), fields, attrs: AnimateAttrs { error } }
}

fn typedef(name: &str, variants: Vec<Variant>) -> TypeDef {
    TypeDef { name: name.to_string(), params: vec![], variants }
}

fn operand(ctor: &str, fields: &[u64]) -> Operand {
    Operand { ctor: ctor.to_string(), fields: fields.to_vec() }
}

#[test]
fn self_combine_reproduces_value() {
    let t = typedef(
        "Point",
        vec![variant("Point", vec![field("x", false), field("y", false)], false)],
    );
    let g = generate::derive(&t);
    let v = operand("Point", &[3, 9]);
    for p in [Procedure::KeepThis, Procedure::KeepOther] {
        let r = animate_operands(&g, &v, &v, p).unwrap();
        assert_eq!(r.ctor, "Point");
        assert_eq!(r.fields, vec![3, 9]);
    }
}

#[test]
fn self_combine_with_equal_field_reproduces_value() {
    let t = typedef(
        "Mix",
        vec![variant("Mix", vec![field("a", true), field("b", false)], false)],
    );
    let g = generate::derive(&t);
    let v = operand("Mix", &[7, 1]);
    let r = animate_operands(&g, &v, &v, Procedure::KeepOther).unwrap();
    assert_eq!(r.fields, vec![7, 1]);
}

#[test]
fn equal_field_mismatch_fails() {
    let t = typedef(
        "Mix",
        vec![variant("Mix", vec![field("a", true), field("b", false)], false)],
    );
    let g = generate::derive(&t);
    // the operands differ only in the "equal" field
    let x = operand("Mix", &[7, 5]);
    let y = operand("Mix", &[8, 5]);
    assert!(animate_operands(&g, &x, &y, Procedure::KeepThis).is_err());
    assert!(animate_operands(&g, &x, &y, Procedure::KeepOther).is_err());
}

#[test]
fn equal_field_match_copies_shared_value() {
    let t = typedef(
        "Mix",
        vec![variant("Mix", vec![field("a", true), field("b", false)], false)],
    );
    let g = generate::derive(&t);
    let x = operand("Mix", &[7, 5]);
    let y = operand("Mix", &[7, 9]);
    let r = animate_operands(&g, &x, &y, Procedure::KeepOther).unwrap();
    assert_eq!(r.fields, vec![7, 9]);
}

#[test]
fn error_variant_operands_fail() {
    let t = typedef(
        "Length",
        vec![
            variant("Px", vec![field("0", false)], false),
            variant("Auto", vec![], true),
        ],
    );
    let g = generate::derive(&t);
    let x = operand("Auto", &[]);
    let y = operand("Auto", &[]);
    assert!(animate_operands(&g, &x, &y, Procedure::KeepThis).is_err());
}

#[test]
fn cross_variant_operands_fail() {
    let t = typedef(
        "Either",
        vec![
            variant("Left", vec![field("0", false)], false),
            variant("Right", vec![field("0", false)], false),
        ],
    );
    let g = generate::derive(&t);
    let x = operand("Left", &[1]);
    let y = operand("Right", &[1]);
    assert!(animate_operands(&g, &x, &y, Procedure::KeepThis).is_err());
    // same live variant still combines
    let z = operand("Left", &[4]);
    let r = animate_operands(&g, &x, &z, Procedure::KeepOther).unwrap();
    assert_eq!(r.fields, vec![4]);
}

#[test]
fn delegated_failure_propagates() {
    let t = typedef("Point", vec![variant("Point", vec![field("x", false)], false)]);
    let g = generate::derive(&t);
    let v = operand("Point", &[3]);
    assert!(animate_operands(&g, &v, &v, Procedure::Refuse).is_err());
}

#[test]
fn delegation_never_reached_under_equal_fields() {
    let t = typedef("Tag", vec![variant("Tag", vec![field("id", true)], false)]);
    let g = generate::derive(&t);
    let v = operand("Tag", &[11]);
    // no delegated call runs, so even the refusing procedure succeeds
    let r = animate_operands(&g, &v, &v, Procedure::Refuse).unwrap();
    assert_eq!(r.fields, vec![11]);
}

#[test]
fn field_order_permutation_permutes_result() {
    // same fields in two declaration orders; operands permuted the
    // same way; the outcome is the positional pairing, permuted
    let t1 = typedef(
        "Pair",
        vec![variant("Pair", vec![field("a", false), field("b", true)], false)],
    );
    let t2 = typedef(
        "Pair",
        vec![variant("Pair", vec![field("b", true), field("a", false)], false)],
    );
    let g1 = generate::derive(&t1);
    let g2 = generate::derive(&t2);
    let x1 = operand("Pair", &[1, 2]);
    let y1 = operand("Pair", &[5, 2]);
    let r1 = animate_operands(&g1, &x1, &y1, Procedure::KeepOther).unwrap();
    assert_eq!(r1.fields, vec![5, 2]);
    let x2 = operand("Pair", &[2, 1]);
    let y2 = operand("Pair", &[2, 5]);
    let r2 = animate_operands(&g2, &x2, &y2, Procedure::KeepOther).unwrap();
    assert_eq!(r2.fields, vec![2, 5]);
    // failure is likewise order-independent
    let bad1 = operand("Pair", &[1, 9]);
    let bad2 = operand("Pair", &[9, 1]);
    assert!(animate_operands(&g1, &x1, &bad1, Procedure::KeepThis).is_err());
    assert!(animate_operands(&g2, &x2, &bad2, Procedure::KeepThis).is_err());
}
