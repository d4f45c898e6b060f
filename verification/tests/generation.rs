use animate_derive::generate;
use animate_derive::output::{BoundKind, FieldOp};
use animate_derive::shape::{
    AnimateAttrs, AnimateFieldAttrs, Field, Ty, TypeDef, Variant, is_parameterized,
};

fn ty(text: &str, idents: &[&str]) -> Ty {
    Ty {
        text: text.to_string(),
        idents: idents.iter().map(|s| s.to_string()).collect(),
    }
}

fn field(name: &str, t: Ty, equal: bool) -> Field {
    Field { name: name.to_string(), ty: t, attrs: AnimateFieldAttrs { equal } }
}

fn variant(name: &str, fields: Vec<Field>, error: bool) -> Variant {
    Variant { name: name.to_string(), fields, attrs: AnimateAttrs { error } }
}

fn typedef(name: &str, params: &[&str], variants: Vec<Variant>) -> TypeDef {
    TypeDef {
        name: name.to_string(),
        params: params.iter().map(|s| s.to_string()).collect(),
        variants,
    }
}

#[test]
fn single_variant_all_interpolated() {
    let t = typedef(
        "Point",
        &[],
        vec![variant(
            "Point",
            vec![
                field("x", ty("u32", &["u32"]), false),
                field("y", ty("u32", &["u32"]), false),
            ],
            false,
        )],
    );
    let g = generate::derive(&t);
    assert_eq!(g.name, "Point");
    assert!(g.params.is_empty());
    assert!(!g.catch_all);
    assert_eq!(g.arms.len(), 1);
    assert_eq!(g.arms[0].variant, "Point");
    assert_eq!(g.arms[0].fields.len(), 2);
    assert_eq!(g.arms[0].fields[0].name, "x");
    assert_eq!(g.arms[0].fields[0].op, FieldOp::Animate);
    assert_eq!(g.arms[0].fields[1].name, "y");
    assert_eq!(g.arms[0].fields[1].op, FieldOp::Animate);
    // every interpolated field registers the animatability bound,
    // generic-dependent or not
    assert_eq!(g.bounds.len(), 2);
    assert_eq!(g.bounds[0].ty.text, "u32");
    assert_eq!(g.bounds[0].kind, BoundKind::Animate);
    assert_eq!(g.bounds[1].kind, BoundKind::Animate);
}

#[test]
fn equal_field_generic_gets_both_bounds() {
    let t = typedef(
        "Wrapper",
        &["T"],
        vec![variant(
            "Wrapper",
            vec![field("value", ty("T", &["T"]), true)],
            false,
        )],
    );
    let g = generate::derive(&t);
    assert_eq!(g.params, vec!["T".to_string()]);
    assert_eq!(g.arms[0].fields[0].op, FieldOp::CheckEqual);
    // comparability and duplicability, in that order
    assert_eq!(g.bounds.len(), 2);
    assert_eq!(g.bounds[0].ty.text, "T");
    assert_eq!(g.bounds[0].kind, BoundKind::Compare);
    assert_eq!(g.bounds[1].ty.text, "T");
    assert_eq!(g.bounds[1].kind, BoundKind::Duplicate);
}

#[test]
fn equal_field_concrete_gets_no_bounds() {
    let t = typedef(
        "Pair",
        &["T"],
        vec![variant(
            "Pair",
            vec![
                field("tag", ty("u32", &["u32"]), true),
                field("value", ty("T", &["T"]), false),
            ],
            false,
        )],
    );
    let g = generate::derive(&t);
    // the concrete "equal" field needs nothing; the interpolated field
    // still registers its bound unconditionally
    assert_eq!(g.bounds.len(), 1);
    assert_eq!(g.bounds[0].ty.text, "T");
    assert_eq!(g.bounds[0].kind, BoundKind::Animate);
}

#[test]
fn equal_field_nested_generic_gets_both_bounds() {
    let t = typedef(
        "Holder",
        &["T"],
        vec![variant(
            "Holder",
            vec![field("inner", ty("Option<T>", &["Option", "T"]), true)],
            false,
        )],
    );
    let g = generate::derive(&t);
    assert_eq!(g.bounds.len(), 2);
    assert_eq!(g.bounds[0].ty.text, "Option<T>");
    assert_eq!(g.bounds[0].kind, BoundKind::Compare);
    assert_eq!(g.bounds[1].kind, BoundKind::Duplicate);
}

#[test]
fn error_variant_skipped_and_forces_catch_all() {
    let t = typedef(
        "Length",
        &[],
        vec![
            variant("Px", vec![field("0", ty("u32", &["u32"]), false)], false),
            variant("Auto", vec![], true),
        ],
    );
    let g = generate::derive(&t);
    assert!(g.catch_all);
    assert_eq!(g.arms.len(), 1);
    assert_eq!(g.arms[0].variant, "Px");
    // the error variant's fields contribute no bounds
    assert_eq!(g.bounds.len(), 1);
}

#[test]
fn sole_error_variant_leaves_no_arms() {
    let t = typedef(
        "Opaque",
        &[],
        vec![variant("Opaque", vec![field("0", ty("u32", &["u32"]), false)], true)],
    );
    let g = generate::derive(&t);
    // degenerate case: the whole dispatch is the catch-all
    assert!(g.catch_all);
    assert!(g.arms.is_empty());
    assert!(g.bounds.is_empty());
}

#[test]
fn two_live_variants_need_catch_all() {
    let t = typedef(
        "Either",
        &[],
        vec![
            variant("Left", vec![field("0", ty("u32", &["u32"]), false)], false),
            variant("Right", vec![field("0", ty("u64", &["u64"]), false)], false),
        ],
    );
    let g = generate::derive(&t);
    assert!(g.catch_all);
    assert_eq!(g.arms.len(), 2);
    assert_eq!(g.arms[0].variant, "Left");
    assert_eq!(g.arms[1].variant, "Right");
}

#[test]
fn bounds_accumulate_across_variants_in_order() {
    let t = typedef(
        "Shape",
        &["T", "U"],
        vec![
            variant(
                "Circle",
                vec![
                    field("radius", ty("T", &["T"]), false),
                    field("kind", ty("U", &["U"]), true),
                ],
                false,
            ),
            variant(
                "Square",
                vec![field("side", ty("T", &["T"]), false)],
                false,
            ),
        ],
    );
    let g = generate::derive(&t);
    let got: Vec<(String, BoundKind)> =
        g.bounds.iter().map(|b| (b.ty.text.clone(), b.kind)).collect();
    assert_eq!(
        got,
        vec![
            ("T".to_string(), BoundKind::Animate),
            ("U".to_string(), BoundKind::Compare),
            ("U".to_string(), BoundKind::Duplicate),
            ("T".to_string(), BoundKind::Animate),
        ]
    );
}

#[test]
fn is_parameterized_matches_ident_lists() {
    let params: Vec<String> = vec!["T".to_string(), "U".to_string()];
    assert!(is_parameterized(&ty("T", &["T"]), &params));
    assert!(is_parameterized(&ty("Vec<U>", &["Vec", "U"]), &params));
    assert!(!is_parameterized(&ty("u32", &["u32"]), &params));
    assert!(!is_parameterized(&ty("String", &["String"]), &params));
    let none: Vec<String> = vec![];
    assert!(!is_parameterized(&ty("T", &["T"]), &none));
}
