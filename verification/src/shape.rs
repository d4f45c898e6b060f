//! The input model: the shape of a type definition as the generator
//! sees it — a name, generic parameters, and variants with attributed
//! fields. A struct is represented as a definition with exactly one
//! variant.

use vstd::prelude::*;

verus! {

/// A type expression as written in a field declaration: its written
/// form, and the identifiers occurring in it. Bound accumulation
/// inspects the identifiers to decide whether the type depends on a
/// generic parameter of the enclosing definition.
pub struct Ty {
    /// The written form of the type, used when a bound on it is emitted.
    pub text: String,
    /// The identifiers occurring in the written form, in order.
    pub idents: Vec<String>,
}

/// Mathematical model of [`Ty`].
#[verifier::ext_equal]
pub struct TyView {
    pub text: Seq<char>,
    pub idents: Seq<Seq<char>>,
}

impl View for Ty {
    type V = TyView;

    open spec fn view(&self) -> TyView {
        TyView { text: self.text@, idents: self.idents.deep_view() }
    }
}

impl DeepView for Ty {
    type V = TyView;

    open spec fn deep_view(&self) -> TyView {
        self.view()
    }
}

/// Variant-level attributes recognized by the generator.
#[derive(Clone, Copy, Debug, PartialEq, Eq, Structural, Default)]
pub struct AnimateAttrs {
    /// When set, the variant cannot be animated: no arm is generated
    /// for it, and combining two operands of it fails at runtime
    /// through the catch-all arm.
    pub error: bool,
}

/// Field-level attributes recognized by the generator.
#[derive(Clone, Copy, Debug, PartialEq, Eq, Structural, Default)]
pub struct AnimateFieldAttrs {
    /// When set, the field is not interpolated: the generated code
    /// requires both operands to agree on it and copies the shared
    /// value into the result.
    pub equal: bool,
}

/// One field of a variant: a name (a positional field carries its index
/// written out), its declared type, and its attributes.
pub struct Field {
    pub name: String,
    pub ty: Ty,
    pub attrs: AnimateFieldAttrs,
}

/// Mathematical model of [`Field`].
#[verifier::ext_equal]
pub struct FieldView {
    pub name: Seq<char>,
    pub ty: TyView,
    pub equal: bool,
}

impl View for Field {
    type V = FieldView;

    open spec fn view(&self) -> FieldView {
        FieldView { name: self.name@, ty: self.ty@, equal: self.attrs.equal }
    }
}

impl DeepView for Field {
    type V = FieldView;

    open spec fn deep_view(&self) -> FieldView {
        self.view()
    }
}

/// One variant of a sum type, or the sole shape of a product type: a
/// constructor name, an ordered field list, and its attributes.
pub struct Variant {
    pub name: String,
    pub fields: Vec<Field>,
    pub attrs: AnimateAttrs,
}

/// Mathematical model of [`Variant`].
#[verifier::ext_equal]
pub struct VariantView {
    pub name: Seq<char>,
    pub fields: Seq<FieldView>,
    pub error: bool,
}

impl View for Variant {
    type V = VariantView;

    open spec fn view(&self) -> VariantView {
        VariantView {
            name: self.name@,
            fields: self.fields.deep_view(),
            error: self.attrs.error,
        }
    }
}

impl DeepView for Variant {
    type V = VariantView;

    open spec fn deep_view(&self) -> VariantView {
        self.view()
    }
}

/// A parsed type definition: the type's name, its generic parameter
/// names, and its variants in declaration order.
pub struct TypeDef {
    pub name: String,
    pub params: Vec<String>,
    pub variants: Vec<Variant>,
}

/// Mathematical model of [`TypeDef`].
#[verifier::ext_equal]
pub struct TypeDefView {
    pub name: Seq<char>,
    pub params: Seq<Seq<char>>,
    pub variants: Seq<VariantView>,
}

impl View for TypeDef {
    type V = TypeDefView;

    open spec fn view(&self) -> TypeDefView {
        TypeDefView {
            name: self.name@,
            params: self.params.deep_view(),
            variants: self.variants.deep_view(),
        }
    }
}

/// Whether a type expression mentions any of the given generic
/// parameters.
pub open spec fn ty_mentions_param(t: TyView, params: Seq<Seq<char>>) -> bool {
    exists|i: int, j: int|
        0 <= i < t.idents.len() && 0 <= j < params.len() && t.idents[i] == params[j]
}

/// Whether `ty` names any generic parameter in `params`. An "equal"
/// field needs comparability and duplicability bounds only in that
/// case; a fixed concrete type satisfies them intrinsically.
pub fn is_parameterized(ty: &Ty, params: &Vec<String>) -> (r: bool)
    ensures
        r == ty_mentions_param(ty@, params.deep_view()),
{
    let mut i: usize = 0;
    while i < ty.idents.len()
        invariant
            i <= ty.idents.len(),
            forall|a: int, b: int|
                0 <= a < i && 0 <= b < params.deep_view().len()
                    ==> ty@.idents[a] != params.deep_view()[b],
        decreases ty.idents.len() - i,
    {
        let mut j: usize = 0;
        while j < params.len()
            invariant
                i < ty.idents.len(),
                j <= params.len(),
                forall|b: int| 0 <= b < j ==> ty@.idents[i as int] != params.deep_view()[b],
            decreases params.len() - j,
        {
            if ty.idents[i].eq(&params[j]) {
                assert(ty@.idents[i as int] == params.deep_view()[j as int]);
                assert(ty_mentions_param(ty@, params.deep_view()));
                return true;
            }
            j += 1;
        }
        i += 1;
    }
    false
}

} // verus!
