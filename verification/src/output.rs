//! The output model: a structured description of the generated
//! `animate` implementation — one match arm per live variant, a
//! catch-all flag, and the where-clause bounds the impl body needs.
//!
//! Rendering this description to source text is the caller's concern;
//! everything the emitted code decides is recorded here. For field
//! index `j` of an arm, the emitted patterns bind `self`'s field to a
//! local named after the field with prefix `this`, `other`'s field with
//! prefix `other`, and the arm rebuilds the result from the same-named
//! locals in the same order, so the `j`th result field always pairs
//! with the `j`th field of both operands.

use vstd::prelude::*;
use crate::shape::{Ty, TyView};

verus! {

/// The statement generated for one field of a live variant: exactly
/// one of the two applies to every field.
#[derive(Clone, Copy, Debug, PartialEq, Eq, Structural)]
pub enum FieldOp {
    /// Compare the two operands' values for the field; fail if they
    /// differ, otherwise copy the shared value into the result.
    CheckEqual,
    /// Delegate to the field type's own `animate`, under the same
    /// procedure, propagating failure upward.
    Animate,
}

/// One field of a match arm: the field's name and the statement
/// generated for it.
pub struct ArmField {
    pub name: String,
    pub op: FieldOp,
}

/// Mathematical model of [`ArmField`].
#[verifier::ext_equal]
pub struct ArmFieldView {
    pub name: Seq<char>,
    pub op: FieldOp,
}

impl View for ArmField {
    type V = ArmFieldView;

    open spec fn view(&self) -> ArmFieldView {
        ArmFieldView { name: self.name@, op: self.op }
    }
}

impl DeepView for ArmField {
    type V = ArmFieldView;

    open spec fn deep_view(&self) -> ArmFieldView {
        self.view()
    }
}

/// One generated match arm: both operands destructured by reference
/// under the same constructor, one statement per field in declared
/// order, and a successful result rebuilt from the per-field locals.
pub struct MatchArm {
    pub variant: String,
    pub fields: Vec<ArmField>,
}

/// Mathematical model of [`MatchArm`].
#[verifier::ext_equal]
pub struct MatchArmView {
    pub variant: Seq<char>,
    pub fields: Seq<ArmFieldView>,
}

impl View for MatchArm {
    type V = MatchArmView;

    open spec fn view(&self) -> MatchArmView {
        MatchArmView { variant: self.variant@, fields: self.fields.deep_view() }
    }
}

impl DeepView for MatchArm {
    type V = MatchArmView;

    open spec fn deep_view(&self) -> MatchArmView {
        self.view()
    }
}

/// The trait a where-clause predicate requires of a field type.
#[derive(Clone, Copy, Debug, PartialEq, Eq, Structural)]
pub enum BoundKind {
    /// Comparability: the generated equality check on an "equal" field
    /// requires it.
    Compare,
    /// Duplicability: copying the shared value of an "equal" field
    /// requires it.
    Duplicate,
    /// Animatability: the delegated call on an interpolated field
    /// requires it.
    Animate,
}

/// One where-clause predicate: a field type together with the trait
/// the generated code requires of it.
pub struct Bound {
    pub ty: Ty,
    pub kind: BoundKind,
}

/// Mathematical model of [`Bound`].
#[verifier::ext_equal]
pub struct BoundView {
    pub ty: TyView,
    pub kind: BoundKind,
}

impl View for Bound {
    type V = BoundView;

    open spec fn view(&self) -> BoundView {
        BoundView { ty: self.ty@, kind: self.kind }
    }
}

impl DeepView for Bound {
    type V = BoundView;

    open spec fn deep_view(&self) -> BoundView {
        self.view()
    }
}

/// The generated implementation, in structured form: the header data
/// (type name and generic parameters), the accumulated where-clause,
/// the match arms for the live variants in declaration order, and
/// whether a trailing catch-all arm producing failure is emitted.
pub struct GeneratedImpl {
    pub name: String,
    pub params: Vec<String>,
    pub bounds: Vec<Bound>,
    pub arms: Vec<MatchArm>,
    pub catch_all: bool,
}

/// Mathematical model of [`GeneratedImpl`].
#[verifier::ext_equal]
pub struct GeneratedImplView {
    pub name: Seq<char>,
    pub params: Seq<Seq<char>>,
    pub bounds: Seq<BoundView>,
    pub arms: Seq<MatchArmView>,
    pub catch_all: bool,
}

impl View for GeneratedImpl {
    type V = GeneratedImplView;

    open spec fn view(&self) -> GeneratedImplView {
        GeneratedImplView {
            name: self.name@,
            params: self.params.deep_view(),
            bounds: self.bounds.deep_view(),
            arms: self.arms.deep_view(),
            catch_all: self.catch_all,
        }
    }
}

} // verus!
