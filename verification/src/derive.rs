//! The derivation from end to end: from a declaration to the text of the
//! derived methods.

use vstd::prelude::*;
use crate::collect::collect_available_fields;
use crate::declaration::{Declaration, DeclarationView, EnumDeclaration};
use crate::emit::{emit, emitted_text};
use crate::synth::synthesize;

verus! {

/// Why a derivation gives no methods.
#[derive(Debug, Clone, Copy, PartialEq, Eq)]
pub enum DeriveError {
    /// The declaration is a struct or a union.
    NotAnEnum,
}

/// What the message of an error says.
pub open spec fn message_text(error: DeriveError) -> Seq<char> {
    match error {
        DeriveError::NotAnEnum => "this derive is only applicable to enum types"@,
    }
}

impl DeriveError {
    /// The message to report for this error.
    pub fn message(&self) -> (text: String)
        ensures
            text@ == message_text(*self),
    {
        match self {
            DeriveError::NotAnEnum => "this derive is only applicable to enum types".to_owned(),
        }
    }
}

/// What a derivation gives for a declaration: for an enum the text of its
/// methods, for a struct or a union the error and no method.
pub open spec fn derived(d: DeclarationView) -> Result<Seq<char>, DeriveError> {
    match d {
        DeclarationView::Enum(e) => Ok(emitted_text(e, e.methods())),
        DeclarationView::Struct => Err(DeriveError::NotAnEnum),
        DeclarationView::Union => Err(DeriveError::NotAnEnum),
    }
}

/// A result seen through the view of its text.
pub open spec fn outcome_view(r: Result<String, DeriveError>) -> Result<Seq<char>, DeriveError> {
    match r {
        Ok(text) => Ok(text@),
        Err(e) => Err(e),
    }
}

/// Derives the methods of an enum and gives their text: for each field name,
/// in the order in which the names first occur, the swap setter where every
/// variant carries the field, then the mutable accessor.
pub fn impl_for_enum(decl: &EnumDeclaration) -> (text: String)
    ensures
        text@ == emitted_text(decl@, decl@.methods()),
{
    let fields = collect_available_fields(decl);
    let methods = synthesize(decl, &fields);
    emit(decl, &methods)
}

/// Derives the methods of a declaration. A struct or a union gets the error
/// and nothing else.
pub fn impl_for_input(decl: &Declaration) -> (r: Result<String, DeriveError>)
    ensures
        outcome_view(r) == derived(decl@),
{
    match decl {
        Declaration::Enum(e) => Ok(impl_for_enum(e)),
        Declaration::Struct => Err(DeriveError::NotAnEnum),
        Declaration::Union => Err(DeriveError::NotAnEnum),
    }
}

} // verus!
