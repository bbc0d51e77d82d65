//! Generation-time errors. Every error aborts the whole generation pass:
//! no partial route table or document is ever produced.

use vstd::prelude::*;

verus! {

/// An error raised while generating from a controller declaration.
#[derive(Debug)]
pub enum GenError {
    /// The annotated construct is not a nominal type implementation block.
    StructuralError,
    /// An explicit-form response annotation's argument list can be parsed
    /// neither as key/value pairs nor as a bare type.
    AttributeParseError,
    /// One response annotation carries both `body` and `response`.
    ConflictingAnnotationError,
    /// A key outside `status`, `body`, `response`, `description` appears in
    /// the explicit form; the offending key is carried.
    UnknownArgumentError(String),
    /// A response-enum declaration with no entries.
    EmptyDeclarationError,
}

/// The mathematical shape of a generation error.
pub enum ErrModel {
    StructuralError,
    AttributeParseError,
    ConflictingAnnotationError,
    UnknownArgumentError(Seq<char>),
    EmptyDeclarationError,
}

/// The shape of a generation error.
pub open spec fn err_model(e: GenError) -> ErrModel {
    match e {
        GenError::StructuralError => ErrModel::StructuralError,
        GenError::AttributeParseError => ErrModel::AttributeParseError,
        GenError::ConflictingAnnotationError => ErrModel::ConflictingAnnotationError,
        GenError::UnknownArgumentError(k) => ErrModel::UnknownArgumentError(k@),
        GenError::EmptyDeclarationError => ErrModel::EmptyDeclarationError,
    }
}

impl View for GenError {
    type V = ErrModel;

    open spec fn view(&self) -> ErrModel {
        err_model(*self)
    }
}

} // verus!
