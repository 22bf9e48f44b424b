//! Why generation failed.
use vstd::prelude::*;
use crate::template::TemplateError;

verus! {

/// A generation failure, with the index of the variant it concerns where
/// there is one.
#[derive(Clone, Copy, Debug, PartialEq, Eq, Structural)]
pub enum GenError {
    /// The type is not a sum type.
    NotASumType,
    /// The variant asks for its field's string but does not hold exactly
    /// one positional field.
    MalformedDefault(usize),
    /// The variant's display template is malformed.
    Template(usize, TemplateError),
    /// The variant's display template names a field it does not have.
    UnboundPlaceholder(usize),
}

} // verus!
