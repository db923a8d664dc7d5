//! Errors of schema generation.
use vstd::prelude::*;

verus! {

/// The condition that stopped the generation of a declaration.
#[derive(Clone, Copy, Debug, PartialEq, Eq, Structural)]
pub enum GeneratorErrorType {
    /// A recognised ASN.1 construct that is deliberately not supported.
    NotYetImplemented,
    /// A value needs a type name to be rendered, or has a shape that a
    /// linked tree does not hold.
    Unidentified,
    /// An information object class or object lacks its unique key.
    MissingClassKey,
    /// An information object omits a mandatory field of its class.
    SyntaxMismatch,
    /// The tree holds a node that the front end should have rewritten.
    InvariantViolation,
}

/// An error of schema generation, with a message for the user.
#[derive(Clone, Debug)]
pub struct GeneratorError {
    pub details: String,
    pub kind: GeneratorErrorType,
}

impl GeneratorError {
    /// An error of the given kind.
    pub fn new(kind: GeneratorErrorType, details: &str) -> (r: GeneratorError)
        ensures
            r.kind == kind,
            r.details@ == details@,
    {
        GeneratorError { details: String::from_str(details), kind }
    }
}

} // verus!
