use vstd::prelude::*;

verus! {

/// Why a build could not produce a value.
#[derive(Debug, PartialEq)]
pub enum SchemaError {
    /// A boolean schema stands where a node is needed.
    SchemaIsBool,
    /// A union of kinds that holds no kind but `Null`.
    Unimplemented,
    /// A reference that is not of the form `#/definitions/<name>`, or whose
    /// name the definition table lacks.
    UnresolvedReference(String),
    /// A reference to a definition that is already being built on the
    /// current path.
    ReferenceCycle(String),
    /// An array node without element schemas, or an object node without
    /// properties.
    MissingValidation,
    /// A node with no kind, no reference and no usable composition.
    MalformedComposition,
    /// An answer whose form does not match the prompt it answers.
    AnswerMismatch,
    /// The very first prompt was cancelled: the user gave up the build.
    Aborted,
}

} // verus!
