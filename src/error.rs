use vstd::prelude::*;

verus! {

/// Failure while reading the declarative options or the declaration itself.
/// These stop code generation at the offending location.
#[derive(Clone, Debug, PartialEq, Eq, Structural)]
pub enum GenError {
    /// An option key other than `get`, `set`, `impl`, `custom_fields`, `custom_impls`.
    UnexpectedAttribute,
    /// A list element of the wrong shape, where an identifier (or a call) was expected.
    ExpectedIdentifier,
    /// An option value of the wrong shape for its key.
    InvalidValue,
    /// A field access level that is neither public, crate, super nor private.
    UnexpectedVisibility,
    /// An explicit allow-list names a position while the fields are named.
    PositionalOnNamed,
    /// An explicit allow-list names a field while the fields are positional.
    NamedOnPositional,
    /// The declaration is neither a struct nor an enum.
    UnsupportedDeclaration,
    /// Two variants of an enum have names that lower-case to the same key.
    DuplicateVariantKey,
}

/// Failure while converting a runtime value into a native one.
#[derive(Clone, Debug, PartialEq, Eq, Structural)]
pub enum ConvError {
    /// A value of the wrong kind where a given kind was expected.
    Conversion,
    /// A positional sequence holds fewer values than the shape needs.
    Arity,
    /// No key of a tagged-union table names a variant.
    NoMatchingVariant,
    /// A variant key holds a value of the wrong shape.
    MalformedVariant,
    /// A field that has no accessor of the kind asked for.
    UnknownField,
}

} // verus!
