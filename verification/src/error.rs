//! Failures of directive resolution, and where they arose.

use vstd::prelude::*;
use vstd::string::StringExecFns;

verus! {

/// Why a schema could not be resolved. Every kind is fatal for the whole schema.
#[derive(Clone, Copy, Debug, PartialEq, Eq, Structural)]
pub enum ErrorKind {
    /// A flag, a setting or a value that the directive grammar does not admit.
    MalformedDirective,
    /// The same flag, the same setting key or a second directive block within one scope.
    DuplicateDirective,
    /// Two accessors of the same source that end up with one name.
    AccessorNameCollision,
    /// A schema without named fields.
    UnsupportedSchemaShape,
}

/// The directive that an error points at.
#[derive(Clone, Copy, Debug, PartialEq, Eq, Structural)]
pub enum Site {
    /// The schema as a whole.
    Schema,
    /// The directive block attached to the schema.
    Global,
    /// The directives attached to the field at this position.
    Field(usize),
}

/// A failed resolution: what went wrong, and at which directive.
#[derive(Clone, Copy, Debug, PartialEq, Eq, Structural)]
pub struct ResolveError {
    pub kind: ErrorKind,
    pub site: Site,
}

impl ErrorKind {
    /// The text of the diagnostic for this kind of failure.
    pub open spec fn spec_message(self) -> Seq<char> {
        match self {
            ErrorKind::MalformedDirective => "malformed directive"@,
            ErrorKind::DuplicateDirective => "duplicate directive"@,
            ErrorKind::AccessorNameCollision => "two accessors share one name"@,
            ErrorKind::UnsupportedSchemaShape => "only named fields are supported"@,
        }
    }

    /// A short diagnostic for this kind of failure.
    pub fn message(self) -> (text: String)
        ensures
            text@ == self.spec_message(),
    {
        match self {
            ErrorKind::MalformedDirective => String::from_str("malformed directive"),
            ErrorKind::DuplicateDirective => String::from_str("duplicate directive"),
            ErrorKind::AccessorNameCollision => String::from_str("two accessors share one name"),
            ErrorKind::UnsupportedSchemaShape => String::from_str(
                "only named fields are supported",
            ),
        }
    }
}

impl ResolveError {
    /// An error of `kind` at `site`.
    pub fn new(kind: ErrorKind, site: Site) -> (error: ResolveError)
        ensures
            error == (ResolveError { kind, site }),
    {
        ResolveError { kind, site }
    }
}

} // verus!
