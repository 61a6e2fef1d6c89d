//! Catalog entries and builder failures.
use vstd::prelude::*;

use crate::text::push_char;

verus! {

/// A stable entry in the catalog generated for an error type.
#[derive(Debug, Clone, Copy, PartialEq, Eq, Hash)]
pub struct ErrorDescriptor {
    code: &'static str,
    description: &'static str,
}

impl ErrorDescriptor {
    #[must_use]
    pub fn new(code: &'static str, description: &'static str) -> (descriptor: Self)
        ensures
            descriptor.spec_code() == code@,
            descriptor.spec_description() == description@,
    {
        Self { code, description }
    }

    pub closed spec fn spec_code(self) -> Seq<char> {
        self.code@
    }

    pub closed spec fn spec_description(self) -> Seq<char> {
        self.description@
    }

    #[must_use]
    pub fn code(self) -> (code: &'static str)
        ensures
            code@ == self.spec_code(),
    {
        self.code
    }

    #[must_use]
    pub fn description(self) -> (description: &'static str)
        ensures
            description@ == self.spec_description(),
    {
        self.description
    }
}

/// A generated builder was used without providing one of its fields.
#[derive(Debug, Clone, Copy, PartialEq, Eq)]
pub struct BuildError {
    field: &'static str,
}

/// The message of a [`BuildError`] for a missing field.
pub open spec fn build_error_text(field: Seq<char>) -> Seq<char> {
    "missing cause field `"@ + field + seq!['`']
}

impl BuildError {
    #[must_use]
    pub fn missing(field: &'static str) -> (error: Self)
        ensures
            error.spec_field() == field@,
    {
        Self { field }
    }

    pub closed spec fn spec_field(self) -> Seq<char> {
        self.field@
    }

    #[must_use]
    pub fn field(self) -> (field: &'static str)
        ensures
            field@ == self.spec_field(),
    {
        self.field
    }

    /// The human-readable message: ``missing cause field `<field>` ``.
    #[must_use]
    pub fn to_string(&self) -> (text: String)
        ensures
            text@ == build_error_text(self.spec_field()),
    {
        let mut text = String::from_str("missing cause field `");
        text.append(self.field);
        push_char(&mut text, '`');
        assert(text@ =~= build_error_text(self.spec_field()));
        text
    }
}

} // verus!
