//! Ordinary errors captured as one located Inception layer.
use std::borrow::Cow;

use vstd::prelude::*;

use crate::locate::Location;
use crate::text::push_char;
use crate::trace::Trace;
use crate::InceptionError;

verus! {

/// An ordinary Rust error captured as one Inception error.
///
/// Its error value is preserved; the wrapper supplies the semantic creation
/// location needed for a complete Inception trace.
pub struct Inceptioned<E> {
    error: E,
    location: Location,
    type_label: &'static str,
}

/// The code of every captured ordinary error.
pub open spec fn external_code() -> Seq<char> {
    "inception.external"@
}

/// The description of every captured ordinary error.
pub open spec fn external_description() -> Seq<char> {
    "An external error occurred."@
}

/// The trace message of a captured error whose type is called `label`.
pub open spec fn external_message(label: Seq<char>) -> Seq<char> {
    "External error ("@ + label + seq![')']
}

impl<E> Inceptioned<E> {
    pub closed spec fn spec_error(&self) -> E {
        self.error
    }

    pub closed spec fn spec_location(&self) -> Location {
        self.location
    }

    pub closed spec fn spec_type_label(&self) -> Seq<char> {
        self.type_label@
    }

    /// Wraps `error` as created at `location`; `type_label` names the type of
    /// the captured error (the path that the trace message shows).
    #[must_use]
    pub fn new_at(error: E, location: Location, type_label: &'static str) -> (captured: Self)
        ensures
            captured.spec_error() == error,
            captured.spec_location() == location,
            captured.spec_type_label() == type_label@,
    {
        Self { error, location, type_label }
    }

    /// The name of the captured error's type.
    #[must_use]
    pub fn type_label(&self) -> (label: &'static str)
        ensures
            label@ == self.spec_type_label(),
    {
        self.type_label
    }

    #[must_use]
    pub fn error(&self) -> (error: &E)
        ensures
            *error == self.spec_error(),
    {
        &self.error
    }

    #[must_use]
    pub fn location(&self) -> (location: Location)
        ensures
            location == self.spec_location(),
    {
        self.location
    }

    #[must_use]
    pub fn into_error(self) -> (error: E)
        ensures
            error == self.spec_error(),
    {
        self.error
    }
}

impl<E> InceptionError for Inceptioned<E> {
    fn code(&self) -> (code: &'static str)
        ensures
            code@ == external_code(),
    {
        "inception.external"
    }

    fn description(&self) -> (description: &'static str)
        ensures
            description@ == external_description(),
    {
        "An external error occurred."
    }

    fn trace_message(&self) -> (message: Cow<'static, str>)
        ensures
            message@ == external_message(self.spec_type_label()),
    {
        let mut text = String::from_str("External error (");
        text.append(self.type_label);
        push_char(&mut text, ')');
        assert(text@ =~= external_message(self.spec_type_label()));
        Cow::Owned(text)
    }

    fn created_at(&self) -> (location: Location)
        ensures
            location == Inceptioned::spec_location(self),
    {
        self.location
    }

    fn nested_error(&self) -> (nested: Option<Trace>)
        ensures
            nested is None,
    {
        None
    }
}

} // verus!
