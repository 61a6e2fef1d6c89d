//! Typed, nested errors with semantic creation traces.
use std::borrow::Cow;

use vstd::prelude::*;

pub mod attributes;
pub mod definition;
pub mod descriptor;
pub mod diagnostic;
pub mod entry;
pub mod inceptioned;
pub mod locate;
pub mod naming;
pub mod options;
pub mod paths;
pub mod plan;
pub mod syntax;
pub mod text;
pub mod trace;
pub mod tracing;

pub use descriptor::{BuildError, ErrorDescriptor};
pub use entry::Entry;
pub use inceptioned::Inceptioned;
pub use locate::Location;
pub use trace::Trace;

pub use serde;

verus! {

/// A typed error that can be rendered as an Inception trace.
///
/// Generated errors and [`Inceptioned`] implement this trait. Any
/// application-defined error shape can implement it directly.
pub trait InceptionError {
    /// Stable class identity.
    fn code(&self) -> &'static str;

    /// Static, safe description suitable as an API fallback message.
    fn description(&self) -> &'static str;

    /// Safe message shown for this error in a semantic trace; the
    /// description unless overridden.
    fn trace_message(&self) -> (message: Cow<'static, str>)
        default_ensures
            exists|description: &'static str|
                #[trigger] call_ensures(Self::description, (self,), description) && message@
                    == description@,
    {
        let describe = Self::description;
        let description = describe(self);
        let message = Cow::Borrowed(description);
        assert(call_ensures(Self::description, (self,), description) && message@ == description@);
        message
    }

    /// Where this error was created.
    fn created_at(&self) -> Location;

    /// The trace of the nested Inception error that caused this error, if any.
    fn nested_error(&self) -> Option<Trace>;

    /// Entries attached to this error; none unless overridden.
    fn entries(&self) -> (entries: Vec<Entry>)
        default_ensures
            entries@.len() == 0,
    {
        Vec::new()
    }

    /// This error and its nested cause chain as a semantic trace.
    fn trace(&self) -> (trace: Trace) where Self: Sized
        default_ensures
            exists|
                code: &'static str,
                description: &'static str,
                message: Cow<'static, str>,
                location: Location,
                entries: Vec<Entry>,
                nested: Option<Trace>,
            |
                #![trigger call_ensures(Self::code, (self,), code), call_ensures(Self::description, (self,), description), call_ensures(Self::trace_message, (self,), message), call_ensures(Self::created_at, (self,), location), call_ensures(Self::entries, (self,), entries), call_ensures(Self::nested_error, (self,), nested)]
                {
                    &&& call_ensures(Self::code, (self,), code)
                    &&& call_ensures(Self::description, (self,), description)
                    &&& call_ensures(Self::trace_message, (self,), message)
                    &&& call_ensures(Self::created_at, (self,), location)
                    &&& call_ensures(Self::entries, (self,), entries)
                    &&& call_ensures(Self::nested_error, (self,), nested)
                    &&& trace@ == trace::layered(code, description, message, location, entries, nested)
                },
    {
        let code_of = Self::code;
        let description_of = Self::description;
        let message_of = Self::trace_message;
        let location_of = Self::created_at;
        let entries_of = Self::entries;
        let nested_of = Self::nested_error;
        let code = code_of(self);
        let description = description_of(self);
        let message = message_of(self);
        let location = location_of(self);
        let entries = entries_of(self);
        let nested = nested_of(self);
        let ghost layers = trace::layered(code, description, message, location, entries, nested);
        let trace = Trace::layer(code, description, message, location, entries, nested);
        assert(call_ensures(Self::code, (self,), code) && call_ensures(Self::description, (self,), description)
            && call_ensures(Self::trace_message, (self,), message) && call_ensures(Self::created_at, (self,), location)
            && call_ensures(Self::entries, (self,), entries) && call_ensures(Self::nested_error, (self,), nested)
            && trace@ == layers);
        trace
    }
}

} // verus!
