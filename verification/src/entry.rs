//! Classified context entries attached to errors.
use vstd::prelude::*;

verus! {

/// One entry attached to an Inception error.
#[derive(Debug, Clone, PartialEq, Eq)]
pub struct Entry {
    key: &'static str,
    value: String,
    hidden: bool,
}

/// The mathematical content of an [`Entry`].
pub struct EntryView {
    pub key: Seq<char>,
    pub value: Seq<char>,
    pub hidden: bool,
}

/// The text that stands for the value of a hidden entry.
pub open spec fn hidden_value() -> Seq<char> {
    "<hidden>"@
}

impl View for Entry {
    type V = EntryView;

    closed spec fn view(&self) -> EntryView {
        EntryView { key: self.key@, value: self.value@, hidden: self.hidden }
    }
}

impl Entry {
    /// An entry that shows `value`, the rendered text of a context field.
    #[must_use]
    pub fn display(key: &'static str, value: &str) -> (entry: Self)
        ensures
            entry@ == (EntryView { key: key@, value: value@, hidden: false }),
    {
        Self { key, value: value.to_owned(), hidden: false }
    }

    /// An entry whose value is withheld.
    #[must_use]
    pub fn hidden(key: &'static str) -> (entry: Self)
        ensures
            entry@ == (EntryView { key: key@, value: hidden_value(), hidden: true }),
    {
        Self { key, value: String::from_str("<hidden>"), hidden: true }
    }

    #[must_use]
    pub fn key(&self) -> (key: &'static str)
        ensures
            key@ == self@.key,
    {
        self.key
    }

    #[must_use]
    pub fn value(&self) -> (value: &str)
        ensures
            value@ == self@.value,
    {
        self.value.as_str()
    }

    #[must_use]
    pub fn is_hidden(&self) -> (hidden: bool)
        ensures
            hidden == self@.hidden,
    {
        self.hidden
    }
}

} // verus!
