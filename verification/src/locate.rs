//! Source coordinates of semantic error layers.
use vstd::prelude::*;

use crate::text::{decimal, push_char, push_decimal};

verus! {

/// The source coordinate at which one semantic error layer was created.
///
/// Paths and coordinates are internal diagnostics. API projections must not
/// serialize them unless a separate, explicit policy chooses to do so.
#[derive(Debug, Clone, Copy, PartialEq, Eq, Hash)]
pub struct Location {
    file: &'static str,
    line: u32,
    column: u32,
}

/// The mathematical content of a [`Location`].
pub struct LocationView {
    pub file: Seq<char>,
    pub line: u32,
    pub column: u32,
}

impl View for Location {
    type V = LocationView;

    closed spec fn view(&self) -> LocationView {
        LocationView { file: self.file@, line: self.line, column: self.column }
    }
}

/// `file:line:column`, the way a compiler prints a source coordinate.
pub open spec fn location_text(location: LocationView) -> Seq<char> {
    location.file + seq![':'] + decimal(location.line as nat) + seq![':'] + decimal(
        location.column as nat,
    )
}

impl Location {
    #[must_use]
    pub fn new(file: &'static str, line: u32, column: u32) -> (location: Self)
        ensures
            location@ == (LocationView { file: file@, line, column }),
    {
        Self { file, line, column }
    }

    #[must_use]
    pub fn file(self) -> (file: &'static str)
        ensures
            file@ == self@.file,
    {
        self.file
    }

    #[must_use]
    pub fn line(self) -> (line: u32)
        ensures
            line == self@.line,
    {
        self.line
    }

    #[must_use]
    pub fn column(self) -> (column: u32)
        ensures
            column == self@.column,
    {
        self.column
    }

    /// Renders this coordinate as `file:line:column`.
    #[must_use]
    pub fn to_string(&self) -> (text: String)
        ensures
            text@ == location_text(self@),
    {
        let mut text = String::from_str(self.file);
        self.push_to(&mut text);
        text
    }

    /// Appends `:line:column` (the part after the file) to `out`.
    pub(crate) fn push_to(&self, out: &mut String)
        ensures
            final(out)@ == old(out)@ + seq![':'] + decimal(self@.line as nat) + seq![':'] + decimal(
                self@.column as nat,
            ),
    {
        push_char(out, ':');
        push_decimal(out, self.line as u64);
        push_char(out, ':');
        push_decimal(out, self.column as u64);
        assert(out@ =~= old(out)@ + seq![':'] + decimal(self@.line as nat) + seq![':'] + decimal(
            self@.column as nat,
        ));
    }
}

} // verus!

verus! {

/// A text that ends in `:` and digits splits only one way there.
proof fn lemma_split_at_last_colon(
    head1: Seq<char>,
    digits1: Seq<char>,
    head2: Seq<char>,
    digits2: Seq<char>,
)
    requires
        crate::text::all_digits(digits1),
        crate::text::all_digits(digits2),
        head1 + seq![':'] + digits1 == head2 + seq![':'] + digits2,
    ensures
        head1 == head2,
        digits1 == digits2,
{
    let whole = head1 + seq![':'] + digits1;
    let length = whole.len();
    if digits1.len() < digits2.len() {
        let at = length - digits1.len() - 1;
        assert(whole[at] == ':');
        let other = head2 + seq![':'] + digits2;
        assert(other[at] == digits2[at - head2.len() - 1]);
        assert(false);
    } else if digits2.len() < digits1.len() {
        let at = length - digits2.len() - 1;
        let other = head2 + seq![':'] + digits2;
        assert(other[at] == ':');
        assert(whole[at] == digits1[at - head1.len() - 1]);
        assert(false);
    }
    assert(digits1 =~= whole.subrange(length - digits1.len(), length as int));
    assert(digits2 =~= whole.subrange(length - digits2.len(), length as int));
    assert(head1 =~= whole.subrange(0, head1.len() as int));
    assert(head2 =~= whole.subrange(0, head2.len() as int));
}

/// A rendered source coordinate determines the coordinate: two locations
/// that render alike have the same file, line and column.
pub proof fn lemma_location_text_determines_location(a: LocationView, b: LocationView)
    requires
        location_text(a) == location_text(b),
    ensures
        a == b,
{
    crate::text::lemma_decimal_denotes(a.line as nat);
    crate::text::lemma_decimal_denotes(a.column as nat);
    crate::text::lemma_decimal_denotes(b.line as nat);
    crate::text::lemma_decimal_denotes(b.column as nat);
    let head_a = a.file + seq![':'] + decimal(a.line as nat);
    let head_b = b.file + seq![':'] + decimal(b.line as nat);
    lemma_split_at_last_colon(head_a, decimal(a.column as nat), head_b, decimal(b.column as nat));
    lemma_split_at_last_colon(a.file, decimal(a.line as nat), b.file, decimal(b.line as nat));
    crate::text::lemma_decimal_injective(a.line as nat, b.line as nat);
    crate::text::lemma_decimal_injective(a.column as nat, b.column as nat);
}

} // verus!
