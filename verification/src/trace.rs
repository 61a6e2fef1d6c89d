//! Semantic creation traces: the layers of an error, outermost first.
use std::borrow::Cow;

use vstd::prelude::*;

use crate::entry::{Entry, EntryView};
use crate::locate::{location_text, Location, LocationView};

verus! {

/// A captured semantic trace: one layer per semantic error, each with its
/// code, description, trace message, creation site and entries, followed by
/// the trace of the nested error that caused it, if any.
pub struct Trace {
    code: &'static str,
    description: &'static str,
    message: String,
    location: Location,
    entries: Vec<Entry>,
    nested: Option<Box<Trace>>,
}

/// The mathematical content of one layer of a [`Trace`].
pub struct LayerView {
    pub code: Seq<char>,
    pub description: Seq<char>,
    pub message: Seq<char>,
    pub location: LocationView,
    pub entries: Seq<EntryView>,
}

/// The views of a sequence of entries.
pub open spec fn entry_views(entries: Seq<Entry>) -> Seq<EntryView> {
    entries.map_values(|entry: Entry| entry@)
}

/// The line that renders one layer: `code: message` and its creation site.
pub open spec fn layer_text(layer: LayerView) -> Seq<char> {
    layer.code + ": "@ + layer.message + "\n    at "@ + location_text(layer.location)
}

/// The separator written before every nested layer.
pub open spec fn caused_by() -> Seq<char> {
    "\nCaused by:\n"@
}

/// The rendered trace: the layers' texts, outermost first, separated by
/// `Caused by:` lines.
pub open spec fn trace_text(layers: Seq<LayerView>) -> Seq<char>
    decreases layers.len(),
{
    if layers.len() == 0 {
        Seq::empty()
    } else if layers.len() == 1 {
        layer_text(layers[0])
    } else {
        layer_text(layers[0]) + caused_by() + trace_text(layers.drop_first())
    }
}

/// The layers of a trace whose outermost layer has the given parts, on top
/// of the trace of the nested error.
pub open spec fn layered(
    code: &'static str,
    description: &'static str,
    message: Cow<'static, str>,
    location: Location,
    entries: Vec<Entry>,
    nested: Option<Trace>,
) -> Seq<LayerView> {
    seq![
        LayerView {
            code: code@,
            description: description@,
            message: message@,
            location: location@,
            entries: entry_views(entries@),
        },
    ] + match nested {
        Some(nested) => nested@,
        None => Seq::empty(),
    }
}

/// `layers` is the trace that `error`'s methods describe: its code,
/// description, trace message, creation site and entries as the outermost
/// layer, on top of the trace that its `nested_error` returns.
pub open spec fn describes<E: crate::InceptionError>(error: &E, layers: Seq<LayerView>) -> bool {
    exists|
        code: &'static str,
        description: &'static str,
        message: Cow<'static, str>,
        location: Location,
        entries: Vec<Entry>,
        nested: Option<Trace>,
    |
        #![trigger call_ensures(E::code, (error,), code), call_ensures(E::description, (error,), description), call_ensures(E::trace_message, (error,), message), call_ensures(E::created_at, (error,), location), call_ensures(E::entries, (error,), entries), call_ensures(E::nested_error, (error,), nested)]
        {
            &&& call_ensures(E::code, (error,), code)
            &&& call_ensures(E::description, (error,), description)
            &&& call_ensures(E::trace_message, (error,), message)
            &&& call_ensures(E::created_at, (error,), location)
            &&& call_ensures(E::entries, (error,), entries)
            &&& call_ensures(E::nested_error, (error,), nested)
            &&& layers == layered(code, description, message, location, entries, nested)
        }
}

impl Trace {
    /// The outermost layer alone.
    pub closed spec fn layer_view(&self) -> LayerView {
        LayerView {
            code: self.code@,
            description: self.description@,
            message: self.message@,
            location: self.location@,
            entries: entry_views(self.entries@),
        }
    }

    /// All layers, outermost first.
    pub closed spec fn layers(&self) -> Seq<LayerView>
        decreases self,
    {
        match self.nested {
            Some(nested) => seq![self.layer_view()] + nested.layers(),
            None => seq![self.layer_view()],
        }
    }

    /// Builds a trace whose outermost layer has the given parts, on top of
    /// the trace of the nested error.
    #[must_use]
    pub fn layer(
        code: &'static str,
        description: &'static str,
        message: Cow<'static, str>,
        location: Location,
        entries: Vec<Entry>,
        nested: Option<Trace>,
    ) -> (trace: Self)
        ensures
            trace@ == seq![
                LayerView {
                    code: code@,
                    description: description@,
                    message: message@,
                    location: location@,
                    entries: entry_views(entries@),
                },
            ] + match nested {
                Some(nested) => nested@,
                None => Seq::empty(),
            },
    {
        let message = match message {
            Cow::Borrowed(text) => String::from_str(text),
            Cow::Owned(text) => text,
        };
        let nested = match nested {
            Some(nested) => Some(Box::new(nested)),
            None => None,
        };
        let trace = Trace { code, description, message, location, entries, nested };
        proof {
            lemma_layers_unfold(&trace);
        }
        trace
    }

    /// The trace of an error and of its nested cause chain.
    #[must_use]
    pub fn new<E: crate::InceptionError>(error: &E) -> (trace: Self)
        ensures
            describes(error, trace@),
    {
        let code_of = E::code;
        let description_of = E::description;
        let message_of = E::trace_message;
        let location_of = E::created_at;
        let entries_of = E::entries;
        let nested_of = E::nested_error;
        let code = code_of(error);
        let description = description_of(error);
        let message = message_of(error);
        let location = location_of(error);
        let entries = entries_of(error);
        let nested = nested_of(error);
        let ghost layers = layered(code, description, message, location, entries, nested);
        let trace = Trace::layer(code, description, message, location, entries, nested);
        assert(call_ensures(E::code, (error,), code) && call_ensures(E::description, (error,), description)
            && call_ensures(E::trace_message, (error,), message) && call_ensures(E::created_at, (error,), location)
            && call_ensures(E::entries, (error,), entries) && call_ensures(E::nested_error, (error,), nested)
            && trace@ == layers);
        trace
    }

    #[must_use]
    pub fn code(&self) -> (code: &'static str)
        ensures
            code@ == self@[0].code,
    {
        proof {
            lemma_layers_unfold(self);
        }
        self.code
    }

    #[must_use]
    pub fn description(&self) -> (description: &'static str)
        ensures
            description@ == self@[0].description,
    {
        proof {
            lemma_layers_unfold(self);
        }
        self.description
    }

    #[must_use]
    pub fn trace_message(&self) -> (message: &str)
        ensures
            message@ == self@[0].message,
    {
        proof {
            lemma_layers_unfold(self);
        }
        self.message.as_str()
    }

    #[must_use]
    pub fn created_at(&self) -> (location: Location)
        ensures
            location@ == self@[0].location,
    {
        proof {
            lemma_layers_unfold(self);
        }
        self.location
    }

    #[must_use]
    pub fn entries(&self) -> (entries: &Vec<Entry>)
        ensures
            entry_views(entries@) == self@[0].entries,
    {
        proof {
            lemma_layers_unfold(self);
        }
        &self.entries
    }

    /// The trace of the nested error, without the outermost layer.
    #[must_use]
    pub fn nested_error(&self) -> (nested: Option<&Trace>)
        ensures
            match nested {
                Some(nested) => self@.len() > 1 && nested@ == self@.drop_first(),
                None => self@.len() == 1,
            },
    {
        proof {
            lemma_layers_unfold(self);
        }
        match &self.nested {
            Some(nested) => {
                let nested: &Trace = nested;
                proof {
                    lemma_layers_unfold(nested);
                    assert(self@.drop_first() =~= nested@);
                }
                Some(nested)
            },
            None => None,
        }
    }

    /// Renders the trace, outermost layer first.
    #[must_use]
    pub fn to_string(&self) -> (text: String)
        ensures
            text@ == trace_text(self@),
    {
        let mut text = String::new();
        self.push_to(&mut text);
        assert(text@ =~= trace_text(self@));
        text
    }

    fn push_to(&self, out: &mut String)
        ensures
            final(out)@ == old(out)@ + trace_text(self@),
        decreases self,
    {
        proof {
            lemma_layers_unfold(self);
        }
        out.append(self.code);
        out.append(": ");
        out.append(self.message.as_str());
        out.append("\n    at ");
        out.append(self.location.file());
        self.location.push_to(out);
        assert(out@ =~= old(out)@ + layer_text(self@[0]));
        match &self.nested {
            Some(nested) => {
                let nested: &Trace = nested;
                proof {
                    lemma_layers_unfold(nested);
                }
                out.append("\nCaused by:\n");
                nested.push_to(out);
                assert(self@.drop_first() =~= nested@);
                assert(out@ =~= old(out)@ + trace_text(self@));
            },
            None => {},
        }
    }
}

impl View for Trace {
    type V = Seq<LayerView>;

    open spec fn view(&self) -> Seq<LayerView> {
        self.layers()
    }
}

/// One step of the layer view: the outermost layer, then the nested trace.
proof fn lemma_layers_unfold(trace: &Trace)
    ensures
        trace@.len() >= 1,
        trace@[0] == trace.layer_view(),
        trace.nested is None ==> trace@.len() == 1,
        trace.nested matches Some(nested) ==> trace@ == seq![trace.layer_view()] + nested@,
{
}

} // verus!

verus! {

/// `needle` occurs in `text` at position `at`.
pub open spec fn occurs_at(text: Seq<char>, needle: Seq<char>, at: int) -> bool {
    0 <= at && at + needle.len() <= text.len() && text.subrange(at, at + needle.len()) == needle
}

/// The rendered trace shows every layer: the text of each layer, with its
/// code, message and creation site, occurs in it.
pub proof fn lemma_trace_shows_every_layer(layers: Seq<LayerView>, index: int)
    requires
        0 <= index < layers.len(),
    ensures
        exists|at: int| occurs_at(trace_text(layers), layer_text(layers[index]), at),
    decreases layers.len(),
{
    let text = trace_text(layers);
    let first = layer_text(layers[0]);
    if index == 0 {
        assert(text.subrange(0, first.len() as int) =~= first);
        assert(occurs_at(text, first, 0));
    } else {
        let rest = layers.drop_first();
        lemma_trace_shows_every_layer(rest, index - 1);
        let needle = layer_text(layers[index]);
        assert(rest[index - 1] == layers[index]);
        let k = choose|k: int| occurs_at(trace_text(rest), needle, k);
        let head = first + caused_by();
        assert(text == head + trace_text(rest));
        let at = head.len() + k;
        assert(text.subrange(at, at + needle.len()) =~= trace_text(rest).subrange(k, k + needle.len()));
        assert(occurs_at(text, needle, at));
    }
}

/// The rendered trace begins with the outermost layer.
pub proof fn lemma_trace_starts_with_outermost(layers: Seq<LayerView>)
    requires
        layers.len() > 0,
    ensures
        occurs_at(trace_text(layers), layer_text(layers[0]), 0),
{
    assert(trace_text(layers).subrange(0, layer_text(layers[0]).len() as int) =~= layer_text(
        layers[0],
    ));
}

} // verus!

verus! {

/// Two layers that differ at most in their entries.
pub open spec fn same_but_entries(a: LayerView, b: LayerView) -> bool {
    &&& a.code == b.code
    &&& a.description == b.description
    &&& a.message == b.message
    &&& a.location == b.location
}

/// The rendered trace never shows entries: traces whose layers differ only
/// in their entries render identically, so no entry value (hidden or not)
/// reaches the trace.
pub proof fn lemma_trace_ignores_entries(a: Seq<LayerView>, b: Seq<LayerView>)
    requires
        a.len() == b.len(),
        forall|i: int| 0 <= i < a.len() ==> same_but_entries(#[trigger] a[i], b[i]),
    ensures
        trace_text(a) == trace_text(b),
    decreases a.len(),
{
    if a.len() > 0 {
        assert(same_but_entries(a[0], b[0]));
        assert(layer_text(a[0]) == layer_text(b[0]));
        if a.len() > 1 {
            let ra = a.drop_first();
            let rb = b.drop_first();
            assert forall|i: int| 0 <= i < ra.len() implies same_but_entries(#[trigger] ra[i], rb[i]) by {
                assert(same_but_entries(a[i + 1], b[i + 1]));
            }
            lemma_trace_ignores_entries(ra, rb);
        }
    }
}

} // verus!
