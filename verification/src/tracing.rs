//! Fields of a structured event that reports an Inception error.
use vstd::prelude::*;

use crate::entry::EntryView;
use crate::syntax::join_with;
use crate::text::push_char;
use crate::trace::{describes, trace_text, LayerView, Trace};
use crate::InceptionError;

verus! {

/// The fields recorded for one reported error.
pub struct EventFields {
    pub code: &'static str,
    pub description: &'static str,
    pub trace: String,
    pub context: String,
}

/// `key=value` for one entry.
pub open spec fn entry_text(entry: EntryView) -> Seq<char> {
    entry.key + seq!['='] + entry.value
}

/// The entry texts of every layer, outermost layer first, each layer's
/// entries in order.
pub open spec fn entry_texts(layers: Seq<LayerView>) -> Seq<Seq<char>>
    decreases layers.len(),
{
    if layers.len() == 0 {
        Seq::empty()
    } else {
        layers[0].entries.map_values(|entry: EntryView| entry_text(entry)) + entry_texts(
            layers.drop_first(),
        )
    }
}

/// The parts joined with single spaces.
pub open spec fn join_spaced(parts: Seq<Seq<char>>) -> Seq<char>
    decreases parts.len(),
{
    if parts.len() == 0 {
        Seq::empty()
    } else if parts.len() == 1 {
        parts[0]
    } else {
        join_spaced(parts.drop_last()) + seq![' '] + parts.last()
    }
}

/// The context field: all entries of all layers, as `key=value`, separated
/// by spaces.
pub open spec fn context_text(layers: Seq<LayerView>) -> Seq<char> {
    join_spaced(entry_texts(layers))
}

/// The context of a trace: every entry of every layer as `key=value`,
/// outermost layer first, separated by spaces.
#[must_use]
pub fn context_string(trace: &Trace) -> (context: String)
    ensures
        context@ == context_text(trace@),
{
    let mut context = String::new();
    push_context(trace, &mut context, false, Ghost(Seq::empty()));
    assert(Seq::<Seq<char>>::empty() + entry_texts(trace@) =~= entry_texts(trace@));
    context
}

fn push_context(
    trace: &Trace,
    out: &mut String,
    started: bool,
    Ghost(done): Ghost<Seq<Seq<char>>>,
)
    requires
        old(out)@ == join_spaced(done),
        started == (done.len() > 0),
    ensures
        final(out)@ == join_spaced(done + entry_texts(trace@)),
    decreases trace@.len(),
{
    let entries = trace.entries();
    let ghost layer_parts = trace@[0].entries.map_values(|entry: EntryView| entry_text(entry));
    let mut started = started;
    let mut index: usize = 0;
    while index < entries.len()
        invariant
            0 <= index <= entries@.len(),
            layer_parts.len() == entries@.len(),
            forall|i: int|
                0 <= i < entries@.len() ==> layer_parts[i] == entry_text(#[trigger] entries@[i]@),
            out@ == join_spaced(done + layer_parts.take(index as int)),
            started == (done.len() + index > 0),
        decreases entries@.len() - index,
    {
        let entry = &entries[index];
        let ghost parts = done + layer_parts.take(index as int);
        let ghost next = done + layer_parts.take(index + 1);
        assert(next.drop_last() =~= parts);
        assert(next.last() == layer_parts[index as int]);
        if started {
            push_char(out, ' ');
        }
        out.append(entry.key());
        push_char(out, '=');
        out.append(entry.value());
        assert(out@ =~= join_spaced(next));
        started = true;
        index = index + 1;
    }
    assert(layer_parts.take(entries@.len() as int) =~= layer_parts);
    let ghost with_layer = done + layer_parts;
    match trace.nested_error() {
        Some(nested) => {
            push_context(nested, out, started, Ghost(with_layer));
            assert(entry_texts(trace@) == layer_parts + entry_texts(nested@));
            assert(with_layer + entry_texts(nested@) =~= done + entry_texts(trace@));
        },
        None => {
            assert(entry_texts(trace@.drop_first()) =~= Seq::<Seq<char>>::empty());
            assert(with_layer =~= done + entry_texts(trace@));
        },
    }
}

impl EventFields {
    /// The fields that report the error whose trace is `trace`: its
    /// outermost code and description, the rendered trace and the context.
    #[must_use]
    pub fn from_trace(trace: &Trace) -> (fields: Self)
        ensures
            fields.code@ == trace@[0].code,
            fields.description@ == trace@[0].description,
            fields.trace@ == trace_text(trace@),
            fields.context@ == context_text(trace@),
    {
        EventFields {
            code: trace.code(),
            description: trace.description(),
            trace: trace.to_string(),
            context: context_string(trace),
        }
    }
}

/// The fields that report `error`: its code and description, its rendered
/// trace, and the entries of all its layers, outermost layer first.
#[must_use]
pub fn event_fields<E: InceptionError>(error: &E) -> (fields: EventFields)
    ensures
        exists|layers: Seq<LayerView>|
            {
                &&& #[trigger] describes(error, layers)
                &&& fields.code@ == layers[0].code
                &&& fields.description@ == layers[0].description
                &&& fields.trace@ == trace_text(layers)
                &&& fields.context@ == context_text(layers)
            },
{
    let trace = Trace::new(error);
    EventFields::from_trace(&trace)
}

/// The context lists the entries of every layer, whatever the other layers
/// hold: its parts are each layer's `key=value` texts, outermost layer
/// first, flattened in order (so an entry-less layer drops nothing below
/// it).
pub proof fn lemma_context_lists_every_layer(layers: Seq<LayerView>)
    ensures
        entry_texts(layers) == layers.map_values(
            |layer: LayerView| layer.entries.map_values(|entry: EntryView| entry_text(entry)),
        ).flatten(),
        forall|i: int, j: int|
            0 <= i < layers.len() && 0 <= j < layers[i].entries.len() ==> entry_texts(layers).contains(
                entry_text(#[trigger] layers[i].entries[j]),
            ),
    decreases layers.len(),
{
    let texts = layers.map_values(
        |layer: LayerView| layer.entries.map_values(|entry: EntryView| entry_text(entry)),
    );
    if layers.len() > 0 {
        let rest = layers.drop_first();
        lemma_context_lists_every_layer(rest);
        let rest_texts = rest.map_values(
            |layer: LayerView| layer.entries.map_values(|entry: EntryView| entry_text(entry)),
        );
        assert(texts.drop_first() =~= rest_texts);
        assert(texts.first() == layers[0].entries.map_values(|entry: EntryView| entry_text(entry)));
        let first = layers[0].entries.map_values(|entry: EntryView| entry_text(entry));
        assert forall|i: int, j: int|
            0 <= i < layers.len() && 0 <= j < layers[i].entries.len() implies entry_texts(layers).contains(
                entry_text(#[trigger] layers[i].entries[j]),
            ) by {
            if i == 0 {
                assert(entry_texts(layers)[j] == first[j]);
            } else {
                assert(rest[i - 1] == layers[i]);
                assert(entry_texts(rest).contains(entry_text(rest[i - 1].entries[j])));
                let k = choose|k: int| 0 <= k < entry_texts(rest).len() && entry_texts(rest)[k] == entry_text(rest[i - 1].entries[j]);
                assert(entry_texts(layers)[first.len() + k] == entry_texts(rest)[k]);
            }
        }
    } else {
        assert(texts =~= Seq::<Seq<Seq<char>>>::empty());
    }
}

/// The context field joins the parts with single spaces.
pub proof fn lemma_join_spaced_joins_with_spaces(parts: Seq<Seq<char>>)
    ensures
        join_spaced(parts) == join_with(parts, seq![' ']),
    decreases parts.len(),
{
    if parts.len() > 1 {
        lemma_join_spaced_joins_with_spaces(parts.drop_last());
    }
}

} // verus!
