//! Error definitions read from the text of the annotated item.
use vstd::prelude::*;

use crate::attributes::{args_read, attribute_views, AttributeArgs, AttributeModel, AttributeView, ListTokens};
use crate::diagnostic::DefinitionError;
use crate::options::{options_read, parse_error_options};
use crate::plan::{
    error_spec, field_views, plan_error, variant_views, ErrorModel, ErrorPlan, ErrorPlanView,
    ErrorView, FieldModel, VariantModel, VariantView,
};
use crate::syntax::{
    attribute_parts, field_parts, join_with, parse_enum_item, variant_parts, AttributeForm,
};

verus! {

/// Every list of arguments among `attributes` was read as syn reads its
/// text.
pub open spec fn attributes_read(attributes: Seq<AttributeView>) -> bool {
    forall|i: int| 0 <= i < attributes.len() ==> args_read(#[trigger] attributes[i].args)
}

/// Every attribute of a variant and of its fields was read as syn reads it.
pub open spec fn variant_read(variant: VariantView) -> bool {
    &&& attributes_read(variant.attributes)
    &&& forall|k: int|
        0 <= k < variant.fields.len() ==> attributes_read(#[trigger] variant.fields[k].attributes)
}

/// Every attribute of an error definition, its variants and their fields
/// was read as syn reads it.
pub open spec fn definition_read(error: ErrorView) -> bool {
    &&& attributes_read(error.attributes)
    &&& forall|i: int| 0 <= i < error.variants.len() ==> variant_read(#[trigger] error.variants[i])
}

/// The name of an attribute's path: its segments joined by `::`, after a
/// leading `::` where it has one.
pub open spec fn path_name_text(leading: bool, segments: Seq<Seq<char>>) -> Seq<char> {
    (if leading {
        "::"@
    } else {
        Seq::empty()
    }) + join_with(segments, "::"@)
}

fn path_name(leading: bool, segments: &Vec<String>) -> (name: String)
    ensures
        name@ == path_name_text(leading, segments.deep_view()),
{
    let mut name = if leading {
        String::from_str("::")
    } else {
        String::new()
    };
    let ghost start = name@;
    let ghost parts = segments.deep_view();
    let mut index: usize = 0;
    while index < segments.len()
        invariant
            index <= segments@.len(),
            parts == segments.deep_view(),
            start == (if leading {
                "::"@
            } else {
                Seq::<char>::empty()
            }),
            name@ == start + join_with(parts.take(index as int), "::"@),
        decreases segments@.len() - index,
    {
        let ghost before = name@;
        if index > 0 {
            name.append("::");
        }
        name.append(segments[index].as_str());
        proof {
            let next = parts.take(index + 1);
            assert(next.drop_last() =~= parts.take(index as int));
            assert(next.last() == parts[index as int]);
            if index == 0 {
                assert(join_with(next, "::"@) == next[0]);
                assert(join_with(parts.take(0), "::"@) =~= Seq::<char>::empty());
            }
            assert(name@ =~= start + join_with(next, "::"@));
        }
        index = index + 1;
    }
    assert(parts.take(segments@.len() as int) =~= parts);
    name
}

/// Reads one attribute into the model; its argument tokens are read from
/// their text.
fn read_attribute(attribute: syn::Attribute) -> (read: AttributeModel)
    ensures
        args_read(read@.args),
{
    let (leading, segments, form) = attribute_parts(attribute);
    let name = path_name(leading, &segments);
    let args = match form {
        AttributeForm::Word => AttributeArgs::Word,
        AttributeForm::List(text) => AttributeArgs::List(ListTokens::read(text)),
        AttributeForm::NameValue => AttributeArgs::NameValue,
    };
    AttributeModel { name, args }
}

fn read_attributes(attributes: Vec<syn::Attribute>) -> (read: Vec<AttributeModel>)
    ensures
        attributes_read(attribute_views(read@)),
{
    let mut pending = attributes;
    let mut read: Vec<AttributeModel> = Vec::new();
    while pending.len() > 0
        invariant
            attributes_read(attribute_views(read@)),
        decreases pending@.len(),
    {
        let attribute = pending.remove(0);
        let model = read_attribute(attribute);
        let ghost before = attribute_views(read@);
        read.push(model);
        assert(attribute_views(read@) =~= before.push(model@));
    }
    read
}

fn read_field(field: syn::Field) -> (read: FieldModel)
    ensures
        attributes_read(read@.attributes),
{
    let (name, attributes, ty) = field_parts(field);
    FieldModel { name, attributes: read_attributes(attributes), ty }
}

fn read_variant(variant: syn::Variant) -> (read: VariantModel)
    ensures
        variant_read(read@),
{
    let (name, attributes, shape, fields) = variant_parts(variant);
    let attributes = read_attributes(attributes);
    let mut pending = fields;
    let mut read: Vec<FieldModel> = Vec::new();
    while pending.len() > 0
        invariant
            forall|k: int|
                0 <= k < read@.len() ==> attributes_read(#[trigger] field_views(read@)[k].attributes),
        decreases pending@.len(),
    {
        let field = pending.remove(0);
        let model = read_field(field);
        let ghost before = read@;
        read.push(model);
        assert forall|k: int| 0 <= k < read@.len() implies attributes_read(
            #[trigger] field_views(read@)[k].attributes,
        ) by {
            if k < before.len() {
                assert(field_views(read@)[k] == field_views(before)[k]);
            }
        }
    }
    VariantModel { name, attributes, shape, fields: read }
}

/// Reads an error definition from the text of the annotated item, as syn
/// reads it (`parse_str::<syn::ItemEnum>`); `None` where it is not an enum.
fn read_definition(text: &str) -> (model: Option<ErrorModel>)
    ensures
        model matches Some(model) ==> definition_read(model@),
        text@.len() == 0 ==> model is None,
{
    let (name, attributes, variants) = match parse_enum_item(text) {
        Some(item) => item,
        None => return None,
    };
    let attributes = read_attributes(attributes);
    let mut pending = variants;
    let mut read: Vec<VariantModel> = Vec::new();
    while pending.len() > 0
        invariant
            forall|i: int| 0 <= i < read@.len() ==> variant_read(#[trigger] variant_views(read@)[i]),
        decreases pending@.len(),
    {
        let variant = pending.remove(0);
        let model = read_variant(variant);
        let ghost before = read@;
        read.push(model);
        assert forall|i: int| 0 <= i < read@.len() implies variant_read(
            #[trigger] variant_views(read@)[i],
        ) by {
            if i < before.len() {
                assert(variant_views(read@)[i] == variant_views(before)[i]);
            }
        }
    }
    Some(ErrorModel { name, attributes, variants: read })
}

/// A plan by its view.
pub open spec fn plan_outcome(plan: Result<ErrorPlan, DefinitionError>) -> Result<
    ErrorPlanView,
    DefinitionError,
> {
    match plan {
        Ok(plan) => Ok(plan@),
        Err(e) => Err(e),
    }
}

/// What a definition gives for its options read as `options` and its item
/// text `item`: the options' refusal; or, for an item that syn reads as an
/// enum (with every attribute read as syn reads it), what that definition
/// declares; or, for an item that is not an enum (no text, for one), its
/// refusal.
pub open spec fn definition_outcome(
    item: Seq<char>,
    options: Result<bool, DefinitionError>,
    outcome: Result<ErrorPlanView, DefinitionError>,
) -> bool {
    match options {
        Err(e) => outcome == Err::<ErrorPlanView, DefinitionError>(e),
        Ok(serialize) => {
            &&& item.len() == 0 ==> outcome == Err::<ErrorPlanView, DefinitionError>(
                DefinitionError::MalformedDefinition,
            )
            &&& outcome == Err::<ErrorPlanView, DefinitionError>(
                DefinitionError::MalformedDefinition,
            ) || exists|error: ErrorView|
                definition_read(error) && outcome == #[trigger] error_spec(error, serialize)
        },
    }
}

/// Reads an error definition from the texts of the attribute's options and
/// of the annotated item, and decides everything that it declares.
pub fn plan_definition(arguments: &str, item: &str) -> (plan: Result<ErrorPlan, DefinitionError>)
    ensures
        exists|options: Result<bool, DefinitionError>|
            options_read(arguments@, options) && #[trigger] definition_outcome(
                item@,
                options,
                plan_outcome(plan),
            ),
{
    let options = parse_error_options(arguments);
    let serialize = match options {
        Ok(serialize) => serialize,
        Err(e) => {
            assert(definition_outcome(item@, options, plan_outcome(Err(e))));
            return Err(e);
        },
    };
    let model = match read_definition(item) {
        Some(model) => model,
        None => {
            let plan = Err(DefinitionError::MalformedDefinition);
            assert(definition_outcome(item@, options, plan_outcome(plan)));
            return plan;
        },
    };
    let ghost view = model@;
    let plan = plan_error(model, serialize);
    assert(plan_outcome(plan) == error_spec(view, serialize));
    assert(definition_outcome(item@, options, plan_outcome(plan)));
    plan
}

} // verus!
