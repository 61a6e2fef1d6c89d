//! What an error definition declares, variant by variant: codes,
//! descriptions, causes, entries and the names of the generated items.
use vstd::prelude::*;

use crate::attributes::{
    attribute_views, derive_is, last_is, reading_text, take_cause_marker, take_code,
    take_derives, take_derives_spec, take_description, take_marker, take_spec, AttributeModel,
    AttributeView, Reader, Reading, given_text, lemma_take_reads_given_text,
    lemma_take_keeps_other_attributes, lemma_given_text_skips_others, has_named, lemma_take_fits,
    lemma_others_keep_names,
};
use crate::diagnostic::DefinitionError;
use crate::naming::{
    builder_method_name, builder_method_text, builder_type_name, builder_type_text,
    constructor_name, default_code, default_code_text, kind_name, kind_name_text,
    locate_err_method_name, locate_err_prefix, snake_case,
};
use crate::paths::copy_segments;
use crate::text::{decimal, decimal_string};

verus! {

/// The type of a field, as far as the definition reads it.
pub enum TypeShape {
    /// A path type; `qualified` when it has a qualified self (`<T as Trait>::X`).
    Path { qualified: bool, segments: Vec<String> },
    /// Any other type.
    Other,
}

/// The mathematical content of a [`TypeShape`].
pub enum TypeView {
    Path { qualified: bool, segments: Seq<Seq<char>> },
    Other,
}

impl View for TypeShape {
    type V = TypeView;

    open spec fn view(&self) -> TypeView {
        match self {
            TypeShape::Path { qualified, segments } => TypeView::Path {
                qualified: *qualified,
                segments: segments.deep_view(),
            },
            TypeShape::Other => TypeView::Other,
        }
    }
}

/// A boxed type: an unqualified path whose last segment is `Box`.
pub open spec fn is_box(ty: TypeView) -> bool {
    match ty {
        TypeView::Path { qualified, segments } => !qualified && last_is(segments, "Box"@),
        TypeView::Other => false,
    }
}

/// Whether a field's type is a `Box`, whose source is reached through the
/// box.
pub fn type_is_box(ty: &TypeShape) -> (boxed: bool)
    ensures
        boxed == is_box(ty@),
{
    match ty {
        TypeShape::Path { qualified, segments } => !*qualified && derive_is(segments, "Box"),
        TypeShape::Other => false,
    }
}

/// One field of a variant: its name (`None` in a tuple variant), its
/// attributes and its type.
pub struct FieldModel {
    pub name: Option<String>,
    pub attributes: Vec<AttributeModel>,
    pub ty: TypeShape,
}

/// The mathematical content of a [`FieldModel`].
pub struct FieldView {
    pub name: Option<Seq<char>>,
    pub attributes: Seq<AttributeView>,
    pub ty: TypeView,
}

impl View for FieldModel {
    type V = FieldView;

    open spec fn view(&self) -> FieldView {
        FieldView {
            name: self.name.deep_view(),
            attributes: attribute_views(self.attributes@),
            ty: self.ty@,
        }
    }
}

/// The views of a sequence of fields.
pub open spec fn field_views(fields: Seq<FieldModel>) -> Seq<FieldView> {
    fields.map_values(|field: FieldModel| field@)
}

/// How a variant's fields are written.
#[derive(Clone, Copy, PartialEq, Eq)]
pub enum FieldsShape {
    /// `Variant { a: A, b: B }`
    Named,
    /// `Variant(A, B)`
    Unnamed,
    /// `Variant`
    Unit,
}

/// One variant of an error definition.
pub struct VariantModel {
    pub name: String,
    pub attributes: Vec<AttributeModel>,
    pub shape: FieldsShape,
    pub fields: Vec<FieldModel>,
}

/// The mathematical content of a [`VariantModel`].
pub struct VariantView {
    pub name: Seq<char>,
    pub attributes: Seq<AttributeView>,
    pub shape: FieldsShape,
    pub fields: Seq<FieldView>,
}

impl View for VariantModel {
    type V = VariantView;

    open spec fn view(&self) -> VariantView {
        VariantView {
            name: self.name@,
            attributes: attribute_views(self.attributes@),
            shape: self.shape,
            fields: field_views(self.fields@),
        }
    }
}

/// What the attributes of one field declare.
pub struct FieldFacts {
    /// `Some(true)` for a nested Inception error, `Some(false)` for an
    /// external source, `None` for a context field.
    pub cause: Option<bool>,
    /// Marked `#[from]`.
    pub from: bool,
    /// Marked `#[hide]`.
    pub hidden: bool,
    /// The field's other attributes.
    pub rest: Seq<AttributeView>,
}

/// Reads a field's `#[caused_by]`, `#[from]` and `#[hide]`, in that order,
/// and checks that only a cause is `#[from]` and that no cause is hidden.
pub open spec fn field_facts(attributes: Seq<AttributeView>) -> Result<FieldFacts, DefinitionError> {
    match take_spec(attributes, Reader::Cause, None) {
        Err(e) => Err(e),
        Ok((cause, after_cause)) => match take_spec(after_cause, Reader::Marker("from"), None) {
            Err(e) => Err(e),
            Ok((from, after_from)) => match take_spec(after_from, Reader::Marker("hide"), None) {
                Err(e) => Err(e),
                Ok((hide, rest)) => {
                    let kind = match cause {
                        Some(Reading::Flag(nested)) => Some(nested),
                        _ => None,
                    };
                    if hide is Some && kind is Some {
                        Err(DefinitionError::HiddenCause)
                    } else if from is Some && kind is None {
                        Err(DefinitionError::FromWithoutCause)
                    } else {
                        Ok(FieldFacts { cause: kind, from: from is Some, hidden: hide is Some, rest })
                    }
                },
            },
        },
    }
}

/// The cause of a variant: which field, whether it is a nested Inception
/// error, and whether it is boxed.
#[derive(Clone, Copy)]
pub struct SourcePlan {
    pub index: usize,
    pub nested: bool,
    pub boxed: bool,
}

/// One entry that a variant reports: the field, the entry's key (the
/// field's name, or its position in a tuple variant) and whether its value
/// is withheld.
pub struct EntryPlan {
    pub field: usize,
    pub key: String,
    pub hidden: bool,
}

/// The mathematical content of an [`EntryPlan`].
pub struct EntryPlanView {
    pub field: nat,
    pub key: Seq<char>,
    pub hidden: bool,
}

impl View for EntryPlan {
    type V = EntryPlanView;

    open spec fn view(&self) -> EntryPlanView {
        EntryPlanView { field: self.field as nat, key: self.key@, hidden: self.hidden }
    }
}

/// The key of the entry for field `index`: its name, or its position.
pub open spec fn field_key(field: FieldView, index: nat) -> Seq<char> {
    match field.name {
        Some(name) => name,
        None => decimal(index),
    }
}

/// What the fields of a variant declare together.
pub struct FieldsPlanView {
    pub source: Option<SourcePlan>,
    pub from_field: Option<usize>,
    pub entries: Seq<EntryPlanView>,
    pub fields: Seq<FieldView>,
}

/// One field added to what the fields before it declare.
pub open spec fn fields_step(
    plan: FieldsPlanView,
    index: nat,
    field: FieldView,
) -> Result<FieldsPlanView, DefinitionError> {
    match field_facts(field.attributes) {
        Err(e) => Err(e),
        Ok(facts) => if facts.cause is Some && plan.source is Some {
            Err(DefinitionError::MultipleCauses)
        } else {
            Ok(
                FieldsPlanView {
                    source: match facts.cause {
                        Some(nested) => Some(
                            SourcePlan { index: index as usize, nested, boxed: is_box(field.ty) },
                        ),
                        None => plan.source,
                    },
                    from_field: if facts.from {
                        Some(index as usize)
                    } else {
                        plan.from_field
                    },
                    entries: if facts.cause is None {
                        plan.entries.push(
                            EntryPlanView {
                                field: index,
                                key: field_key(field, index),
                                hidden: facts.hidden,
                            },
                        )
                    } else {
                        plan.entries
                    },
                    fields: plan.fields.push(FieldView { name: field.name, attributes: facts.rest, ty: field.ty }),
                },
            )
        },
    }
}

/// What the fields of a variant declare, read in order; or the error of
/// the first field that is refused.
pub open spec fn fields_spec(fields: Seq<FieldView>) -> Result<FieldsPlanView, DefinitionError>
    decreases fields.len(),
{
    if fields.len() == 0 {
        Ok(FieldsPlanView { source: None, from_field: None, entries: Seq::empty(), fields: Seq::empty() })
    } else {
        match fields_spec(fields.drop_last()) {
            Err(e) => Err(e),
            Ok(plan) => fields_step(plan, (fields.len() - 1) as nat, fields.last()),
        }
    }
}

/// Once a prefix of the fields is refused, so are the fields.
proof fn lemma_fields_error_persists(fields: Seq<FieldView>, count: int)
    requires
        0 <= count <= fields.len(),
        fields_spec(fields.take(count)) is Err,
    ensures
        fields_spec(fields) == fields_spec(fields.take(count)),
    decreases fields.len() - count,
{
    if count < fields.len() {
        let longer = fields.take(count + 1);
        assert(longer.drop_last() =~= fields.take(count));
        lemma_fields_error_persists(fields, count + 1);
    } else {
        assert(fields.take(count) =~= fields);
    }
}

/// The view of the parts of a fields plan.
pub open spec fn plan_view(
    source: Option<SourcePlan>,
    from_field: Option<usize>,
    entries: Seq<EntryPlan>,
    fields: Seq<FieldModel>,
) -> FieldsPlanView {
    FieldsPlanView {
        source,
        from_field,
        entries: entries.map_values(|entry: EntryPlan| entry@),
        fields: field_views(fields),
    }
}

/// What the fields of a variant declare. Each field's `#[caused_by]`,
/// `#[from]` and `#[hide]` are read and removed; the fields come back with
/// their other attributes.
pub fn plan_fields(fields: Vec<FieldModel>) -> (plan: Result<
    (Option<SourcePlan>, Option<usize>, Vec<EntryPlan>, Vec<FieldModel>),
    DefinitionError,
>)
    ensures
        match plan {
            Ok((source, from_field, entries, stripped)) => fields_spec(field_views(fields@)) == Ok::<
                FieldsPlanView,
                DefinitionError,
            >(plan_view(source, from_field, entries@, stripped@)),
            Err(e) => fields_spec(field_views(fields@)) == Err::<FieldsPlanView, DefinitionError>(e),
        },
{
    let ghost all = field_views(fields@);
    let total = fields.len();
    let mut pending = fields;
    let mut source: Option<SourcePlan> = None;
    let mut from_field: Option<usize> = None;
    let mut entries: Vec<EntryPlan> = Vec::new();
    let mut stripped: Vec<FieldModel> = Vec::new();
    let mut index: usize = 0;
    assert(all.take(0) =~= Seq::<FieldView>::empty());
    assert(plan_view(source, from_field, entries@, stripped@).entries =~= Seq::<EntryPlanView>::empty());
    assert(plan_view(source, from_field, entries@, stripped@).fields =~= Seq::<FieldView>::empty());
    while index < total
        invariant
            total == all.len(),
            index <= total,
            field_views(pending@) =~= all.skip(index as int),
            fields_spec(all.take(index as int)) == Ok::<FieldsPlanView, DefinitionError>(
                plan_view(source, from_field, entries@, stripped@),
            ),
            all == field_views(fields@),
        decreases total - index,
    {
        let ghost before = plan_view(source, from_field, entries@, stripped@);
        let ghost rest_views = field_views(pending@);
        assert(pending@.len() == rest_views.len());
        let ghost old_pending = pending@;
        let mut field = pending.remove(0);
        assert forall|i: int| 0 <= i < pending@.len() implies field_views(pending@)[i] == all.skip(
            index + 1,
        )[i] by {
            assert(pending@[i] == old_pending[i + 1]);
            assert(rest_views[i + 1] == old_pending[i + 1]@);
            assert(rest_views[i + 1] == all.skip(index as int)[i + 1]);
        }
        assert(field_views(pending@) =~= all.skip(index + 1));
        assert(field@ == rest_views[0]);
        assert(field@ == all[index as int]);
        let ghost prefix = all.take(index + 1);
        assert(prefix.drop_last() =~= all.take(index as int));
        assert(prefix.last() == all[index as int]);
        let ghost step = fields_spec(prefix);
        assert(step == fields_step(before, index as nat, all[index as int]));
        let ghost original = field@;
        let cause = match take_cause_marker(&mut field.attributes) {
            Ok(cause) => cause,
            Err(e) => {
                proof {
                    lemma_fields_error_persists(all, index + 1);
                }
                return Err(e);
            },
        };
        let from = match take_marker(&mut field.attributes, "from") {
            Ok(from) => from,
            Err(e) => {
                proof {
                    lemma_fields_error_persists(all, index + 1);
                }
                return Err(e);
            },
        };
        let hidden = match take_marker(&mut field.attributes, "hide") {
            Ok(hidden) => hidden,
            Err(e) => {
                proof {
                    lemma_fields_error_persists(all, index + 1);
                }
                return Err(e);
            },
        };
        let is_cause = cause.is_some();
        if hidden && is_cause {
            proof {
                lemma_fields_error_persists(all, index + 1);
            }
            return Err(DefinitionError::HiddenCause);
        }
        if from && !is_cause {
            proof {
                lemma_fields_error_persists(all, index + 1);
            }
            return Err(DefinitionError::FromWithoutCause);
        }
        if is_cause && source.is_some() {
            proof {
                lemma_fields_error_persists(all, index + 1);
            }
            return Err(DefinitionError::MultipleCauses);
        }
        if from {
            from_field = Some(index);
        }
        if !is_cause {
            let key = match &field.name {
                Some(name) => name.clone(),
                None => decimal_string(index as u64),
            };
            entries.push(EntryPlan { field: index, key, hidden });
        } else {
            let boxed = type_is_box(&field.ty);
            source = Some(SourcePlan { index, nested: cause.unwrap(), boxed });
        }
        stripped.push(field);
        proof {
            let after = plan_view(source, from_field, entries@, stripped@);
            assert(after.entries =~= if is_cause {
                before.entries
            } else {
                before.entries.push(EntryPlanView { field: index as nat, key: field_key(original, index as nat), hidden })
            });
            assert(after.fields =~= before.fields.push(
                FieldView { name: original.name, attributes: field@.attributes, ty: original.ty },
            ));
        }
        index = index + 1;
    }
    assert(all.take(total as int) =~= all);
    Ok((source, from_field, entries, stripped))
}

/// The names of the builder generated for a named variant.
pub struct BuilderNames {
    pub builder_type: String,
    pub method: String,
}

/// Everything that an error definition declares about one variant.
pub struct VariantPlan {
    pub name: String,
    /// The variant's attributes other than `#[code]` and `#[description]`.
    pub attributes: Vec<AttributeModel>,
    pub shape: FieldsShape,
    /// The fields, without their `#[caused_by]`, `#[from]` and `#[hide]`.
    pub fields: Vec<FieldModel>,
    pub code: String,
    pub description: String,
    pub source: Option<SourcePlan>,
    pub from_field: Option<usize>,
    pub entries: Vec<EntryPlan>,
    pub constructor: String,
    pub locate_err_method: Option<String>,
    pub builder: Option<BuilderNames>,
}

/// The mathematical content of a [`VariantPlan`].
pub struct VariantPlanView {
    pub name: Seq<char>,
    pub attributes: Seq<AttributeView>,
    pub shape: FieldsShape,
    pub fields: Seq<FieldView>,
    pub code: Seq<char>,
    pub description: Seq<char>,
    pub source: Option<SourcePlan>,
    pub from_field: Option<usize>,
    pub entries: Seq<EntryPlanView>,
    pub constructor: Seq<char>,
    pub locate_err_method: Option<Seq<char>>,
    pub builder: Option<(Seq<char>, Seq<char>)>,
}

impl View for VariantPlan {
    type V = VariantPlanView;

    open spec fn view(&self) -> VariantPlanView {
        VariantPlanView {
            name: self.name@,
            attributes: attribute_views(self.attributes@),
            shape: self.shape,
            fields: field_views(self.fields@),
            code: self.code@,
            description: self.description@,
            source: self.source,
            from_field: self.from_field,
            entries: self.entries@.map_values(|entry: EntryPlan| entry@),
            constructor: self.constructor@,
            locate_err_method: self.locate_err_method.deep_view(),
            builder: match self.builder {
                Some(names) => Some((names.builder_type@, names.method@)),
                None => None,
            },
        }
    }
}

/// What the definition of error `error` declares about one variant: its
/// code (`Error.Variant` unless given), its description (the variant's name
/// unless given), its cause, entries and generated names; or why it is
/// refused.
pub open spec fn variant_spec(error: Seq<char>, variant: VariantView) -> Result<
    VariantPlanView,
    DefinitionError,
> {
    match take_spec(variant.attributes, Reader::Code, None) {
        Err(e) => Err(e),
        Ok((code, after_code)) => match take_spec(after_code, Reader::Description, None) {
            Err(e) => Err(e),
            Ok((description, rest)) => match fields_spec(variant.fields) {
                Err(e) => Err(e),
                Ok(fields) => if fields.from_field is Some && variant.fields.len() != 1 {
                    Err(DefinitionError::FromWithOtherFields)
                } else {
                    Ok(
                        VariantPlanView {
                            name: variant.name,
                            attributes: rest,
                            shape: variant.shape,
                            fields: fields.fields,
                            code: match reading_text(code) {
                                Some(code) => code,
                                None => default_code_text(error, variant.name),
                            },
                            description: match reading_text(description) {
                                Some(description) => description,
                                None => variant.name,
                            },
                            source: fields.source,
                            from_field: fields.from_field,
                            entries: fields.entries,
                            constructor: snake_case(variant.name),
                            locate_err_method: if fields.source is Some && variant.fields.len()
                                == 1 {
                                Some(locate_err_prefix() + snake_case(variant.name))
                            } else {
                                None
                            },
                            builder: if variant.shape == FieldsShape::Named {
                                Some(
                                    (
                                        builder_type_text(error, variant.name),
                                        builder_method_text(variant.name),
                                    ),
                                )
                            } else {
                                None
                            },
                        },
                    )
                },
            },
        },
    }
}

/// Reads one variant of the definition of error `error`.
pub fn plan_variant(error: &str, variant: VariantModel) -> (plan: Result<
    VariantPlan,
    DefinitionError,
>)
    ensures
        match plan {
            Ok(plan) => variant_spec(error@, variant@) == Ok::<VariantPlanView, DefinitionError>(
                plan@,
            ),
            Err(e) => variant_spec(error@, variant@) == Err::<VariantPlanView, DefinitionError>(e),
        },
{
    let VariantModel { name, attributes, shape, fields } = variant;
    let mut attributes = attributes;
    let code = take_code(&mut attributes)?;
    let description = take_description(&mut attributes)?;
    let field_count = fields.len();
    let (source, from_field, entries, stripped) = plan_fields(fields)?;
    if from_field.is_some() && field_count != 1 {
        return Err(DefinitionError::FromWithOtherFields);
    }
    let code = match code {
        Some(code) => code,
        None => default_code(error, name.as_str()),
    };
    let description = match description {
        Some(description) => description,
        None => name.clone(),
    };
    let constructor = constructor_name(name.as_str());
    let locate_err_method = if source.is_some() && field_count == 1 {
        Some(locate_err_method_name(name.as_str()))
    } else {
        None
    };
    let builder = match shape {
        FieldsShape::Named => Some(
            BuilderNames {
                builder_type: builder_type_name(error, name.as_str()),
                method: builder_method_name(name.as_str()),
            },
        ),
        _ => None,
    };
    let plan = VariantPlan {
        name,
        attributes,
        shape,
        fields: stripped,
        code,
        description,
        source,
        from_field,
        entries,
        constructor,
        locate_err_method,
        builder,
    };
    Ok(plan)
}

/// An error definition: the enum's name, its attributes and its variants.
pub struct ErrorModel {
    pub name: String,
    pub attributes: Vec<AttributeModel>,
    pub variants: Vec<VariantModel>,
}

/// The mathematical content of an [`ErrorModel`].
pub struct ErrorView {
    pub name: Seq<char>,
    pub attributes: Seq<AttributeView>,
    pub variants: Seq<VariantView>,
}

impl View for ErrorModel {
    type V = ErrorView;

    open spec fn view(&self) -> ErrorView {
        ErrorView {
            name: self.name@,
            attributes: attribute_views(self.attributes@),
            variants: variant_views(self.variants@),
        }
    }
}

/// The views of a sequence of variants.
pub open spec fn variant_views(variants: Seq<VariantModel>) -> Seq<VariantView> {
    variants.map_values(|variant: VariantModel| variant@)
}

/// Which comparison and hashing traits the kind enum derives, and thus the
/// error implements by its kind alone (ignoring its creation site).
#[derive(Clone, Copy, PartialEq, Eq)]
pub struct SemanticImpls {
    pub partial_eq: bool,
    pub eq: bool,
    pub partial_ord: bool,
    pub ord: bool,
    pub hash: bool,
}

/// Some derive path ends in `name`.
pub open spec fn derives_named(derives: Seq<Seq<Seq<char>>>, name: Seq<char>) -> bool {
    exists|i: int| 0 <= i < derives.len() && last_is(#[trigger] derives[i], name)
}

/// The traits implemented by kind, given the derived paths.
pub open spec fn semantic_impls_spec(derives: Seq<Seq<Seq<char>>>) -> SemanticImpls {
    SemanticImpls {
        partial_eq: derives_named(derives, "PartialEq"@),
        eq: derives_named(derives, "Eq"@),
        partial_ord: derives_named(derives, "PartialOrd"@),
        ord: derives_named(derives, "Ord"@),
        hash: derives_named(derives, "Hash"@),
    }
}

/// The derives that the error wrapper shares with its kind: `Clone` and
/// `Copy`, in order.
pub open spec fn wrapper_derives_spec(derives: Seq<Seq<Seq<char>>>) -> Seq<Seq<Seq<char>>>
    decreases derives.len(),
{
    if derives.len() == 0 {
        Seq::empty()
    } else if last_is(derives.last(), "Clone"@) || last_is(derives.last(), "Copy"@) {
        wrapper_derives_spec(derives.drop_last()).push(derives.last())
    } else {
        wrapper_derives_spec(derives.drop_last())
    }
}

/// The plans of the variants, in order; or the error of the first refused
/// variant.
pub open spec fn variants_spec(error: Seq<char>, variants: Seq<VariantView>) -> Result<
    Seq<VariantPlanView>,
    DefinitionError,
>
    decreases variants.len(),
{
    if variants.len() == 0 {
        Ok(Seq::empty())
    } else {
        match variants_spec(error, variants.drop_last()) {
            Err(e) => Err(e),
            Ok(plans) => match variant_spec(error, variants.last()) {
                Err(e) => Err(e),
                Ok(plan) => Ok(plans.push(plan)),
            },
        }
    }
}

/// Everything that an error definition declares.
pub struct ErrorPlan {
    pub name: String,
    pub kind_name: String,
    /// The enum's attributes other than its derives.
    pub attributes: Vec<AttributeModel>,
    /// The derived paths other than `Debug`, for the kind enum.
    pub derives: Vec<Vec<String>>,
    /// The derived paths that the error wrapper shares (`Clone`, `Copy`).
    pub wrapper_derives: Vec<Vec<String>>,
    pub semantic: SemanticImpls,
    pub variants: Vec<VariantPlan>,
    pub serialize: bool,
}

/// The mathematical content of an [`ErrorPlan`].
pub struct ErrorPlanView {
    pub name: Seq<char>,
    pub kind_name: Seq<char>,
    pub attributes: Seq<AttributeView>,
    pub derives: Seq<Seq<Seq<char>>>,
    pub wrapper_derives: Seq<Seq<Seq<char>>>,
    pub semantic: SemanticImpls,
    pub variants: Seq<VariantPlanView>,
    pub serialize: bool,
}

impl View for ErrorPlan {
    type V = ErrorPlanView;

    open spec fn view(&self) -> ErrorPlanView {
        ErrorPlanView {
            name: self.name@,
            kind_name: self.kind_name@,
            attributes: attribute_views(self.attributes@),
            derives: self.derives.deep_view(),
            wrapper_derives: self.wrapper_derives.deep_view(),
            semantic: self.semantic,
            variants: self.variants@.map_values(|plan: VariantPlan| plan@),
            serialize: self.serialize,
        }
    }
}

/// What an error definition declares; or why it is refused.
pub open spec fn error_spec(error: ErrorView, serialize: bool) -> Result<
    ErrorPlanView,
    DefinitionError,
> {
    match take_derives_spec(error.attributes) {
        Err(e) => Err(e),
        Ok((derives, rest)) => match variants_spec(error.name, error.variants) {
            Err(e) => Err(e),
            Ok(plans) => Ok(
                ErrorPlanView {
                    name: error.name,
                    kind_name: kind_name_text(error.name),
                    attributes: rest,
                    derives,
                    wrapper_derives: wrapper_derives_spec(derives),
                    semantic: semantic_impls_spec(derives),
                    variants: plans,
                    serialize,
                },
            ),
        },
    }
}

/// Whether some derive path ends in `name`.
pub fn derives_any(derives: &Vec<Vec<String>>, name: &str) -> (found: bool)
    ensures
        found == derives_named(derives.deep_view(), name@),
{
    let mut index: usize = 0;
    while index < derives.len()
        invariant
            index <= derives@.len(),
            forall|i: int| 0 <= i < index ==> !last_is(#[trigger] derives.deep_view()[i], name@),
        decreases derives@.len() - index,
    {
        if derive_is(&derives[index], name) {
            assert(last_is(derives.deep_view()[index as int], name@));
            return true;
        }
        index = index + 1;
    }
    false
}

/// The traits that the error implements through its kind alone.
pub fn semantic_impls(derives: &Vec<Vec<String>>) -> (impls: SemanticImpls)
    ensures
        impls == semantic_impls_spec(derives.deep_view()),
{
    SemanticImpls {
        partial_eq: derives_any(derives, "PartialEq"),
        eq: derives_any(derives, "Eq"),
        partial_ord: derives_any(derives, "PartialOrd"),
        ord: derives_any(derives, "Ord"),
        hash: derives_any(derives, "Hash"),
    }
}

/// The derives that the error wrapper shares with its kind.
pub fn wrapper_derives(derives: &Vec<Vec<String>>) -> (shared: Vec<Vec<String>>)
    ensures
        shared.deep_view() == wrapper_derives_spec(derives.deep_view()),
{
    let mut shared: Vec<Vec<String>> = Vec::new();
    let mut index: usize = 0;
    while index < derives.len()
        invariant
            index <= derives@.len(),
            shared.deep_view() == wrapper_derives_spec(derives.deep_view().take(index as int)),
        decreases derives@.len() - index,
    {
        let ghost prefix = derives.deep_view().take(index + 1);
        assert(prefix.drop_last() =~= derives.deep_view().take(index as int));
        assert(prefix.last() == derives[index as int].deep_view());
        if derive_is(&derives[index], "Clone") || derive_is(&derives[index], "Copy") {
            let ghost before = shared.deep_view();
            shared.push(copy_segments(&derives[index], derives[index].len()));
            assert(derives[index as int].deep_view().take(derives[index as int]@.len() as int) =~= derives[index as int].deep_view());
            assert(shared.deep_view() =~= before.push(derives[index as int].deep_view()));
        }
        index = index + 1;
    }
    assert(derives.deep_view().take(derives@.len() as int) =~= derives.deep_view());
    shared
}

/// Reads an error definition: its derives, then its variants in order.
pub fn plan_error(error: ErrorModel, serialize: bool) -> (plan: Result<
    ErrorPlan,
    DefinitionError,
>)
    ensures
        match plan {
            Ok(plan) => error_spec(error@, serialize) == Ok::<ErrorPlanView, DefinitionError>(
                plan@,
            ),
            Err(e) => error_spec(error@, serialize) == Err::<ErrorPlanView, DefinitionError>(e),
        },
{
    let ghost view = error@;
    let ErrorModel { name, attributes, variants } = error;
    let mut attributes = attributes;
    let derives = take_derives(&mut attributes)?;
    let kind = kind_name(name.as_str());
    let shared = wrapper_derives(&derives);
    let semantic = semantic_impls(&derives);
    let ghost all = view.variants;
    let total = variants.len();
    let mut pending = variants;
    let mut plans: Vec<VariantPlan> = Vec::new();
    let mut index: usize = 0;
    assert(all.take(0) =~= Seq::<VariantView>::empty());
    assert(plans@.map_values(|plan: VariantPlan| plan@) =~= Seq::<VariantPlanView>::empty());
    while index < total
        invariant
            total == all.len(),
            index <= total,
            variant_views(pending@) =~= all.skip(index as int),
            variants_spec(name@, all.take(index as int)) == Ok::<Seq<VariantPlanView>, DefinitionError>(
                plans@.map_values(|plan: VariantPlan| plan@),
            ),
            view == error@,
            all == view.variants,
            view.name == name@,
            take_derives_spec(view.attributes) == Ok::<
                (Seq<Seq<Seq<char>>>, Seq<AttributeView>),
                DefinitionError,
            >((derives.deep_view(), attribute_views(attributes@))),
        decreases total - index,
    {
        let ghost rest_views = variant_views(pending@);
        let ghost old_pending = pending@;
        assert(pending@.len() == rest_views.len());
        let variant = pending.remove(0);
        assert forall|i: int| 0 <= i < pending@.len() implies #[trigger] variant_views(pending@)[i]
            == all.skip(index + 1)[i] by {
            assert(pending@[i] == old_pending[i + 1]);
            assert(rest_views[i + 1] == all.skip(index as int)[i + 1]);
        }
        assert(rest_views[0] == old_pending[0]@);
        assert(rest_views[0] == all[index as int]);
        assert(variant@ == all[index as int]);
        let ghost prefix = all.take(index + 1);
        assert(prefix.drop_last() =~= all.take(index as int));
        assert(prefix.last() == all[index as int]);
        let ghost before = plans@.map_values(|plan: VariantPlan| plan@);
        match plan_variant(name.as_str(), variant) {
            Ok(plan) => {
                plans.push(plan);
                assert(plans@.map_values(|plan: VariantPlan| plan@) =~= before.push(plan@));
            },
            Err(e) => {
                proof {
                    lemma_variants_error_persists(name@, all, index + 1);
                }
                return Err(e);
            },
        }
        index = index + 1;
    }
    assert(all.take(total as int) =~= all);
    Ok(
        ErrorPlan {
            name,
            kind_name: kind,
            attributes,
            derives,
            wrapper_derives: shared,
            semantic,
            variants: plans,
            serialize,
        },
    )
}

/// Once a prefix of the variants is refused, so is the definition.
proof fn lemma_variants_error_persists(error: Seq<char>, variants: Seq<VariantView>, count: int)
    requires
        0 <= count <= variants.len(),
        variants_spec(error, variants.take(count)) is Err,
    ensures
        variants_spec(error, variants) == variants_spec(error, variants.take(count)),
    decreases variants.len() - count,
{
    if count < variants.len() {
        let longer = variants.take(count + 1);
        assert(longer.drop_last() =~= variants.take(count));
        lemma_variants_error_persists(error, variants, count + 1);
    } else {
        assert(variants.take(count) =~= variants);
    }
}

} // verus!

verus! {

/// What `plan` says of the fields: each entry stands for a context field
/// (no cause) with that field's key and `#[hide]` flag, every context field
/// has an entry, and the source is a cause field.
pub open spec fn fields_plan_faithful(fields: Seq<FieldView>, plan: FieldsPlanView) -> bool {
    &&& plan.fields.len() == fields.len()
    &&& forall|i: int|
        0 <= i < fields.len() ==> (#[trigger] plan.fields[i]).name == fields[i].name
            && plan.fields[i].ty == fields[i].ty
    &&& forall|k: int|
        0 <= k < plan.entries.len() ==> {
            let entry = #[trigger] plan.entries[k];
            &&& entry.field < fields.len()
            &&& field_facts(fields[entry.field as int].attributes) matches Ok(facts)
            &&& facts.cause is None
            &&& entry.hidden == facts.hidden
            &&& entry.key == field_key(fields[entry.field as int], entry.field)
        }
    &&& forall|i: int|
        0 <= i < fields.len() && (field_facts(#[trigger] fields[i].attributes) matches Ok(facts)
            && facts.cause is None) ==> exists|k: int|
            0 <= k < plan.entries.len() && (#[trigger] plan.entries[k]).field == i
    &&& forall|j: int, k: int|
        0 <= j < k < plan.entries.len() ==> (#[trigger] plan.entries[j]).field
            < (#[trigger] plan.entries[k]).field
    &&& plan.source matches Some(source) ==> {
        &&& source.index < fields.len()
        &&& field_facts(fields[source.index as int].attributes) matches Ok(facts)
        &&& facts.cause == Some(source.nested)
        &&& source.boxed == is_box(fields[source.index as int].ty)
    }
}

/// Every accepted variant reports exactly its context fields as entries:
/// each non-cause field once, in the order of the fields, keyed by its name
/// (or its position in a tuple variant), and withheld exactly when it is
/// marked `#[hide]`; its one cause is the source.
pub proof fn lemma_fields_plan_faithful(fields: Seq<FieldView>)
    requires
        fields.len() <= usize::MAX,
    ensures
        fields_spec(fields) matches Ok(plan) ==> fields_plan_faithful(fields, plan),
    decreases fields.len(),
{
    if fields.len() > 0 {
        let prefix = fields.drop_last();
        lemma_fields_plan_faithful(prefix);
        let last = (fields.len() - 1) as nat;
        match fields_spec(prefix) {
            Ok(before) => {
                match fields_spec(fields) {
                    Ok(plan) => {
                        assert(plan == fields_step(before, last, fields.last())->Ok_0);
                        let facts = field_facts(fields.last().attributes)->Ok_0;
                        assert(field_facts(fields.last().attributes) is Ok);
                        assert forall|i: int| 0 <= i < prefix.len() implies fields[i] == #[trigger] prefix[i] by {}
                        assert forall|k: int| 0 <= k < plan.entries.len() implies {
                            let entry = #[trigger] plan.entries[k];
                            &&& entry.field < fields.len()
                            &&& field_facts(fields[entry.field as int].attributes) matches Ok(f)
                            &&& f.cause is None
                            &&& entry.hidden == f.hidden
                            &&& entry.key == field_key(fields[entry.field as int], entry.field)
                        } by {
                            if k < before.entries.len() {
                                assert(plan.entries[k] == before.entries[k]);
                                assert(prefix[before.entries[k].field as int] == fields[before.entries[k].field as int]);
                            }
                        }
                        assert forall|i: int|
                            0 <= i < fields.len() && (field_facts(#[trigger] fields[i].attributes) matches Ok(f)
                                && f.cause is None) implies exists|k: int|
                            0 <= k < plan.entries.len() && (#[trigger] plan.entries[k]).field == i by {
                            if i < prefix.len() {
                                assert(prefix[i] == fields[i]);
                                assert(field_facts(prefix[i].attributes) == field_facts(fields[i].attributes));
                                let k = choose|k: int|
                                    0 <= k < before.entries.len() && (#[trigger] before.entries[k]).field == i;
                                assert(plan.entries[k] == before.entries[k]);
                            } else {
                                assert(i == last);
                                let k = before.entries.len() as int;
                                assert(plan.entries[k].field == i);
                            }
                        }
                        assert forall|i: int| 0 <= i < fields.len() implies (#[trigger] plan.fields[i]).name
                            == fields[i].name && plan.fields[i].ty == fields[i].ty by {
                            if i < prefix.len() {
                                assert(plan.fields[i] == before.fields[i]);
                            }
                        }
                        assert(plan.fields.len() == fields.len());
                        assert forall|j: int, k: int|
                            0 <= j < k < plan.entries.len() implies (#[trigger] plan.entries[j]).field
                                < (#[trigger] plan.entries[k]).field by {
                            if k < before.entries.len() {
                                assert(plan.entries[j] == before.entries[j]);
                                assert(plan.entries[k] == before.entries[k]);
                            } else {
                                assert(plan.entries[j] == before.entries[j]);
                                assert(plan.entries[k].field == last);
                            }
                        }
                        match plan.source {
                            Some(source) => {
                                if facts.cause is None {
                                    assert(plan.source == before.source);
                                    assert(prefix[source.index as int] == fields[source.index as int]);
                                } else {
                                    assert(source.index == last);
                                }
                            },
                            None => {},
                        }
                        assert(fields_plan_faithful(fields, plan));
                    },
                    Err(_) => {},
                }
            },
            Err(_) => {},
        }
    }
}

/// The variants of a definition, each read on its own; `Ok` exactly when
/// every variant is accepted.
pub open spec fn all_variants_accepted(error: Seq<char>, variants: Seq<VariantView>) -> bool {
    forall|i: int| 0 <= i < variants.len() ==> (#[trigger] variant_spec(error, variants[i])) is Ok
}

/// An error definition declares one plan per variant, in the order of the
/// variants (and so one catalog entry per variant, in that order): the
/// plans are accepted exactly when every variant is, and each plan is that
/// of its variant.
pub proof fn lemma_variants_in_order(error: Seq<char>, variants: Seq<VariantView>)
    ensures
        variants_spec(error, variants) is Ok <==> all_variants_accepted(error, variants),
        variants_spec(error, variants) matches Ok(plans) ==> {
            &&& plans.len() == variants.len()
            &&& forall|i: int|
                0 <= i < variants.len() ==> variant_spec(error, variants[i]) == Ok::<
                    VariantPlanView,
                    DefinitionError,
                >(#[trigger] plans[i])
        },
    decreases variants.len(),
{
    if variants.len() > 0 {
        let prefix = variants.drop_last();
        lemma_variants_in_order(error, prefix);
        assert forall|i: int| 0 <= i < prefix.len() implies #[trigger] prefix[i] == variants[i] by {}
        if all_variants_accepted(error, variants) {
            assert(all_variants_accepted(error, prefix)) by {
                assert forall|i: int| 0 <= i < prefix.len() implies (#[trigger] variant_spec(error, prefix[i])) is Ok by {
                    assert(variant_spec(error, variants[i]) is Ok);
                }
            }
            assert(variant_spec(error, variants[variants.len() - 1]) is Ok);
        }
        if !all_variants_accepted(error, variants) {
            let i = choose|i: int| 0 <= i < variants.len() && !((#[trigger] variant_spec(error, variants[i])) is Ok);
            if i < prefix.len() {
                assert(variant_spec(error, prefix[i]) is Err);
                assert(!all_variants_accepted(error, prefix));
            }
        }
        match variants_spec(error, variants) {
            Ok(plans) => {
                let before = variants_spec(error, prefix)->Ok_0;
                assert forall|i: int| 0 <= i < variants.len() implies variant_spec(error, variants[i]) == Ok::<
                    VariantPlanView,
                    DefinitionError,
                >(#[trigger] plans[i]) by {
                    if i < prefix.len() {
                        assert(plans[i] == before[i]);
                    }
                }
            },
            Err(_) => {},
        }
    }
}

/// The code that a variant declares: the string of its `#[code]`, or
/// `Error.Variant`.
pub open spec fn declared_code(error: Seq<char>, variant: VariantView) -> Seq<char> {
    match given_text(variant.attributes, "code"@) {
        Some(code) => code,
        None => default_code_text(error, variant.name),
    }
}

/// The description that a variant declares: the string of its
/// `#[description]`, or the variant's name.
pub open spec fn declared_description(variant: VariantView) -> Seq<char> {
    match given_text(variant.attributes, "description"@) {
        Some(description) => description,
        None => variant.name,
    }
}

/// An accepted error definition describes one catalog entry per variant,
/// in the order of the variants: each with the variant's name, its
/// declared code (or `Error.Variant`) and its declared description (or the
/// variant's name). Its kind enum is named `ErrorKind`.
pub proof fn lemma_catalog_follows_variants(error: ErrorView, serialize: bool)
    ensures
        error_spec(error, serialize) matches Ok(plan) ==> {
            &&& plan.kind_name == error.name + "Kind"@
            &&& plan.variants.len() == error.variants.len()
            &&& forall|i: int|
                0 <= i < error.variants.len() ==> {
                    &&& (#[trigger] plan.variants[i]).name == error.variants[i].name
                    &&& plan.variants[i].code == declared_code(error.name, error.variants[i])
                    &&& plan.variants[i].description == declared_description(error.variants[i])
                }
        },
{
    lemma_variants_in_order(error.name, error.variants);
    if error_spec(error, serialize) is Ok {
        let plan = error_spec(error, serialize)->Ok_0;
        assert forall|i: int| 0 <= i < error.variants.len() implies {
            &&& (#[trigger] plan.variants[i]).name == error.variants[i].name
            &&& plan.variants[i].code == declared_code(error.name, error.variants[i])
            &&& plan.variants[i].description == declared_description(error.variants[i])
        } by {
            let variant = error.variants[i];
            assert(variant_spec(error.name, variant) == Ok::<VariantPlanView, DefinitionError>(
                plan.variants[i],
            ));
            lemma_take_reads_given_text(variant.attributes, Reader::Code, None);
            let after_code = take_spec(variant.attributes, Reader::Code, None)->Ok_0.1;
            lemma_take_keeps_other_attributes(variant.attributes, Reader::Code, None);
            lemma_take_reads_given_text(after_code, Reader::Description, None);
            reveal_strlit("code");
            reveal_strlit("description");
            assert("code"@.len() != "description"@.len());
            lemma_given_text_skips_others(variant.attributes, "code"@, "description"@);
        }
    }
}

/// A field carries an attribute named `name`.
pub open spec fn field_marked(field: FieldView, name: Seq<char>) -> bool {
    has_named(field.attributes, name)
}

/// What a field's accepted attributes declare is what it is marked with.
proof fn lemma_field_facts_follow_marks(attributes: Seq<AttributeView>)
    ensures
        field_facts(attributes) matches Ok(facts) ==> {
            &&& (facts.cause is Some <==> has_named(attributes, "caused_by"@))
            &&& (facts.from <==> has_named(attributes, "from"@))
            &&& (facts.hidden <==> has_named(attributes, "hide"@))
        },
{
    reveal_strlit("caused_by");
    reveal_strlit("from");
    reveal_strlit("hide");
    assert("caused_by"@ != "from"@ && "caused_by"@ != "hide"@ && "from"@ != "hide"@) by {
        assert("caused_by"@.len() != "from"@.len());
        assert("caused_by"@.len() != "hide"@.len());
        assert("from"@[0] != "hide"@[0]);
    }
    if field_facts(attributes) is Ok {
        let cause_read = take_spec(attributes, Reader::Cause, None);
        let after_cause = cause_read->Ok_0.1;
        lemma_take_keeps_other_attributes(attributes, Reader::Cause, None);
        lemma_take_fits(attributes, Reader::Cause, None);
        let from_read = take_spec(after_cause, Reader::Marker("from"), None);
        let after_from = from_read->Ok_0.1;
        lemma_take_keeps_other_attributes(after_cause, Reader::Marker("from"), None);
        lemma_take_keeps_other_attributes(after_from, Reader::Marker("hide"), None);
        lemma_others_keep_names(attributes, "caused_by"@, "from"@);
        lemma_others_keep_names(attributes, "caused_by"@, "hide"@);
        lemma_others_keep_names(after_cause, "from"@, "hide"@);
    }
}

/// Every field of an accepted list is accepted on its own; at most one of
/// them is a cause, and a field marked `#[from]` is recorded.
proof fn lemma_accepted_fields(fields: Seq<FieldView>)
    ensures
        fields_spec(fields) matches Ok(plan) ==> {
            &&& forall|i: int|
                0 <= i < fields.len() ==> (#[trigger] field_facts(fields[i].attributes)) is Ok
            &&& forall|i: int, j: int|
                0 <= i < j < fields.len() ==> !((#[trigger] field_facts(fields[i].attributes))->Ok_0.cause is Some
                    && (#[trigger] field_facts(fields[j].attributes))->Ok_0.cause is Some)
            &&& (exists|i: int| 0 <= i < fields.len() && (#[trigger] field_facts(fields[i].attributes))->Ok_0.cause is Some) ==> plan.source is Some
            &&& (exists|i: int| 0 <= i < fields.len() && (#[trigger] field_facts(fields[i].attributes))->Ok_0.from) ==> plan.from_field is Some
        },
    decreases fields.len(),
{
    if fields.len() > 0 {
        let prefix = fields.drop_last();
        lemma_accepted_fields(prefix);
        assert forall|i: int| 0 <= i < prefix.len() implies #[trigger] prefix[i] == fields[i] by {}
        if fields_spec(fields) is Ok {
            let before = fields_spec(prefix)->Ok_0;
            let last = fields.len() - 1;
            assert(fields[last] == fields.last());
            assert(field_facts(fields[last].attributes) is Ok);
            assert forall|i: int| 0 <= i < fields.len() implies (#[trigger] field_facts(fields[i].attributes)) is Ok by {
                if i < last {
                    assert(field_facts(prefix[i].attributes) is Ok);
                }
            }
            if exists|i: int| 0 <= i < fields.len() && (#[trigger] field_facts(fields[i].attributes))->Ok_0.cause is Some {
                let i = choose|i: int| 0 <= i < fields.len() && (#[trigger] field_facts(fields[i].attributes))->Ok_0.cause is Some;
                if i < last {
                    assert(field_facts(prefix[i].attributes)->Ok_0.cause is Some);
                }
            }
            if exists|i: int| 0 <= i < fields.len() && (#[trigger] field_facts(fields[i].attributes))->Ok_0.from {
                let i = choose|i: int| 0 <= i < fields.len() && (#[trigger] field_facts(fields[i].attributes))->Ok_0.from;
                if i < last {
                    assert(field_facts(prefix[i].attributes)->Ok_0.from);
                }
            }
            assert forall|i: int, j: int|
                0 <= i < j < fields.len() implies !((#[trigger] field_facts(fields[i].attributes))->Ok_0.cause is Some
                    && (#[trigger] field_facts(fields[j].attributes))->Ok_0.cause is Some) by {
                if j < last {
                    assert(field_facts(prefix[i].attributes) == field_facts(fields[i].attributes));
                    assert(field_facts(prefix[j].attributes) == field_facts(fields[j].attributes));
                } else if field_facts(fields[i].attributes)->Ok_0.cause is Some {
                    assert(field_facts(prefix[i].attributes)->Ok_0.cause is Some);
                }
            }
        }
    }
}

/// The rules of a definition: a variant is refused when two of its fields
/// are causes, when a cause is `#[hide]`, when a `#[from]` field is not a
/// cause, and when a `#[from]` field has other fields beside it.
pub proof fn lemma_refused_variants(error: Seq<char>, variant: VariantView)
    ensures
        (exists|i: int, j: int|
            0 <= i < j < variant.fields.len() && field_marked(#[trigger] variant.fields[i], "caused_by"@)
                && field_marked(#[trigger] variant.fields[j], "caused_by"@)) ==> variant_spec(
            error,
            variant,
        ) is Err,
        (exists|i: int|
            0 <= i < variant.fields.len() && field_marked(#[trigger] variant.fields[i], "caused_by"@)
                && field_marked(variant.fields[i], "hide"@)) ==> variant_spec(error, variant) is Err,
        (exists|i: int|
            0 <= i < variant.fields.len() && field_marked(#[trigger] variant.fields[i], "from"@)
                && !field_marked(variant.fields[i], "caused_by"@)) ==> variant_spec(error, variant) is Err,
        (exists|i: int| 0 <= i < variant.fields.len() && field_marked(#[trigger] variant.fields[i], "from"@))
            && variant.fields.len() != 1 ==> variant_spec(error, variant) is Err,
{
    let fields = variant.fields;
    lemma_accepted_fields(fields);
    if variant_spec(error, variant) is Ok {
        assert(fields_spec(fields) is Ok);
        assert forall|i: int| 0 <= i < fields.len() implies {
            &&& (#[trigger] field_facts(fields[i].attributes)) is Ok
            &&& (field_facts(fields[i].attributes)->Ok_0.cause is Some <==> field_marked(fields[i], "caused_by"@))
            &&& (field_facts(fields[i].attributes)->Ok_0.from <==> field_marked(fields[i], "from"@))
            &&& (field_facts(fields[i].attributes)->Ok_0.hidden <==> field_marked(fields[i], "hide"@))
            &&& !(field_marked(fields[i], "caused_by"@) && field_marked(fields[i], "hide"@))
            &&& (field_marked(fields[i], "from"@) ==> field_marked(fields[i], "caused_by"@))
        } by {
            lemma_field_facts_follow_marks(fields[i].attributes);
        }
        if exists|i: int| 0 <= i < fields.len() && field_marked(#[trigger] fields[i], "from"@) {
            let i = choose|i: int| 0 <= i < fields.len() && field_marked(#[trigger] fields[i], "from"@);
            assert(field_facts(fields[i].attributes)->Ok_0.from);
        }
        if exists|i: int|
            0 <= i < fields.len() && field_marked(#[trigger] fields[i], "caused_by"@)
                && field_marked(fields[i], "hide"@) {
            let i = choose|i: int|
                0 <= i < fields.len() && field_marked(#[trigger] fields[i], "caused_by"@)
                    && field_marked(fields[i], "hide"@);
            assert(field_facts(fields[i].attributes) is Ok);
        }
        if exists|i: int, j: int|
            0 <= i < j < fields.len() && field_marked(#[trigger] fields[i], "caused_by"@)
                && field_marked(#[trigger] fields[j], "caused_by"@) {
            let (i, j) = choose|i: int, j: int|
                0 <= i < j < fields.len() && field_marked(#[trigger] fields[i], "caused_by"@)
                    && field_marked(#[trigger] fields[j], "caused_by"@);
            assert(field_facts(fields[i].attributes)->Ok_0.cause is Some);
            assert(field_facts(fields[j].attributes)->Ok_0.cause is Some);
        }
    }
}

/// Field `i` of `fields` is read as a cause.
pub open spec fn is_cause_field(fields: Seq<FieldView>, i: int) -> bool {
    field_facts(fields[i].attributes)->Ok_0.cause is Some
}

/// Two distinct fields of `fields` are read as causes.
pub open spec fn two_causes(fields: Seq<FieldView>) -> bool {
    exists|i: int, j: int|
        0 <= i < j < fields.len() && #[trigger] is_cause_field(fields, i) && #[trigger] is_cause_field(
            fields,
            j,
        )
}

/// Where every field is accepted on its own, the fields are refused exactly
/// when two of them are causes, and then as `MultipleCauses`.
proof fn lemma_fields_refused_for_causes(fields: Seq<FieldView>)
    requires
        forall|k: int| 0 <= k < fields.len() ==> (#[trigger] field_facts(fields[k].attributes)) is Ok,
    ensures
        fields_spec(fields) is Err <==> two_causes(fields),
        fields_spec(fields) is Err ==> fields_spec(fields) == Err::<FieldsPlanView, DefinitionError>(
            DefinitionError::MultipleCauses,
        ),
        fields_spec(fields) matches Ok(plan) ==> (plan.source is Some <==> exists|i: int|
            0 <= i < fields.len() && #[trigger] is_cause_field(fields, i)),
    decreases fields.len(),
{
    if fields.len() > 0 {
        let prefix = fields.drop_last();
        let last = fields.len() - 1;
        assert forall|k: int| 0 <= k < prefix.len() implies #[trigger] prefix[k] == fields[k] by {}
        assert forall|k: int| 0 <= k < prefix.len() implies (#[trigger] field_facts(prefix[k].attributes)) is Ok by {
            assert(field_facts(fields[k].attributes) is Ok);
        }
        lemma_fields_refused_for_causes(prefix);
        assert forall|k: int| 0 <= k < prefix.len() implies is_cause_field(prefix, k) == is_cause_field(fields, k) by {}
        assert(field_facts(fields[last].attributes) is Ok);
        assert(fields.last() == fields[last]);
        if two_causes(prefix) {
            let (i, j) = choose|i: int, j: int|
                0 <= i < j < prefix.len() && #[trigger] is_cause_field(prefix, i) && #[trigger] is_cause_field(prefix, j);
            assert(is_cause_field(fields, i) && is_cause_field(fields, j));
        }
        if two_causes(fields) && !two_causes(prefix) {
            let (i, j) = choose|i: int, j: int|
                0 <= i < j < fields.len() && #[trigger] is_cause_field(fields, i) && #[trigger] is_cause_field(fields, j);
            if j < last {
                assert(is_cause_field(prefix, i) && is_cause_field(prefix, j));
            }
            assert(is_cause_field(prefix, i));
        }
        if !two_causes(fields) && fields_spec(prefix) is Ok && is_cause_field(fields, last) {
            if exists|i: int| 0 <= i < prefix.len() && #[trigger] is_cause_field(prefix, i) {
                let i = choose|i: int| 0 <= i < prefix.len() && #[trigger] is_cause_field(prefix, i);
                assert(is_cause_field(fields, i));
                assert(two_causes(fields));
            }
        }
        if fields_spec(fields) is Ok {
            if exists|i: int| 0 <= i < fields.len() && #[trigger] is_cause_field(fields, i) {
                let i = choose|i: int| 0 <= i < fields.len() && #[trigger] is_cause_field(fields, i);
                if i < last {
                    assert(is_cause_field(prefix, i));
                }
            }
            if exists|i: int| 0 <= i < prefix.len() && #[trigger] is_cause_field(prefix, i) {
                let i = choose|i: int| 0 <= i < prefix.len() && #[trigger] is_cause_field(prefix, i);
                assert(is_cause_field(fields, i));
            }
        }
    }
}

/// Where a variant's code, description and every field are accepted on
/// their own, two cause fields refuse it as `MultipleCauses`; with at most
/// one cause, a `#[from]` field beside other fields refuses it as
/// `FromWithOtherFields`.
pub proof fn lemma_refusal_errors(error: Seq<char>, variant: VariantView)
    requires
        take_spec(variant.attributes, Reader::Code, None) matches Ok((_, rest)) && take_spec(
            rest,
            Reader::Description,
            None,
        ) is Ok,
        forall|k: int|
            0 <= k < variant.fields.len() ==> (#[trigger] field_facts(
                variant.fields[k].attributes,
            )) is Ok,
    ensures
        two_causes(variant.fields) ==> variant_spec(error, variant) == Err::<
            VariantPlanView,
            DefinitionError,
        >(DefinitionError::MultipleCauses),
        !two_causes(variant.fields) && (exists|i: int|
            0 <= i < variant.fields.len() && field_marked(#[trigger] variant.fields[i], "from"@))
            && variant.fields.len() != 1 ==> variant_spec(error, variant) == Err::<
            VariantPlanView,
            DefinitionError,
        >(DefinitionError::FromWithOtherFields),
{
    let fields = variant.fields;
    lemma_fields_refused_for_causes(fields);
    lemma_accepted_fields(fields);
    if exists|i: int| 0 <= i < fields.len() && field_marked(#[trigger] fields[i], "from"@) {
        let i = choose|i: int| 0 <= i < fields.len() && field_marked(#[trigger] fields[i], "from"@);
        lemma_field_facts_follow_marks(fields[i].attributes);
        assert(field_facts(fields[i].attributes) is Ok);
        assert(field_facts(fields[i].attributes)->Ok_0.from);
    }
}

/// Where a field's `#[caused_by]`, `#[from]` and `#[hide]` are each well
/// formed and given at most once, a hidden cause is refused as
/// `HiddenCause` and `#[from]` without a cause as `FromWithoutCause`.
pub proof fn lemma_field_refusal_errors(attributes: Seq<AttributeView>)
    requires
        take_spec(attributes, Reader::Cause, None) matches Ok((_, after_cause)) && take_spec(
            after_cause,
            Reader::Marker("from"),
            None,
        ) matches Ok((_, after_from)) && take_spec(after_from, Reader::Marker("hide"), None) is Ok,
    ensures
        has_named(attributes, "caused_by"@) && has_named(attributes, "hide"@) ==> field_facts(
            attributes,
        ) == Err::<FieldFacts, DefinitionError>(DefinitionError::HiddenCause),
        has_named(attributes, "from"@) && !has_named(attributes, "caused_by"@) ==> field_facts(
            attributes,
        ) == Err::<FieldFacts, DefinitionError>(DefinitionError::FromWithoutCause),
{
    reveal_strlit("caused_by");
    reveal_strlit("from");
    reveal_strlit("hide");
    assert("caused_by"@ != "from"@ && "caused_by"@ != "hide"@ && "from"@ != "hide"@) by {
        assert("caused_by"@.len() != "from"@.len());
        assert("caused_by"@.len() != "hide"@.len());
        assert("from"@[0] != "hide"@[0]);
    }
    let after_cause = take_spec(attributes, Reader::Cause, None)->Ok_0.1;
    let after_from = take_spec(after_cause, Reader::Marker("from"), None)->Ok_0.1;
    lemma_take_keeps_other_attributes(attributes, Reader::Cause, None);
    lemma_take_fits(attributes, Reader::Cause, None);
    lemma_take_keeps_other_attributes(after_cause, Reader::Marker("from"), None);
    lemma_take_keeps_other_attributes(after_from, Reader::Marker("hide"), None);
    lemma_others_keep_names(attributes, "caused_by"@, "from"@);
    lemma_others_keep_names(attributes, "caused_by"@, "hide"@);
    lemma_others_keep_names(after_cause, "from"@, "hide"@);
}

/// Every accepted variant whose fields are named gets a builder, whatever
/// its fields are (a cause field included): the type `<Error><Variant>Builder`
/// and the method `<variant>_builder`; other variants get none.
pub proof fn lemma_builder_for_every_named_variant(error: Seq<char>, variant: VariantView)
    ensures
        variant_spec(error, variant) matches Ok(plan) ==> {
            &&& (plan.builder is Some <==> variant.shape == FieldsShape::Named)
            &&& variant.shape == FieldsShape::Named ==> plan.builder == Some(
                (error + variant.name + "Builder"@, snake_case(variant.name) + "_builder"@),
            )
        },
{
}

/// Every accepted variant whose single field is a cause gets the hidden
/// constructor that `locate_err!` calls, `__inception_locate_err_<variant>`,
/// whether or not that field is `#[from]`; no other variant gets one.
pub proof fn lemma_locate_err_for_single_cause(error: Seq<char>, variant: VariantView)
    ensures
        variant_spec(error, variant) matches Ok(plan) ==> {
            &&& (plan.locate_err_method is Some <==> variant.fields.len() == 1 && field_marked(
                variant.fields[0],
                "caused_by"@,
            ))
            &&& plan.locate_err_method is Some ==> plan.locate_err_method == Some(
                "__inception_locate_err_"@ + snake_case(variant.name),
            )
        },
{
    if variant_spec(error, variant) is Ok {
        let fields = variant.fields;
        lemma_accepted_fields(fields);
        assert(fields_spec(fields) is Ok);
        lemma_fields_refused_for_causes(fields);
        if fields.len() == 1 {
            assert(field_facts(fields[0].attributes) is Ok);
            lemma_field_facts_follow_marks(fields[0].attributes);
            if field_marked(fields[0], "caused_by"@) {
                assert(is_cause_field(fields, 0));
            }
        }
    }
}

/// The error implements by its kind exactly the comparison and hashing
/// traits that some derive path names by its last segment.
pub proof fn lemma_semantic_impls_follow_derives(derives: Seq<Seq<Seq<char>>>)
    ensures
        semantic_impls_spec(derives).partial_eq <==> exists|i: int|
            0 <= i < derives.len() && derives[i].len() > 0 && #[trigger] derives[i].last()
                == "PartialEq"@,
        semantic_impls_spec(derives).eq <==> exists|i: int|
            0 <= i < derives.len() && derives[i].len() > 0 && #[trigger] derives[i].last() == "Eq"@,
        semantic_impls_spec(derives).partial_ord <==> exists|i: int|
            0 <= i < derives.len() && derives[i].len() > 0 && #[trigger] derives[i].last()
                == "PartialOrd"@,
        semantic_impls_spec(derives).ord <==> exists|i: int|
            0 <= i < derives.len() && derives[i].len() > 0 && #[trigger] derives[i].last() == "Ord"@,
        semantic_impls_spec(derives).hash <==> exists|i: int|
            0 <= i < derives.len() && derives[i].len() > 0 && #[trigger] derives[i].last() == "Hash"@,
{
}

/// An accepted variant keeps its name and the way its fields are written,
/// gets the constructor named by its name in snake case, is `#[from]` exactly
/// when one of its fields is marked so, and has a source exactly when one
/// of its fields is a cause.
pub proof fn lemma_variant_plan_follows_variant(error: Seq<char>, variant: VariantView)
    ensures
        variant_spec(error, variant) matches Ok(plan) ==> {
            &&& plan.name == variant.name
            &&& plan.shape == variant.shape
            &&& plan.constructor == snake_case(variant.name)
            &&& plan.fields.len() == variant.fields.len()
            &&& (plan.from_field is Some <==> exists|i: int|
                0 <= i < variant.fields.len() && field_marked(#[trigger] variant.fields[i], "from"@))
            &&& (plan.source is Some <==> exists|i: int|
                0 <= i < variant.fields.len() && field_marked(#[trigger] variant.fields[i], "caused_by"@))
        },
{
    if variant_spec(error, variant) is Ok {
        let fields = variant.fields;
        let plan = fields_spec(fields)->Ok_0;
        lemma_accepted_fields(fields);
        lemma_fields_refused_for_causes(fields);
        lemma_plan_keeps_field_count(fields);
        assert forall|i: int| 0 <= i < fields.len() implies {
            &&& (#[trigger] field_facts(fields[i].attributes)) is Ok
            &&& (field_facts(fields[i].attributes)->Ok_0.cause is Some <==> field_marked(fields[i], "caused_by"@))
            &&& (field_facts(fields[i].attributes)->Ok_0.from <==> field_marked(fields[i], "from"@))
        } by {
            lemma_field_facts_follow_marks(fields[i].attributes);
        }
        if exists|i: int| 0 <= i < fields.len() && field_marked(#[trigger] fields[i], "caused_by"@) {
            let i = choose|i: int| 0 <= i < fields.len() && field_marked(#[trigger] fields[i], "caused_by"@);
            assert(is_cause_field(fields, i));
        }
        if plan.source is Some {
            let i = choose|i: int| 0 <= i < fields.len() && #[trigger] is_cause_field(fields, i);
            assert(field_marked(fields[i], "caused_by"@));
        }
        if exists|i: int| 0 <= i < fields.len() && field_marked(#[trigger] fields[i], "from"@) {
            let i = choose|i: int| 0 <= i < fields.len() && field_marked(#[trigger] fields[i], "from"@);
            assert(field_facts(fields[i].attributes)->Ok_0.from);
        }
        if plan.from_field is Some {
            lemma_from_field_is_marked(fields);
            let i = choose|i: int|
                0 <= i < fields.len() && (#[trigger] field_facts(fields[i].attributes)) is Ok
                    && field_facts(fields[i].attributes)->Ok_0.from;
            assert(field_marked(fields[i], "from"@));
        }
    }
}

/// An accepted list of fields plans one stripped field per field.
proof fn lemma_plan_keeps_field_count(fields: Seq<FieldView>)
    ensures
        fields_spec(fields) matches Ok(plan) ==> plan.fields.len() == fields.len(),
    decreases fields.len(),
{
    if fields.len() > 0 {
        lemma_plan_keeps_field_count(fields.drop_last());
    }
}

/// An accepted list records a `#[from]` field only where one of its fields
/// is read as `#[from]`.
proof fn lemma_from_field_is_marked(fields: Seq<FieldView>)
    ensures
        fields_spec(fields) matches Ok(plan) ==> (plan.from_field is Some ==> exists|i: int|
            0 <= i < fields.len() && (#[trigger] field_facts(fields[i].attributes)) is Ok
                && field_facts(fields[i].attributes)->Ok_0.from),
    decreases fields.len(),
{
    if fields.len() > 0 {
        let prefix = fields.drop_last();
        lemma_from_field_is_marked(prefix);
        if fields_spec(fields) is Ok {
            let before = fields_spec(prefix)->Ok_0;
            let last = fields.len() - 1;
            assert(fields[last] == fields.last());
            if before.from_field is Some {
                let i = choose|i: int|
                    0 <= i < prefix.len() && (#[trigger] field_facts(prefix[i].attributes)) is Ok
                        && field_facts(prefix[i].attributes)->Ok_0.from;
                assert(prefix[i] == fields[i]);
                assert(field_facts(fields[i].attributes) is Ok);
            } else if fields_spec(fields)->Ok_0.from_field is Some {
                assert(field_facts(fields[last].attributes) is Ok);
            }
        }
    }
}

/// The derives that the error wrapper shares are exactly the derive paths
/// naming `Clone` or `Copy`, in order.
pub proof fn lemma_wrapper_derives_are_clone_and_copy(derives: Seq<Seq<Seq<char>>>)
    ensures
        wrapper_derives_spec(derives) == derives.filter(
            |path: Seq<Seq<char>>| path.len() > 0 && (path.last() == "Clone"@ || path.last() == "Copy"@),
        ),
    decreases derives.len(),
{
    reveal(Seq::filter);
    if derives.len() > 0 {
        lemma_wrapper_derives_are_clone_and_copy(derives.drop_last());
    }
}

/// Each entry of an accepted variant is keyed by its field's name, or by
/// the field's position (as a decimal numeral) in a tuple variant; it is
/// withheld exactly when its field is marked `#[hide]`; and its field is no
/// cause. The source of a boxed cause is reached through the box.
pub proof fn lemma_entries_follow_fields(fields: Seq<FieldView>)
    requires
        fields.len() <= usize::MAX,
    ensures
        fields_spec(fields) matches Ok(plan) ==> {
            &&& forall|k: int|
                0 <= k < plan.entries.len() ==> {
                    let entry = #[trigger] plan.entries[k];
                    let field = fields[entry.field as int];
                    &&& entry.field < fields.len()
                    &&& entry.key == match field.name {
                        Some(name) => name,
                        None => decimal(entry.field),
                    }
                    &&& (entry.hidden <==> field_marked(field, "hide"@))
                    &&& !field_marked(field, "caused_by"@)
                }
            &&& plan.source matches Some(source) ==> {
                &&& source.index < fields.len()
                &&& field_marked(fields[source.index as int], "caused_by"@)
                &&& (source.boxed <==> match fields[source.index as int].ty {
                    TypeView::Path { qualified, segments } => !qualified && segments.len() > 0
                        && segments.last() == "Box"@,
                    TypeView::Other => false,
                })
            }
        },
{
    lemma_fields_plan_faithful(fields);
    if fields_spec(fields) is Ok {
        let plan = fields_spec(fields)->Ok_0;
        assert forall|k: int| 0 <= k < plan.entries.len() implies {
            let entry = #[trigger] plan.entries[k];
            let field = fields[entry.field as int];
            &&& (entry.hidden <==> field_marked(field, "hide"@))
            &&& !field_marked(field, "caused_by"@)
        } by {
            let entry = plan.entries[k];
            lemma_field_facts_follow_marks(fields[entry.field as int].attributes);
        }
        match plan.source {
            Some(source) => {
                lemma_field_facts_follow_marks(fields[source.index as int].attributes);
            },
            None => {},
        }
    }
}

} // verus!
