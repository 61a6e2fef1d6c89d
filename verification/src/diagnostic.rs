//! Reasons for which an error definition or a call-site macro is rejected.
use vstd::prelude::*;

verus! {

/// Why an error definition, or a call-site expression, cannot be expanded.
#[derive(Debug, Clone, Copy, PartialEq, Eq)]
pub enum DefinitionError {
    /// The definition attribute was given an option other than `serde`.
    OnlySerdeOption,
    /// The definition attribute's options are not one identifier.
    MalformedOptions,
    /// An attribute's arguments do not have the form that it needs.
    MalformedArguments,
    /// A second `#[code(...)]` on one variant.
    DuplicateCode,
    /// A `#[code("")]`.
    EmptyCode,
    /// A second `#[description(...)]` on one variant.
    DuplicateDescription,
    /// A second marker attribute of the given name on one field.
    DuplicateMarker(&'static str),
    /// A marker attribute of the given name with arguments.
    MarkerArguments(&'static str),
    /// A second `#[caused_by(...)]` on one field.
    DuplicateCause,
    /// `#[caused_by(x)]` with `x` other than `inception`.
    CauseKindNotInception,
    /// `#[caused_by = ...]`.
    CauseNameValue,
    /// A cause field marked `#[hide]`.
    HiddenCause,
    /// `#[from]` on a field that is not a cause.
    FromWithoutCause,
    /// A second cause field in one variant.
    MultipleCauses,
    /// A `#[from]` variant with fields besides its cause.
    FromWithOtherFields,
    /// `locate_err!` was not given a path.
    LocateErrExpectsPath,
    /// `locate_err!` was given a path of one segment.
    LocateErrExpectsQualifiedPath,
    /// `locate!` was given an unqualified variant path.
    LocateRequiresQualifiedPath,
    /// A variant path of fewer than two segments was to be rewritten.
    ExpectedErrorVariant,
    /// `locate!` was given a call whose callee is not a path.
    LocateExpectsConstructor,
    /// `locate!` was given an expression that is no variant constructor.
    LocateExpectsVariant,
    /// A call-site macro was given tokens that are not one expression.
    MalformedExpression,
    /// The error-definition attribute was put on something other than an
    /// enum.
    MalformedDefinition,
}

/// The text of a diagnostic.
pub open spec fn diagnostic_text(error: DefinitionError) -> Seq<char> {
    match error {
        DefinitionError::OnlySerdeOption => "#[inception::error] accepts only the `serde` option"@,
        DefinitionError::MalformedOptions => "expected identifier"@,
        DefinitionError::MalformedArguments => "malformed attribute arguments"@,
        DefinitionError::DuplicateCode => "duplicate #[code(...)]"@,
        DefinitionError::EmptyCode => "error code cannot be empty"@,
        DefinitionError::DuplicateDescription => "duplicate #[description(...)]"@,
        DefinitionError::DuplicateMarker(name) => "duplicate #["@ + name@ + seq![']'],
        DefinitionError::MarkerArguments(name) => "#["@ + name@ + "] does not take arguments"@,
        DefinitionError::DuplicateCause => "duplicate #[caused_by(...)]"@,
        DefinitionError::CauseKindNotInception => "cause kind must be `inception`"@,
        DefinitionError::CauseNameValue => "use #[caused_by] or #[caused_by(inception)]"@,
        DefinitionError::HiddenCause => "cause fields cannot be #[hide]"@,
        DefinitionError::FromWithoutCause => "#[from] requires #[caused_by] or #[caused_by(inception)]"@,
        DefinitionError::MultipleCauses => "an inception variant may have only one error"@,
        DefinitionError::FromWithOtherFields => "a #[from] variant must contain only its cause field"@,
        DefinitionError::LocateErrExpectsPath => "locate_err! expects a qualified `Error::Variant` path"@,
        DefinitionError::LocateErrExpectsQualifiedPath => "locate_err! expects a qualified Error::Variant path"@,
        DefinitionError::LocateRequiresQualifiedPath => "locate! requires a qualified `Error::Variant` path"@,
        DefinitionError::ExpectedErrorVariant => "expected `Error::Variant`"@,
        DefinitionError::LocateExpectsConstructor => "locate! expects an enum variant constructor"@,
        DefinitionError::LocateExpectsVariant => "locate! expects `Error::Variant`, `Error::Variant(...)`, or `Error::Variant { ... }`"@,
        DefinitionError::MalformedExpression => "expected an expression"@,
        DefinitionError::MalformedDefinition => "expected an enum"@,
    }
}

impl DefinitionError {
    /// The diagnostic that the compiler shows for this error.
    #[must_use]
    pub fn message(&self) -> (text: String)
        ensures
            text@ == diagnostic_text(*self),
    {
        match self {
            DefinitionError::OnlySerdeOption => String::from_str("#[inception::error] accepts only the `serde` option"),
            DefinitionError::MalformedOptions => String::from_str("expected identifier"),
            DefinitionError::MalformedArguments => String::from_str("malformed attribute arguments"),
            DefinitionError::DuplicateCode => String::from_str("duplicate #[code(...)]"),
            DefinitionError::EmptyCode => String::from_str("error code cannot be empty"),
            DefinitionError::DuplicateDescription => String::from_str("duplicate #[description(...)]"),
            DefinitionError::DuplicateMarker(name) => {
                let mut text = String::from_str("duplicate #[");
                text.append(name);
                text.append("]");
                assert(text@ =~= diagnostic_text(*self)) by {
                    reveal_strlit("]");
                }
                text
            },
            DefinitionError::MarkerArguments(name) => {
                let mut text = String::from_str("#[");
                text.append(name);
                text.append("] does not take arguments");
                assert(text@ =~= diagnostic_text(*self));
                text
            },
            DefinitionError::DuplicateCause => String::from_str("duplicate #[caused_by(...)]"),
            DefinitionError::CauseKindNotInception => String::from_str("cause kind must be `inception`"),
            DefinitionError::CauseNameValue => String::from_str("use #[caused_by] or #[caused_by(inception)]"),
            DefinitionError::HiddenCause => String::from_str("cause fields cannot be #[hide]"),
            DefinitionError::FromWithoutCause => String::from_str("#[from] requires #[caused_by] or #[caused_by(inception)]"),
            DefinitionError::MultipleCauses => String::from_str("an inception variant may have only one error"),
            DefinitionError::FromWithOtherFields => String::from_str("a #[from] variant must contain only its cause field"),
            DefinitionError::LocateErrExpectsPath => String::from_str("locate_err! expects a qualified `Error::Variant` path"),
            DefinitionError::LocateErrExpectsQualifiedPath => String::from_str("locate_err! expects a qualified Error::Variant path"),
            DefinitionError::LocateRequiresQualifiedPath => String::from_str("locate! requires a qualified `Error::Variant` path"),
            DefinitionError::ExpectedErrorVariant => String::from_str("expected `Error::Variant`"),
            DefinitionError::LocateExpectsConstructor => String::from_str("locate! expects an enum variant constructor"),
            DefinitionError::LocateExpectsVariant => String::from_str("locate! expects `Error::Variant`, `Error::Variant(...)`, or `Error::Variant { ... }`"),
            DefinitionError::MalformedExpression => String::from_str("expected an expression"),
            DefinitionError::MalformedDefinition => String::from_str("expected an enum"),
        }
    }
}

} // verus!
