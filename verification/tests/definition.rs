use inception::attributes::{
    derive_is, take_cause_marker, take_code, take_derives, take_description, take_marker,
    AttributeModel, AttributeArgs, ListTokens,
};
use inception::diagnostic::DefinitionError;
use inception::naming::{
    builder_method_name, builder_type_name, constructor_name, default_code, kind_name,
    locate_err_method_name, to_snake_case,
};
use inception::definition::plan_definition;
use inception::options::{options_from, parse_error_options};
use inception::paths::{
    construct_call, error_path, expand_constructor, locate_err_call, locate_err_path, rewrite_as_kind, rewrite_variant_path,
    Construction, ExprShape,
};
use inception::plan::{
    plan_error, plan_fields, plan_variant, type_is_box, ErrorModel, FieldModel, FieldsShape,
    TypeShape, VariantModel,
};

fn strings(parts: &[&str]) -> Vec<String> {
    parts.iter().map(|part| (*part).to_owned()).collect()
}

fn literal(name: &str, value: &str) -> AttributeModel {
    AttributeModel {
        name: name.to_owned(),
        args: AttributeArgs::List(ListTokens::read(format!("{value:?}"))),
    }
}

fn ident(name: &str, value: &str) -> AttributeModel {
    AttributeModel {
        name: name.to_owned(),
        args: AttributeArgs::List(ListTokens::read(value.to_owned())),
    }
}

fn word(name: &str) -> AttributeModel {
    AttributeModel { name: name.to_owned(), args: AttributeArgs::Word }
}

fn name_value(name: &str) -> AttributeModel {
    AttributeModel { name: name.to_owned(), args: AttributeArgs::NameValue }
}

fn derive(paths: &[&[&str]]) -> AttributeModel {
    AttributeModel {
        name: "derive".to_owned(),
        args: AttributeArgs::List(ListTokens::read(
            paths.iter().map(|path| path.join("::")).collect::<Vec<_>>().join(", "),
        )),
    }
}

fn names(attributes: &[AttributeModel]) -> Vec<String> {
    attributes.iter().map(|attribute| attribute.name.clone()).collect()
}

fn field(name: Option<&str>, attributes: Vec<AttributeModel>, ty: &[&str]) -> FieldModel {
    FieldModel {
        name: name.map(str::to_owned),
        attributes,
        ty: TypeShape::Path { qualified: false, segments: strings(ty) },
    }
}

#[test]
fn code_is_read_and_removed() {
    let mut attributes = vec![word("doc"), literal("code", "a.b"), word("allow")];
    assert_eq!(take_code(&mut attributes), Ok(Some("a.b".to_owned())));
    assert_eq!(names(&attributes), strings(&["doc", "allow"]));

    let mut none = vec![word("doc")];
    assert_eq!(take_code(&mut none), Ok(None));
    assert_eq!(names(&none), strings(&["doc"]));
}

#[test]
fn code_errors_are_reported() {
    let mut duplicate = vec![literal("code", "a"), literal("code", "b")];
    assert_eq!(take_code(&mut duplicate), Err(DefinitionError::DuplicateCode));
    assert!(duplicate.is_empty());

    let mut empty = vec![literal("code", "")];
    assert_eq!(take_code(&mut empty), Err(DefinitionError::EmptyCode));

    let mut bare = vec![word("code")];
    assert_eq!(take_code(&mut bare), Err(DefinitionError::MalformedArguments));

    let mut assigned = vec![name_value("code")];
    assert_eq!(take_code(&mut assigned), Err(DefinitionError::MalformedArguments));
}

#[test]
fn description_is_read_and_may_be_empty() {
    let mut attributes = vec![literal("description", ""), word("other")];
    assert_eq!(take_description(&mut attributes), Ok(Some(String::new())));
    assert_eq!(names(&attributes), strings(&["other"]));

    let mut duplicate = vec![literal("description", "x"), literal("description", "y")];
    assert_eq!(
        take_description(&mut duplicate),
        Err(DefinitionError::DuplicateDescription)
    );
}

#[test]
fn markers_take_no_arguments_and_occur_once() {
    let mut attributes = vec![word("from"), word("hide")];
    assert_eq!(take_marker(&mut attributes, "from"), Ok(true));
    assert_eq!(names(&attributes), strings(&["hide"]));
    assert_eq!(take_marker(&mut attributes, "from"), Ok(false));

    let mut twice = vec![word("hide"), word("hide")];
    assert_eq!(take_marker(&mut twice, "hide"), Err(DefinitionError::DuplicateMarker("hide")));

    let mut with_arguments = vec![ident("hide", "x")];
    assert_eq!(
        take_marker(&mut with_arguments, "hide"),
        Err(DefinitionError::MarkerArguments("hide"))
    );
}

#[test]
fn cause_markers_distinguish_nested_and_external_causes() {
    assert_eq!(take_cause_marker(&mut vec![word("caused_by")]), Ok(Some(false)));
    assert_eq!(
        take_cause_marker(&mut vec![ident("caused_by", "inception")]),
        Ok(Some(true))
    );
    assert_eq!(take_cause_marker(&mut vec![word("other")]), Ok(None));
    assert_eq!(
        take_cause_marker(&mut vec![ident("caused_by", "other")]),
        Err(DefinitionError::CauseKindNotInception)
    );
    assert_eq!(
        take_cause_marker(&mut vec![literal("caused_by", "inception")]),
        Err(DefinitionError::MalformedArguments)
    );
    assert_eq!(
        take_cause_marker(&mut vec![name_value("caused_by")]),
        Err(DefinitionError::CauseNameValue)
    );
    assert_eq!(
        take_cause_marker(&mut vec![word("caused_by"), word("caused_by")]),
        Err(DefinitionError::DuplicateCause)
    );
}

#[test]
fn derives_drop_debug_and_keep_order() {
    let mut attributes = vec![
        derive(&[&["Clone"], &["core", "fmt", "Debug"], &["PartialEq"]]),
        word("allow"),
        derive(&[&["Hash"]]),
    ];
    let derives = take_derives(&mut attributes).unwrap();
    assert_eq!(
        derives,
        vec![strings(&["Clone"]), strings(&["PartialEq"]), strings(&["Hash"])]
    );
    assert_eq!(names(&attributes), strings(&["allow"]));

    let mut malformed = vec![word("derive")];
    assert_eq!(take_derives(&mut malformed), Err(DefinitionError::MalformedArguments));
    assert!(malformed.is_empty());

    assert!(derive_is(&strings(&["std", "clone", "Clone"]), "Clone"));
    assert!(!derive_is(&strings(&[]), "Clone"));
}

#[test]
fn snake_case_names() {
    assert_eq!(to_snake_case("ProviderUnavailable"), "provider_unavailable");
    assert_eq!(to_snake_case("Timeout"), "timeout");
    assert_eq!(to_snake_case("HTTPError"), "h_t_t_p_error");
    assert_eq!(to_snake_case("already_snake"), "already_snake");
    assert_eq!(to_snake_case("Ärger"), "Ärger");
    assert_eq!(to_snake_case(""), "");
}

#[test]
fn snake_case_adds_one_underscore_per_inner_capital() {
    let snake = to_snake_case("HTTPError");
    assert_eq!(snake.chars().count(), "HTTPError".chars().count() + 4);
    assert_eq!(to_snake_case("_Private"), "__private");
    assert_eq!(to_snake_case("_private"), "_private");
    assert!(!to_snake_case("Private").starts_with('_'));
    assert_eq!(to_snake_case(&snake), snake);
    assert_eq!(to_snake_case(&to_snake_case("ProviderUnavailable")), "provider_unavailable");
}

#[test]
fn attribute_arguments_are_read_from_their_text() {
    let list = |name: &str, text: &str| AttributeModel {
        name: name.to_owned(),
        args: AttributeArgs::List(ListTokens::read(text.to_owned())),
    };
    assert_eq!(take_code(&mut vec![list("code", "\"a.b\"")]), Ok(Some("a.b".to_owned())));
    assert_eq!(take_code(&mut vec![list("code", "42")]), Err(DefinitionError::MalformedArguments));
    assert_eq!(take_code(&mut vec![list("code", "a . b")]), Err(DefinitionError::MalformedArguments));
    assert_eq!(
        take_description(&mut vec![list("description", "\"quoted \\\" text\"")]),
        Ok(Some("quoted \" text".to_owned()))
    );
    assert_eq!(take_cause_marker(&mut vec![list("caused_by", "inception")]), Ok(Some(true)));
    assert_eq!(
        take_cause_marker(&mut vec![list("caused_by", "fn")]),
        Err(DefinitionError::MalformedArguments)
    );
    let mut derives = vec![list("derive", ":: core :: clone :: Clone , std :: fmt :: Debug , Hash")];
    assert_eq!(
        take_derives(&mut derives),
        Ok(vec![strings(&["core", "clone", "Clone"]), strings(&["Hash"])])
    );
    assert_eq!(
        take_derives(&mut vec![list("derive", "\"Clone\"")]),
        Err(DefinitionError::MalformedArguments)
    );
}

#[test]
fn definitions_are_read_from_their_text() {
    let item = "enum ClassifiedError { #[code(\"classified.failed\")] #[description(\"The classified operation failed.\")] Failed { resource: String, #[hide] credential: Secret, #[caused_by] source: Box<dyn std::error::Error> } }";
    let derived = format!("#[derive(Clone, PartialEq, Eq)] {item}");
    let plan = plan_definition("", &derived).unwrap();
    assert_eq!(plan.kind_name, "ClassifiedErrorKind");
    assert_eq!(plan.derives, vec![strings(&["Clone"]), strings(&["PartialEq"]), strings(&["Eq"])]);
    assert!(plan.semantic.partial_eq && plan.semantic.eq && !plan.semantic.hash);
    assert!(!plan.serialize);
    assert_eq!(plan.variants.len(), 1);
    let variant = &plan.variants[0];
    assert_eq!(variant.code, "classified.failed");
    assert_eq!(variant.description, "The classified operation failed.");
    let entries = variant
        .entries
        .iter()
        .map(|entry| (entry.field, entry.key.clone(), entry.hidden))
        .collect::<Vec<_>>();
    assert_eq!(entries, vec![(0, "resource".to_owned(), false), (1, "credential".to_owned(), true)]);
    let source = variant.source.unwrap();
    assert_eq!((source.index, source.nested, source.boxed), (2, false, true));

    assert!(plan_definition("serde", item).unwrap().serialize);
    assert_eq!(plan_definition("json", item).err(), Some(DefinitionError::OnlySerdeOption));
    assert_eq!(plan_definition("serde json", item).err(), Some(DefinitionError::MalformedOptions));
    assert_eq!(plan_definition("", "struct Plain;").err(), Some(DefinitionError::MalformedDefinition));
    assert_eq!(plan_definition("", "").err(), Some(DefinitionError::MalformedDefinition));
    assert_eq!(
        plan_definition("", "enum Twice { A { #[caused_by] a: E, #[caused_by] b: E } }").err(),
        Some(DefinitionError::MultipleCauses)
    );
}

#[test]
fn call_sites_are_read_from_their_text() {
    assert_eq!(
        locate_err_call("ExternalError::Io"),
        Ok(strings(&["ExternalError", "__inception_locate_err_io"]))
    );
    assert_eq!(
        locate_err_call("ExternalError :: Io"),
        Ok(strings(&["ExternalError", "__inception_locate_err_io"]))
    );
    assert_eq!(locate_err_call("Io"), Err(DefinitionError::LocateErrExpectsQualifiedPath));
    assert_eq!(locate_err_call("io(x)"), Err(DefinitionError::LocateErrExpectsPath));
    assert_eq!(locate_err_call(""), Err(DefinitionError::MalformedExpression));

    match construct_call("OperationError::Dependency { error: nested }") {
        Ok(Construction::Variant { error_path, kind_expression }) => {
            assert_eq!(error_path, strings(&["OperationError"]));
            assert!(matches!(kind_expression, ExprShape::Struct(path) if path == strings(&["OperationErrorKind", "Dependency"])));
        }
        _ => panic!("a struct literal builds its variant"),
    }
    match construct_call("TransportError::Timeout") {
        Ok(Construction::Variant { error_path, .. }) => assert_eq!(error_path, strings(&["TransportError"])),
        _ => panic!("a variant path builds its variant"),
    }
    assert!(matches!(construct_call("std::io::Error::other(\"private\")"), Ok(Construction::External)));
    assert!(matches!(construct_call("\"text\""), Ok(Construction::External)));
    assert!(matches!(construct_call("1 +"), Err(DefinitionError::MalformedExpression)));
}

#[test]
fn generated_names() {
    assert_eq!(kind_name("SendError"), "SendErrorKind");
    assert_eq!(default_code("SendError", "Failed"), "SendError.Failed");
    assert_eq!(constructor_name("RequestFailed"), "request_failed");
    assert_eq!(
        locate_err_method_name("RequestFailed"),
        "__inception_locate_err_request_failed"
    );
    assert_eq!(builder_type_name("SendError", "Failed"), "SendErrorFailedBuilder");
    assert_eq!(builder_method_name("RequestFailed"), "request_failed_builder");
}

#[test]
fn boxes_are_recognised_by_their_last_segment() {
    assert!(type_is_box(&TypeShape::Path { qualified: false, segments: strings(&["std", "boxed", "Box"]) }));
    assert!(!type_is_box(&TypeShape::Path { qualified: true, segments: strings(&["Box"]) }));
    assert!(!type_is_box(&TypeShape::Path { qualified: false, segments: strings(&["Rc"]) }));
    assert!(!type_is_box(&TypeShape::Other));
}

#[test]
fn field_rules_are_enforced() {
    let hidden_cause = vec![field(Some("error"), vec![word("caused_by"), word("hide")], &["E"])];
    assert_eq!(plan_fields(hidden_cause).err(), Some(DefinitionError::HiddenCause));

    let from_context = vec![field(Some("value"), vec![word("from")], &["u32"])];
    assert_eq!(plan_fields(from_context).err(), Some(DefinitionError::FromWithoutCause));

    let two_causes = vec![
        field(Some("first"), vec![word("caused_by")], &["A"]),
        field(Some("second"), vec![ident("caused_by", "inception")], &["B"]),
    ];
    assert_eq!(plan_fields(two_causes).err(), Some(DefinitionError::MultipleCauses));

    let from_with_context = VariantModel {
        name: "Wrapped".to_owned(),
        attributes: vec![],
        shape: FieldsShape::Named,
        fields: vec![
            field(Some("error"), vec![word("caused_by"), word("from")], &["E"]),
            field(Some("extra"), vec![], &["u32"]),
        ],
    };
    assert_eq!(
        plan_variant("Outer", from_with_context).err(),
        Some(DefinitionError::FromWithOtherFields)
    );
}

#[test]
fn tuple_variants_key_entries_by_position() {
    let variant = VariantModel {
        name: "Failed".to_owned(),
        attributes: vec![literal("code", "tuple.failed")],
        shape: FieldsShape::Unnamed,
        fields: vec![
            field(None, vec![], &["String"]),
            field(None, vec![ident("caused_by", "inception")], &["Box"]),
            field(None, vec![word("hide"), word("doc")], &["Token"]),
        ],
    };
    let plan = plan_variant("TupleError", variant).unwrap();
    assert_eq!(plan.code, "tuple.failed");
    assert_eq!(plan.description, "Failed");
    assert_eq!(plan.constructor, "failed");
    assert!(plan.builder.is_none());
    assert!(plan.locate_err_method.is_none());
    let source = plan.source.unwrap();
    assert_eq!((source.index, source.nested, source.boxed), (1, true, true));
    let entries = plan
        .entries
        .iter()
        .map(|entry| (entry.field, entry.key.clone(), entry.hidden))
        .collect::<Vec<_>>();
    assert_eq!(entries, vec![(0, "0".to_owned(), false), (2, "2".to_owned(), true)]);
    assert_eq!(names(&plan.fields[2].attributes), strings(&["doc"]));
}

#[test]
fn single_cause_variants_get_a_locate_err_constructor() {
    let variant = VariantModel {
        name: "Io".to_owned(),
        attributes: vec![],
        shape: FieldsShape::Named,
        fields: vec![field(Some("source"), vec![word("caused_by"), word("from")], &["io", "Error"])],
    };
    let plan = plan_variant("ExternalError", variant).unwrap();
    assert_eq!(plan.code, "ExternalError.Io");
    assert_eq!(plan.locate_err_method.as_deref(), Some("__inception_locate_err_io"));
    assert_eq!(plan.from_field, Some(0));
    assert!(plan.entries.is_empty());
    let source = plan.source.unwrap();
    assert_eq!((source.index, source.nested, source.boxed), (0, false, false));
}

#[test]
fn the_first_refused_variant_refuses_the_definition() {
    let model = ErrorModel {
        name: "E".to_owned(),
        attributes: vec![word("allow")],
        variants: vec![
            VariantModel { name: "A".to_owned(), attributes: vec![], shape: FieldsShape::Unit, fields: vec![] },
            VariantModel {
                name: "B".to_owned(),
                attributes: vec![literal("code", "")],
                shape: FieldsShape::Unit,
                fields: vec![],
            },
            VariantModel {
                name: "C".to_owned(),
                attributes: vec![literal("code", "x"), literal("code", "y")],
                shape: FieldsShape::Unit,
                fields: vec![],
            },
        ],
    };
    assert_eq!(plan_error(model, false).err(), Some(DefinitionError::EmptyCode));
}

#[test]
fn a_definition_plans_its_variants_in_order() {
    let model = ErrorModel {
        name: "Mail".to_owned(),
        attributes: vec![derive(&[&["Copy"], &["Clone"], &["Ord"]]), word("allow")],
        variants: vec![
            VariantModel { name: "First".to_owned(), attributes: vec![], shape: FieldsShape::Unit, fields: vec![] },
            VariantModel {
                name: "Second".to_owned(),
                attributes: vec![literal("description", "The second.")],
                shape: FieldsShape::Unit,
                fields: vec![],
            },
        ],
    };
    let plan = plan_error(model, true).unwrap();
    assert_eq!(plan.kind_name, "MailKind");
    assert!(plan.serialize);
    assert_eq!(names(&plan.attributes), strings(&["allow"]));
    assert_eq!(plan.wrapper_derives, vec![strings(&["Copy"]), strings(&["Clone"])]);
    assert!(plan.semantic.ord && !plan.semantic.partial_eq && !plan.semantic.hash);
    let catalog = plan
        .variants
        .iter()
        .map(|variant| (variant.code.clone(), variant.description.clone()))
        .collect::<Vec<_>>();
    assert_eq!(
        catalog,
        vec![
            ("Mail.First".to_owned(), "First".to_owned()),
            ("Mail.Second".to_owned(), "The second.".to_owned()),
        ]
    );
}

#[test]
fn call_site_paths_are_rewritten_to_kinds() {
    assert_eq!(
        error_path(&strings(&["crate", "SendError", "Failed"])),
        Ok(strings(&["crate", "SendError"]))
    );
    assert_eq!(
        error_path(&strings(&["Failed"])),
        Err(DefinitionError::LocateRequiresQualifiedPath)
    );

    let mut path = strings(&["errors", "SendError", "Failed"]);
    assert_eq!(rewrite_variant_path(&mut path), Ok(()));
    assert_eq!(path, strings(&["errors", "SendErrorKind", "Failed"]));
    let mut short = strings(&["Failed"]);
    assert_eq!(rewrite_variant_path(&mut short), Err(DefinitionError::ExpectedErrorVariant));
    assert_eq!(short, strings(&["Failed"]));

    match rewrite_as_kind(ExprShape::Struct(strings(&["SendError", "Failed"]))).unwrap() {
        (error, ExprShape::Struct(kind)) => {
            assert_eq!(error, strings(&["SendError"]));
            assert_eq!(kind, strings(&["SendErrorKind", "Failed"]));
        }
        _ => panic!("expected a struct expression"),
    }
    assert!(matches!(
        rewrite_as_kind(ExprShape::Call(None)),
        Err(DefinitionError::LocateExpectsConstructor)
    ));
    assert!(matches!(
        rewrite_as_kind(ExprShape::Other),
        Err(DefinitionError::LocateExpectsVariant)
    ));
}

#[test]
fn locate_builds_variants_or_captures_ordinary_errors() {
    match expand_constructor(ExprShape::Path(strings(&["TransportError", "Timeout"]))).unwrap() {
        Construction::Variant { error_path, kind_expression } => {
            assert_eq!(error_path, strings(&["TransportError"]));
            assert!(matches!(kind_expression, ExprShape::Path(path) if path == strings(&["TransportErrorKind", "Timeout"])));
        }
        Construction::External => panic!("expected a variant"),
    }
    assert!(matches!(
        expand_constructor(ExprShape::Path(strings(&["error"]))).unwrap(),
        Construction::External
    ));
    assert!(matches!(expand_constructor(ExprShape::Other).unwrap(), Construction::External));
    assert!(matches!(
        expand_constructor(ExprShape::Call(Some(strings(&["E", "V"])))).unwrap(),
        Construction::External
    ));
}

#[test]
fn locate_err_needs_a_qualified_variant_path() {
    assert_eq!(
        locate_err_path(ExprShape::Path(strings(&["ExternalError"]))),
        Err(DefinitionError::LocateErrExpectsQualifiedPath)
    );
    assert_eq!(
        locate_err_path(ExprShape::Path(vec![])),
        Err(DefinitionError::LocateErrExpectsQualifiedPath)
    );
    assert_eq!(
        locate_err_path(ExprShape::Other),
        Err(DefinitionError::LocateErrExpectsPath)
    );
    assert_eq!(
        locate_err_path(ExprShape::Path(strings(&["a", "ProviderError", "RequestFailed"]))),
        Ok(strings(&["a", "ProviderError", "__inception_locate_err_request_failed"]))
    );
}

#[test]
fn definition_options_accept_only_serde() {
    assert_eq!(parse_error_options(""), Ok(false));
    assert_eq!(parse_error_options("serde"), Ok(true));
    assert_eq!(parse_error_options("json"), Err(DefinitionError::OnlySerdeOption));
    assert_eq!(parse_error_options("serde json"), Err(DefinitionError::MalformedOptions));
    assert_eq!(parse_error_options("1"), Err(DefinitionError::MalformedOptions));
    assert_eq!(options_from(true, Some("json".to_owned())), Ok(false));
    assert_eq!(options_from(false, None), Err(DefinitionError::MalformedOptions));
}

#[test]
fn diagnostics_read_as_the_compiler_shows_them() {
    assert_eq!(DefinitionError::DuplicateMarker("from").message(), "duplicate #[from]");
    assert_eq!(
        DefinitionError::MarkerArguments("hide").message(),
        "#[hide] does not take arguments"
    );
    assert_eq!(DefinitionError::EmptyCode.message(), "error code cannot be empty");
    assert_eq!(
        DefinitionError::OnlySerdeOption.message(),
        "#[inception::error] accepts only the `serde` option"
    );
}
