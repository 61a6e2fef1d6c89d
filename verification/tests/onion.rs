use std::fmt;

use inception::attributes::{AttributeModel, AttributeArgs, ListTokens};
use inception::paths::{expand_constructor, locate_err_path, Construction, ExprShape};
use inception::plan::{plan_error, plan_variant, ErrorModel, FieldModel, FieldsShape, TypeShape, VariantModel};
use inception::{BuildError, Entry, ErrorDescriptor, InceptionError, Inceptioned, Location, Trace};

const FILE: &str = "tests/onion.rs";

fn at(line: u32) -> Location {
    Location::new(FILE, line, 9)
}

const IO_ERROR_TYPE: &str = "std::io::error::Error";

// The types below stand in for what the error definition generates. Their
// constructors, `locate` and `build` take the creation site as an argument
// where the generated ones capture the caller's coordinate, and a captured
// ordinary error's source is the error it captured.

struct TransportError {
    error: TransportErrorKind,
    location: Location,
}

enum TransportErrorKind {
    Timeout,
}

impl TransportError {
    fn timeout(location: Location) -> Self {
        Self { error: TransportErrorKind::Timeout, location }
    }
}

impl InceptionError for TransportError {
    fn code(&self) -> &'static str {
        match self.error {
            TransportErrorKind::Timeout => "transport.timeout",
        }
    }

    fn description(&self) -> &'static str {
        match self.error {
            TransportErrorKind::Timeout => "The transport timed out.",
        }
    }

    fn created_at(&self) -> Location {
        self.location
    }

    fn nested_error(&self) -> Option<Trace> {
        None
    }
}

struct ProviderError {
    error: ProviderErrorKind,
    location: Location,
}

enum ProviderErrorKind {
    RequestFailed { error: TransportError },
}

impl ProviderError {
    fn request_failed(error: TransportError, location: Location) -> Self {
        Self { error: ProviderErrorKind::RequestFailed { error }, location }
    }
}

impl From<TransportError> for ProviderError {
    fn from(error: TransportError) -> Self {
        Self::request_failed(error, Location::new(FILE, 1, 1))
    }
}

impl InceptionError for ProviderError {
    fn code(&self) -> &'static str {
        "provider.request_failed"
    }

    fn description(&self) -> &'static str {
        "The provider request failed."
    }

    fn created_at(&self) -> Location {
        self.location
    }

    fn nested_error(&self) -> Option<Trace> {
        match &self.error {
            ProviderErrorKind::RequestFailed { error } => Some(error.trace()),
        }
    }
}

impl fmt::Display for ProviderError {
    fn fmt(&self, formatter: &mut fmt::Formatter<'_>) -> fmt::Result {
        formatter.write_str(self.description())
    }
}

impl fmt::Debug for ProviderError {
    fn fmt(&self, formatter: &mut fmt::Formatter<'_>) -> fmt::Result {
        formatter
            .debug_struct("ProviderError")
            .field("code", &self.code())
            .finish_non_exhaustive()
    }
}

impl std::error::Error for ProviderError {}

struct SendError {
    error: SendErrorKind,
    location: Location,
}

enum SendErrorKind {
    ProviderUnavailable { error: ProviderError },
}

impl SendError {
    fn provider_unavailable(error: ProviderError, location: Location) -> Self {
        Self { error: SendErrorKind::ProviderUnavailable { error }, location }
    }
}

impl InceptionError for SendError {
    fn code(&self) -> &'static str {
        "send.provider_unavailable"
    }

    fn description(&self) -> &'static str {
        "The mail provider is unavailable."
    }

    fn created_at(&self) -> Location {
        self.location
    }

    fn nested_error(&self) -> Option<Trace> {
        match &self.error {
            SendErrorKind::ProviderUnavailable { error } => Some(error.trace()),
        }
    }
}

impl fmt::Display for SendError {
    fn fmt(&self, formatter: &mut fmt::Formatter<'_>) -> fmt::Result {
        formatter.write_str(self.description())
    }
}

impl fmt::Debug for SendError {
    fn fmt(&self, formatter: &mut fmt::Formatter<'_>) -> fmt::Result {
        formatter
            .debug_struct("SendError")
            .field("code", &self.code())
            .finish_non_exhaustive()
    }
}

impl std::error::Error for SendError {
    fn source(&self) -> Option<&(dyn std::error::Error + 'static)> {
        match &self.error {
            SendErrorKind::ProviderUnavailable { error } => Some(error),
        }
    }
}

struct ExternalError {
    error: ExternalErrorKind,
    location: Location,
}

enum ExternalErrorKind {
    Io { source: Inceptioned<std::io::Error> },
}

impl ExternalError {
    fn io(source: Inceptioned<std::io::Error>, location: Location) -> Self {
        Self { error: ExternalErrorKind::Io { source }, location }
    }

    fn locate(self, location: Location) -> Self {
        Self { error: self.error, location }
    }
}

impl InceptionError for ExternalError {
    fn code(&self) -> &'static str {
        "external.io"
    }

    fn description(&self) -> &'static str {
        "External I/O failed."
    }

    fn created_at(&self) -> Location {
        self.location
    }

    fn nested_error(&self) -> Option<Trace> {
        match &self.error {
            ExternalErrorKind::Io { source } => Some(source.trace()),
        }
    }
}

impl fmt::Display for ExternalError {
    fn fmt(&self, formatter: &mut fmt::Formatter<'_>) -> fmt::Result {
        formatter.write_str(self.description())
    }
}

impl fmt::Debug for ExternalError {
    fn fmt(&self, formatter: &mut fmt::Formatter<'_>) -> fmt::Result {
        formatter
            .debug_struct("ExternalError")
            .field("code", &self.code())
            .field("description", &self.description())
            .field("location", &self.location)
            .finish_non_exhaustive()
    }
}

impl std::error::Error for ExternalError {
    fn source(&self) -> Option<&(dyn std::error::Error + 'static)> {
        match &self.error {
            ExternalErrorKind::Io { source } => Some(source.error()),
        }
    }
}

struct BoxedExternalError {
    error: BoxedExternalErrorKind,
    location: Location,
}

enum BoxedExternalErrorKind {
    Dependency { error: Box<dyn std::error::Error + Send + Sync + 'static> },
}

impl BoxedExternalError {
    fn dependency(error: Box<dyn std::error::Error + Send + Sync + 'static>, location: Location) -> Self {
        Self { error: BoxedExternalErrorKind::Dependency { error }, location }
    }
}

impl InceptionError for BoxedExternalError {
    fn code(&self) -> &'static str {
        "external.dependency"
    }

    fn description(&self) -> &'static str {
        "A boxed external dependency failed."
    }

    fn created_at(&self) -> Location {
        self.location
    }

    fn nested_error(&self) -> Option<Trace> {
        None
    }
}

impl fmt::Debug for BoxedExternalError {
    fn fmt(&self, formatter: &mut fmt::Formatter<'_>) -> fmt::Result {
        formatter
            .debug_struct("BoxedExternalError")
            .field("code", &self.code())
            .field("description", &self.description())
            .field("location", &self.location)
            .finish_non_exhaustive()
    }
}

impl fmt::Display for BoxedExternalError {
    fn fmt(&self, formatter: &mut fmt::Formatter<'_>) -> fmt::Result {
        formatter.write_str(self.description())
    }
}

impl std::error::Error for BoxedExternalError {
    fn source(&self) -> Option<&(dyn std::error::Error + 'static)> {
        match &self.error {
            BoxedExternalErrorKind::Dependency { error } => {
                Some(error.as_ref() as &(dyn std::error::Error + 'static))
            }
        }
    }
}

#[derive(Clone)]
struct ClassifiedError {
    error: ClassifiedErrorKind,
    location: Location,
}

#[derive(Clone, PartialEq, Eq)]
enum ClassifiedErrorKind {
    Failed {
        resource: String,
        attempt: u32,
        credential: Secret,
        unclassified: String,
    },
}

#[derive(Clone, PartialEq, Eq)]
struct Secret;

impl PartialEq for ClassifiedError {
    fn eq(&self, other: &Self) -> bool {
        self.error == other.error
    }
}

impl Eq for ClassifiedError {}

impl fmt::Debug for ClassifiedErrorKind {
    fn fmt(&self, formatter: &mut fmt::Formatter<'_>) -> fmt::Result {
        match self {
            ClassifiedErrorKind::Failed { .. } => formatter.write_str("ClassifiedErrorKind::Failed"),
        }
    }
}

impl fmt::Debug for ClassifiedError {
    fn fmt(&self, formatter: &mut fmt::Formatter<'_>) -> fmt::Result {
        formatter
            .debug_struct("ClassifiedError")
            .field("code", &self.code())
            .field("description", &self.description())
            .field("location", &self.location)
            .finish_non_exhaustive()
    }
}

impl ClassifiedError {
    fn catalog() -> Vec<ErrorDescriptor> {
        vec![ErrorDescriptor::new("classified.failed", "The classified operation failed.")]
    }

    fn failed(
        resource: String,
        attempt: u32,
        credential: Secret,
        unclassified: String,
        location: Location,
    ) -> Self {
        Self {
            error: ClassifiedErrorKind::Failed { resource, attempt, credential, unclassified },
            location,
        }
    }

    fn kind(&self) -> &ClassifiedErrorKind {
        &self.error
    }

    fn failed_builder() -> ClassifiedErrorFailedBuilder {
        ClassifiedErrorFailedBuilder { resource: None, attempt: None, credential: None, unclassified: None }
    }
}

struct ClassifiedErrorFailedBuilder {
    resource: Option<String>,
    attempt: Option<u32>,
    credential: Option<Secret>,
    unclassified: Option<String>,
}

impl ClassifiedErrorFailedBuilder {
    fn resource(mut self, value: String) -> Self {
        self.resource = Some(value);
        self
    }

    fn attempt(mut self, value: u32) -> Self {
        self.attempt = Some(value);
        self
    }

    fn credential(mut self, value: Secret) -> Self {
        self.credential = Some(value);
        self
    }

    fn unclassified(mut self, value: String) -> Self {
        self.unclassified = Some(value);
        self
    }

    fn build(self, location: Location) -> Result<ClassifiedError, BuildError> {
        Ok(ClassifiedError::failed(
            self.resource.ok_or_else(|| BuildError::missing("resource"))?,
            self.attempt.ok_or_else(|| BuildError::missing("attempt"))?,
            self.credential.ok_or_else(|| BuildError::missing("credential"))?,
            self.unclassified.ok_or_else(|| BuildError::missing("unclassified"))?,
            location,
        ))
    }
}

impl InceptionError for ClassifiedError {
    fn code(&self) -> &'static str {
        "classified.failed"
    }

    fn description(&self) -> &'static str {
        "The classified operation failed."
    }

    fn created_at(&self) -> Location {
        self.location
    }

    fn nested_error(&self) -> Option<Trace> {
        None
    }

    fn entries(&self) -> Vec<Entry> {
        match &self.error {
            ClassifiedErrorKind::Failed { resource, attempt, unclassified, .. } => vec![
                Entry::display("resource", resource),
                Entry::display("attempt", &attempt.to_string()),
                Entry::hidden("credential"),
                Entry::display("unclassified", unclassified),
            ],
        }
    }
}

struct ImplicitDescriptionError {
    location: Location,
}

impl ImplicitDescriptionError {
    fn failed(location: Location) -> Self {
        Self { location }
    }
}

impl InceptionError for ImplicitDescriptionError {
    fn code(&self) -> &'static str {
        "ImplicitDescriptionError.Failed"
    }

    fn description(&self) -> &'static str {
        "Failed"
    }

    fn created_at(&self) -> Location {
        self.location
    }

    fn nested_error(&self) -> Option<Trace> {
        None
    }
}

// Models of the definitions above, as the error attribute reads them.

fn text_attribute(name: &str, value: &str) -> AttributeModel {
    AttributeModel {
        name: name.to_owned(),
        args: AttributeArgs::List(ListTokens::read(format!("{value:?}"))),
    }
}

fn word(name: &str) -> AttributeModel {
    AttributeModel { name: name.to_owned(), args: AttributeArgs::Word }
}

fn plain_type(name: &str) -> TypeShape {
    TypeShape::Path { qualified: false, segments: vec![name.to_owned()] }
}

fn named_field(name: &str, attributes: Vec<AttributeModel>, ty: TypeShape) -> FieldModel {
    FieldModel { name: Some(name.to_owned()), attributes, ty }
}

fn classified_model() -> ErrorModel {
    ErrorModel {
        name: "ClassifiedError".to_owned(),
        attributes: vec![AttributeModel {
            name: "derive".to_owned(),
            args: AttributeArgs::List(ListTokens::read("Clone , PartialEq , Eq".to_owned())),
        }],
        variants: vec![VariantModel {
            name: "Failed".to_owned(),
            attributes: vec![
                text_attribute("code", "classified.failed"),
                text_attribute("description", "The classified operation failed."),
            ],
            shape: FieldsShape::Named,
            fields: vec![
                named_field("resource", vec![], plain_type("String")),
                named_field("attempt", vec![], plain_type("u32")),
                named_field("credential", vec![word("hide")], plain_type("Secret")),
                named_field("unclassified", vec![], plain_type("String")),
            ],
        }],
    }
}

fn trace_length(trace: &Trace) -> usize {
    let mut length = 1;
    let mut layer = trace;
    while let Some(nested) = layer.nested_error() {
        length += 1;
        layer = nested;
    }
    length
}

fn load_external() -> Result<(), std::io::Error> {
    Err(std::io::Error::other("private"))
}

#[test]
fn descriptions_are_optional() {
    assert_eq!(
        ImplicitDescriptionError::failed(at(1)).code(),
        "ImplicitDescriptionError.Failed"
    );
    assert_eq!(ImplicitDescriptionError::failed(at(1)).description(), "Failed");

    let plan = plan_variant(
        "ImplicitDescriptionError",
        VariantModel {
            name: "Failed".to_owned(),
            attributes: vec![],
            shape: FieldsShape::Unit,
            fields: vec![],
        },
    )
    .unwrap();
    assert_eq!(plan.code, "ImplicitDescriptionError.Failed");
    assert_eq!(plan.description, "Failed");
}

#[test]
fn nested_errors_retain_codes_descriptions_sources_and_creation_sites() {
    let transport_line = 410;
    let transport = TransportError::timeout(at(transport_line));
    let provider_line = 412;
    let provider = ProviderError::request_failed(transport, at(provider_line));
    let send_line = 414;
    let send = SendError::provider_unavailable(provider, at(send_line));

    let trace = send.trace();
    let provider = send.nested_error().unwrap();
    let transport = provider.nested_error().unwrap();
    assert_eq!(trace_length(&trace), 3);
    assert_eq!(send.code(), "send.provider_unavailable");
    assert_eq!(provider.code(), "provider.request_failed");
    assert_eq!(transport.code(), "transport.timeout");
    assert_eq!(send.description(), "The mail provider is unavailable.");
    assert_eq!(send.created_at().line(), send_line);
    assert_eq!(provider.created_at().line(), provider_line);
    assert_eq!(transport.created_at().line(), transport_line);
    assert!(std::error::Error::source(&send).is_some());

    let trace = trace.to_string();
    assert!(trace.contains("send.provider_unavailable"));
    assert!(trace.contains("provider.request_failed"));
    assert!(trace.contains("transport.timeout"));
    assert!(trace.contains(FILE));
}

#[test]
fn from_conversion_creates_a_new_semantic_layer() {
    fn wrap() -> Result<(), ProviderError> {
        Err(TransportError::timeout(at(440)))?;
        Ok(())
    }

    let error = wrap().unwrap_err();
    let nested = error.nested_error().unwrap();
    assert_eq!(trace_length(&error.trace()), 2);
    assert_eq!(error.code(), "provider.request_failed");
    assert_eq!(nested.code(), "transport.timeout");
    assert_ne!(error.created_at(), nested.created_at());
}

#[test]
fn external_sources_become_located_inception_layers() {
    let error = ExternalError::io(
        Inceptioned::new_at(std::io::Error::other("private diagnostic"), at(455), IO_ERROR_TYPE),
        at(456),
    );

    assert_eq!(trace_length(&error.trace()), 2);
    assert_eq!(error.code(), "external.io");
    assert_eq!(error.to_string(), "External I/O failed.");
    assert!(!format!("{error:?}").contains("private diagnostic"));
    assert_eq!(
        std::error::Error::source(&error).map(ToString::to_string),
        Some("private diagnostic".to_owned())
    );
}

#[test]
fn boxed_trait_object_sources_are_supported_and_hidden() {
    let error = BoxedExternalError::dependency(
        Box::new(std::io::Error::other("private boxed diagnostic")),
        at(472),
    );

    assert_eq!(error.code(), "external.dependency");
    assert_eq!(trace_length(&error.trace()), 1);
    assert!(!format!("{error:?}").contains("private boxed diagnostic"));
    assert_eq!(
        std::error::Error::source(&error).map(ToString::to_string),
        Some("private boxed diagnostic".to_owned())
    );
}

#[test]
fn entries_are_automatic_and_hidden_values_do_not_require_display() {
    let error = ClassifiedError::failed(
        "mailbox-1".to_owned(),
        3,
        Secret,
        "also not classified".to_owned(),
        at(490),
    );
    let cloned = error.clone();
    assert_eq!(error, cloned);

    let fields = error
        .entries()
        .into_iter()
        .map(|entry| (entry.key().to_owned(), entry.value().to_owned()))
        .collect::<Vec<_>>();
    assert_eq!(
        fields,
        vec![
            ("resource".to_owned(), "mailbox-1".to_owned()),
            ("attempt".to_owned(), "3".to_owned()),
            ("credential".to_owned(), "<hidden>".to_owned()),
            ("unclassified".to_owned(), "also not classified".to_owned()),
        ]
    );

    let debug = format!("{error:?} {:?}", error.kind());
    assert!(!debug.contains("never print me"));
    assert!(!debug.contains("also not classified"));
    assert!(!debug.contains("mailbox-1"));

    let entries = error
        .entries()
        .into_iter()
        .map(|entry| (entry.key(), entry.value().to_owned(), entry.is_hidden()))
        .collect::<Vec<_>>();
    assert_eq!(entries[2], ("credential", "<hidden>".to_owned(), true));

    let plan = plan_error(classified_model(), false).unwrap();
    let keys = plan.variants[0]
        .entries
        .iter()
        .map(|entry| (entry.key.clone(), entry.hidden))
        .collect::<Vec<_>>();
    assert_eq!(
        keys,
        vec![
            ("resource".to_owned(), false),
            ("attempt".to_owned(), false),
            ("credential".to_owned(), true),
            ("unclassified".to_owned(), false),
        ]
    );
    assert!(plan.semantic.partial_eq && plan.semantic.eq);
    assert_eq!(plan.wrapper_derives, vec![vec!["Clone".to_owned()]]);
}

#[test]
fn builders_and_locate_err_cover_common_call_sites() {
    let missing = ClassifiedError::failed_builder().build(at(545)).unwrap_err();
    assert_eq!(missing.field(), "resource");

    let built = ClassifiedError::failed_builder()
        .resource("resource-1".to_owned())
        .attempt(1)
        .credential(Secret)
        .unclassified("diagnostic".to_owned())
        .build(at(548))
        .unwrap();
    assert_eq!(built.code(), "classified.failed");

    let error = load_external()
        .map_err(|source| {
            ExternalError::io(Inceptioned::new_at(source, at(557), IO_ERROR_TYPE), at(557))
        })
        .unwrap_err();
    assert_eq!(error.code(), "external.io");
    assert!(error.trace().to_string().contains("external.io"));

    let located = ExternalError::io(
        Inceptioned::new_at(std::io::Error::other("private"), at(563), IO_ERROR_TYPE),
        at(564),
    )
    .locate(at(566));
    assert_eq!(located.code(), "external.io");
    assert_eq!(located.created_at().line(), 566);

    let plan = plan_error(classified_model(), false).unwrap();
    let builder = plan.variants[0].builder.as_ref().unwrap();
    assert_eq!(builder.builder_type, "ClassifiedErrorFailedBuilder");
    assert_eq!(builder.method, "failed_builder");

    let method = locate_err_path(ExprShape::Path(vec![
        "ExternalError".to_owned(),
        "Io".to_owned(),
    ]))
    .unwrap();
    assert_eq!(
        method,
        vec!["ExternalError".to_owned(), "__inception_locate_err_io".to_owned()]
    );
}

#[test]
fn locate_wraps_ordinary_errors_as_inception_layers() {
    let location_line = 588;
    let error = Inceptioned::new_at(
        std::io::Error::other("private"),
        at(location_line),
        IO_ERROR_TYPE,
    );
    assert_eq!(error.code(), "inception.external");
    assert_eq!(error.created_at().line(), location_line);
    let trace = error.trace().to_string();
    assert!(trace.contains("std::io"));
    assert!(!trace.contains("private"));
    assert_eq!(error.error().to_string(), "private");

    let construction = expand_constructor(ExprShape::Call(Some(vec![
        "std".to_owned(),
        "io".to_owned(),
        "Error".to_owned(),
        "other".to_owned(),
    ])))
    .unwrap();
    assert!(matches!(construction, Construction::External));
}

#[test]
fn bail_err_returns_a_located_ordinary_error() {
    fn fail() -> Result<(), Inceptioned<std::io::Error>> {
        Err(Inceptioned::new_at(std::io::Error::other("private"), at(612), IO_ERROR_TYPE))
    }

    let error = fail().unwrap_err();
    assert_eq!(error.code(), "inception.external");
    assert_eq!(error.into_error().to_string(), "private");
}

#[test]
fn semantic_equality_ignores_diagnostic_creation_coordinates() {
    let first =
        ClassifiedError::failed("mailbox-1".to_owned(), 3, Secret, "opaque".to_owned(), at(622));
    let second =
        ClassifiedError::failed("mailbox-1".to_owned(), 3, Secret, "opaque".to_owned(), at(624));
    assert_ne!(first.created_at(), second.created_at());
    assert_eq!(first, second);
}

#[test]
fn catalog_exposes_stable_error_classes() {
    assert_eq!(ClassifiedError::catalog().len(), 1);
    assert_eq!(ClassifiedError::catalog()[0].code(), "classified.failed");
    assert_eq!(
        ClassifiedError::catalog()[0].description(),
        "The classified operation failed."
    );

    let error =
        ClassifiedError::failed("mailbox-1".to_owned(), 3, Secret, "opaque".to_owned(), at(638));
    assert_eq!(error.code(), "classified.failed");

    let plan = plan_error(classified_model(), false).unwrap();
    assert_eq!(plan.variants.len(), 1);
    assert_eq!(plan.variants[0].code, "classified.failed");
    assert_eq!(plan.variants[0].description, "The classified operation failed.");
}
