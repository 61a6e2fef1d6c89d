use inception::tracing::{context_string, event_fields, EventFields};
use inception::{Entry, InceptionError, Location, Trace};

struct TracedError {
    location: Location,
}

impl TracedError {
    fn failed(location: Location) -> Self {
        Self { location }
    }
}

impl InceptionError for TracedError {
    fn code(&self) -> &'static str {
        "traced.failed"
    }

    fn description(&self) -> &'static str {
        "Failed"
    }

    fn created_at(&self) -> Location {
        self.location
    }

    fn nested_error(&self) -> Option<Trace> {
        None
    }

    fn entries(&self) -> Vec<Entry> {
        vec![Entry::display("attempt", "2"), Entry::hidden("token")]
    }
}

#[test]
fn tracing_macros_accept_static_and_dynamic_levels() {
    let error = TracedError::failed(Location::new("tests/tracing.rs", 38, 17));
    let fields = event_fields(&error);
    assert_eq!(fields.code, "traced.failed");
    assert_eq!(fields.description, "Failed");
    assert_eq!(
        fields.trace,
        "traced.failed: Failed\n    at tests/tracing.rs:38:17"
    );
    assert_eq!(fields.context, "attempt=2 token=<hidden>");
}

#[test]
fn context_lists_entries_of_every_layer_in_order() {
    let inner = Trace::layer(
        "inner.failed",
        "Inner failed.",
        std::borrow::Cow::Borrowed("Inner failed."),
        Location::new("inner.rs", 1, 2),
        vec![Entry::display("b", "2")],
        None,
    );
    let outer = Trace::layer(
        "outer.failed",
        "Outer failed.",
        std::borrow::Cow::Owned("Outer message".to_owned()),
        Location::new("outer.rs", 3, 4),
        vec![Entry::display("a", "1"), Entry::hidden("secret")],
        Some(inner),
    );
    assert_eq!(context_string(&outer), "a=1 secret=<hidden> b=2");
    assert_eq!(
        outer.to_string(),
        "outer.failed: Outer message\n    at outer.rs:3:4\nCaused by:\ninner.failed: Inner failed.\n    at inner.rs:1:2"
    );
    let fields = EventFields::from_trace(&outer);
    assert_eq!(fields.code, "outer.failed");
    assert_eq!(fields.description, "Outer failed.");
    assert_eq!(fields.context, "a=1 secret=<hidden> b=2");
}

#[test]
fn context_is_empty_without_entries() {
    let trace = Trace::layer(
        "plain.failed",
        "Plain failed.",
        std::borrow::Cow::Borrowed("Plain failed."),
        Location::new("plain.rs", 5, 6),
        vec![],
        None,
    );
    assert_eq!(context_string(&trace), "");
}
