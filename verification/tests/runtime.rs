use std::borrow::Cow;

use inception::{BuildError, Entry, ErrorDescriptor, InceptionError, Inceptioned, Location, Trace};

#[test]
fn descriptors_keep_code_and_description() {
    let descriptor = ErrorDescriptor::new("a.b", "Something failed.");
    assert_eq!(descriptor.code(), "a.b");
    assert_eq!(descriptor.description(), "Something failed.");
}

#[test]
fn build_errors_name_the_missing_field() {
    let error = BuildError::missing("resource");
    assert_eq!(error.field(), "resource");
    assert_eq!(error.to_string(), "missing cause field `resource`");
}

#[test]
fn hidden_entries_withhold_their_value() {
    let shown = Entry::display("attempt", "3");
    assert_eq!((shown.key(), shown.value(), shown.is_hidden()), ("attempt", "3", false));
    let hidden = Entry::hidden("token");
    assert_eq!((hidden.key(), hidden.value(), hidden.is_hidden()), ("token", "<hidden>", true));
}

#[test]
fn captured_errors_are_single_external_layers() {
    let location = Location::new("capture.rs", 4, 2);
    let captured = Inceptioned::new_at(7_u8, location, "u8");
    assert_eq!(*captured.error(), 7);
    assert_eq!(captured.location(), location);
    assert_eq!(captured.type_label(), "u8");
    assert_eq!(captured.code(), "inception.external");
    assert_eq!(captured.description(), "An external error occurred.");
    assert_eq!(captured.trace_message(), Cow::<str>::Owned("External error (u8)".to_owned()));
    assert!(captured.nested_error().is_none());
    assert!(captured.entries().is_empty());
    assert_eq!(
        captured.trace().to_string(),
        "inception.external: External error (u8)\n    at capture.rs:4:2"
    );
    assert_eq!(captured.into_error(), 7);
}

#[test]
fn traces_show_every_layer_outermost_first() {
    let innermost = Trace::layer(
        "c.code",
        "C.",
        Cow::Borrowed("C."),
        Location::new("c.rs", 3, 3),
        vec![],
        None,
    );
    let middle = Trace::layer(
        "b.code",
        "B.",
        Cow::Borrowed("B."),
        Location::new("b.rs", 2, 2),
        vec![],
        Some(innermost),
    );
    let outer = Trace::layer(
        "a.code",
        "A.",
        Cow::Borrowed("A."),
        Location::new("a.rs", 1, 1),
        vec![Entry::display("k", "v")],
        Some(middle),
    );
    let text = outer.to_string();
    assert!(text.starts_with("a.code: A.\n    at a.rs:1:1"));
    assert!(text.contains("b.code: B.\n    at b.rs:2:2"));
    assert!(text.contains("c.code: C.\n    at c.rs:3:3"));
    assert_eq!(text.matches("\nCaused by:\n").count(), 2);
    assert_eq!(outer.code(), "a.code");
    assert_eq!(outer.description(), "A.");
    assert_eq!(outer.trace_message(), "A.");
    assert_eq!(outer.created_at(), Location::new("a.rs", 1, 1));
    assert_eq!(outer.entries().len(), 1);
    let second = outer.nested_error().unwrap();
    assert_eq!(second.code(), "b.code");
    let third = second.nested_error().unwrap();
    assert_eq!(third.code(), "c.code");
    assert!(third.nested_error().is_none());
}

#[test]
fn different_locations_render_differently() {
    let a = Location::new("a:1", 2, 3).to_string();
    let b = Location::new("a", 1, 2).to_string();
    assert_eq!(a, "a:1:2:3");
    assert_ne!(a, b);
}

#[test]
fn traces_do_not_show_entries() {
    let with_entries = Trace::layer(
        "x.code",
        "X.",
        Cow::Borrowed("X."),
        Location::new("x.rs", 9, 9),
        vec![Entry::display("secret", "never print me"), Entry::hidden("token")],
        None,
    );
    let without_entries = Trace::layer(
        "x.code",
        "X.",
        Cow::Borrowed("X."),
        Location::new("x.rs", 9, 9),
        vec![],
        None,
    );
    assert_eq!(with_entries.to_string(), without_entries.to_string());
    assert!(!with_entries.to_string().contains("never print me"));
}
