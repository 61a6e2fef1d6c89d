//! Reading the text of attribute arguments with syn: string literals,
//! identifiers and lists of paths.
//!
//! syn reads tokens through proc-macro2, which lexes with the compiler
//! inside a procedural macro and with its own lexer outside one. The two
//! agree on plain ASCII text, and only such text is described here; what
//! comes back for any other text is left open.
use vstd::prelude::*;

use crate::paths::{ExprShape, ExprView};
use crate::plan::{FieldsShape, TypeShape};

verus! {

/// A character that may start a plain identifier.
pub open spec fn is_identifier_start(c: char) -> bool {
    ('a' <= c <= 'z') || ('A' <= c <= 'Z') || c == '_'
}

/// A character that may continue a plain identifier.
pub open spec fn is_identifier_continue(c: char) -> bool {
    is_identifier_start(c) || ('0' <= c <= '9')
}

/// The words that syn refuses as identifiers: `_` and Rust's keywords.
pub open spec fn reserved_words() -> Seq<Seq<char>> {
    seq![
        "_"@, "abstract"@, "as"@, "async"@, "await"@, "become"@, "box"@, "break"@, "const"@,
        "continue"@, "crate"@, "do"@, "dyn"@, "else"@, "enum"@, "extern"@, "false"@, "final"@,
        "fn"@, "for"@, "if"@, "impl"@, "in"@, "let"@, "loop"@, "macro"@, "match"@, "mod"@,
        "move"@, "mut"@, "override"@, "priv"@, "pub"@, "ref"@, "return"@, "Self"@, "self"@,
        "static"@, "struct"@, "super"@, "trait"@, "true"@, "try"@, "type"@, "typeof"@,
        "unsafe"@, "unsized"@, "use"@, "virtual"@, "where"@, "while"@, "yield"@,
    ]
}

/// A plain identifier: ASCII letters, digits and `_`, not starting with a
/// digit, and not a reserved word.
pub open spec fn plain_identifier(text: Seq<char>) -> bool {
    &&& text.len() > 0
    &&& is_identifier_start(text[0])
    &&& forall|i: int| 1 <= i < text.len() ==> is_identifier_continue(#[trigger] text[i])
    &&& !reserved_words().contains(text)
}

/// `text` without its leading and trailing spaces.
pub open spec fn trim_spaces(text: Seq<char>) -> Seq<char>
    decreases text.len(),
{
    if text.len() > 0 && text[0] == ' ' {
        trim_spaces(text.drop_first())
    } else if text.len() > 0 && text.last() == ' ' {
        trim_spaces(text.drop_last())
    } else {
        text
    }
}

/// Printable ASCII without `/` and `#`: text in which the lexer finds no
/// comment and no raw identifier, and whose only whitespace is the space.
pub open spec fn simple_ascii(text: Seq<char>) -> bool {
    forall|i: int|
        0 <= i < text.len() ==> ' ' <= #[trigger] text[i] <= '~' && text[i] != '/' && text[i]
            != '#'
}

/// The parts joined with `separator` between each two.
pub open spec fn join_with(parts: Seq<Seq<char>>, separator: Seq<char>) -> Seq<char>
    decreases parts.len(),
{
    if parts.len() == 0 {
        Seq::empty()
    } else if parts.len() == 1 {
        parts[0]
    } else {
        join_with(parts.drop_last(), separator) + separator + parts.last()
    }
}

/// A path as it may be written in a derive list: with or without a leading
/// `::`, then its segments.
pub struct WrittenPath {
    pub leading: bool,
    pub segments: Seq<Seq<char>>,
}

/// A path of plain identifiers.
pub open spec fn plain_path(path: WrittenPath) -> bool {
    &&& path.segments.len() > 0
    &&& forall|i: int| 0 <= i < path.segments.len() ==> plain_identifier(#[trigger] path.segments[i])
}

/// Every path of `paths` is a path of plain identifiers.
pub open spec fn plain_paths(paths: Seq<WrittenPath>) -> bool {
    forall|i: int| 0 <= i < paths.len() ==> plain_path(#[trigger] paths[i])
}

/// A path written out: `a::b` compactly, `a :: b` spaced, with a leading
/// `::` where it has one.
pub open spec fn path_text(path: WrittenPath, spaced: bool) -> Seq<char> {
    let separator = if spaced {
        " :: "@
    } else {
        "::"@
    };
    let lead = if !path.leading {
        Seq::empty()
    } else if spaced {
        ":: "@
    } else {
        "::"@
    };
    lead + join_with(path.segments, separator)
}

/// A list of paths written out: `a, b` compactly, `a , b` spaced, with a
/// trailing comma where `trailing` holds.
pub open spec fn path_list_text(paths: Seq<WrittenPath>, spaced: bool, trailing: bool) -> Seq<char> {
    let separator = if spaced {
        " , "@
    } else {
        ", "@
    };
    let end = if !trailing {
        Seq::empty()
    } else if spaced {
        " ,"@
    } else {
        ","@
    };
    join_with(paths.map_values(|path: WrittenPath| path_text(path, spaced)), separator) + end
}

/// The segments of each path.
pub open spec fn path_segments(paths: Seq<WrittenPath>) -> Seq<Seq<Seq<char>>> {
    paths.map_values(|path: WrittenPath| path.segments)
}

/// A character that stands for itself inside a plain string literal.
pub open spec fn is_plain_literal_char(c: char) -> bool {
    ' ' <= c <= '~' && c != '"' && c != '\\'
}

/// A plain string literal: printable ASCII between double quotes, without
/// quotes or backslashes inside.
pub open spec fn plain_string_literal(text: Seq<char>) -> bool {
    &&& text.len() >= 2
    &&& text[0] == '"'
    &&& text.last() == '"'
    &&& forall|i: int| 1 <= i < text.len() - 1 ==> is_plain_literal_char(#[trigger] text[i])
}

/// The value of a plain string literal: the text between the quotes.
pub open spec fn literal_value(text: Seq<char>) -> Seq<char> {
    text.subrange(1, text.len() - 1)
}

/// `serde` and `inception`, the words that error definitions look for, are
/// plain identifiers.
pub proof fn lemma_option_words_are_plain()
    ensures
        plain_identifier("serde"@),
        plain_identifier("inception"@),
{
    reveal_strlit("serde");
    reveal_strlit("inception");
    reveal_strlit("_");
    reveal_strlit("abstract");
    reveal_strlit("as");
    reveal_strlit("async");
    reveal_strlit("await");
    reveal_strlit("become");
    reveal_strlit("box");
    reveal_strlit("break");
    reveal_strlit("const");
    reveal_strlit("continue");
    reveal_strlit("crate");
    reveal_strlit("do");
    reveal_strlit("dyn");
    reveal_strlit("else");
    reveal_strlit("enum");
    reveal_strlit("extern");
    reveal_strlit("false");
    reveal_strlit("final");
    reveal_strlit("fn");
    reveal_strlit("for");
    reveal_strlit("if");
    reveal_strlit("impl");
    reveal_strlit("in");
    reveal_strlit("let");
    reveal_strlit("loop");
    reveal_strlit("macro");
    reveal_strlit("match");
    reveal_strlit("mod");
    reveal_strlit("move");
    reveal_strlit("mut");
    reveal_strlit("override");
    reveal_strlit("priv");
    reveal_strlit("pub");
    reveal_strlit("ref");
    reveal_strlit("return");
    reveal_strlit("Self");
    reveal_strlit("self");
    reveal_strlit("static");
    reveal_strlit("struct");
    reveal_strlit("super");
    reveal_strlit("trait");
    reveal_strlit("true");
    reveal_strlit("try");
    reveal_strlit("type");
    reveal_strlit("typeof");
    reveal_strlit("unsafe");
    reveal_strlit("unsized");
    reveal_strlit("use");
    reveal_strlit("virtual");
    reveal_strlit("where");
    reveal_strlit("while");
    reveal_strlit("yield");
    assert(!reserved_words().contains("serde"@)) by {
        assert forall|i: int| 0 <= i < reserved_words().len() implies reserved_words()[i] != "serde"@ by {
            assert(reserved_words()[i].len() != 5 || reserved_words()[i][0] != 's' || reserved_words()[i][1] != 'e' || reserved_words()[i][2] != 'r');
        }
    }
    assert(!reserved_words().contains("inception"@)) by {
        assert forall|i: int| 0 <= i < reserved_words().len() implies reserved_words()[i] != "inception"@ by {
            assert(reserved_words()[i].len() != 9);
        }
    }
}

/// Reads `text` as one identifier with syn's `parse_str::<syn::Ident>`.
/// An identifier that comes back is not empty. A plain identifier between
/// spaces is read as itself; printable ASCII text without `/` and `#` that
/// is not a plain identifier between spaces is not an identifier, and
/// neither are no text and a plain string literal. For other texts the
/// outcome depends on the lexer and is left unsaid.
#[verifier::external_body]
pub(crate) fn parse_identifier(text: &str) -> (identifier: Option<String>)
    ensures
        identifier matches Some(name) ==> name@.len() > 0,
        plain_identifier(text@) ==> identifier.deep_view() == Some(text@),
        plain_identifier(trim_spaces(text@)) ==> identifier.deep_view() == Some(
            trim_spaces(text@),
        ),
        simple_ascii(text@) && !plain_identifier(trim_spaces(text@)) ==> identifier is None,
        text@.len() == 0 || plain_string_literal(text@) ==> identifier is None,
{
    match syn::parse_str::<syn::Ident>(text) {
        Ok(identifier) => Some(identifier.to_string()),
        Err(_) => None,
    }
}

/// Reads `text` as one string literal with syn's `parse_str::<syn::LitStr>`
/// and gives its value. A plain string literal gives the text between its
/// quotes; no text, and a plain identifier, are not string literals. For
/// other texts the outcome depends on the lexer and is left unsaid.
#[verifier::external_body]
pub(crate) fn parse_string_literal(text: &str) -> (value: Option<String>)
    ensures
        plain_string_literal(text@) ==> value.deep_view() == Some(literal_value(text@)),
        text@.len() == 0 || plain_identifier(text@) ==> value is None,
{
    match syn::parse_str::<syn::LitStr>(text) {
        Ok(literal) => Some(literal.value()),
        Err(_) => None,
    }
}

/// Reads `text` as a comma-separated list of paths with syn's
/// `Punctuated::<syn::Path, syn::token::Comma>::parse_terminated`, each path
/// by the names of its segments. Paths of plain identifiers written out
/// compactly or spaced, with or without leading `::` and a trailing comma,
/// are read as those paths; no text is the empty list, a plain identifier
/// a list of that one single-segment path, and a plain string literal is
/// not a list of paths. For other texts the outcome depends on the lexer
/// and is left unsaid.
#[verifier::external_body]
pub(crate) fn parse_path_list(text: &str) -> (paths: Option<Vec<Vec<String>>>)
    ensures
        text@.len() == 0 ==> paths.deep_view() == Some(Seq::<Seq<Seq<char>>>::empty()),
        plain_identifier(text@) ==> paths.deep_view() == Some(seq![seq![text@]]),
        forall|written: Seq<WrittenPath>, spaced: bool, trailing: bool|
            plain_paths(written) && (trailing ==> written.len() > 0) && text@
                == #[trigger] path_list_text(written, spaced, trailing) ==> paths.deep_view()
                == Some(path_segments(written)),
        plain_string_literal(text@) ==> paths is None,
{
    let parser = syn::punctuated::Punctuated::<syn::Path, syn::token::Comma>::parse_terminated;
    match syn::parse::Parser::parse_str(parser, text) {
        Ok(list) => Some(
            list.iter().map(|path| path.segments.iter().map(|s| s.ident.to_string()).collect()).collect(),
        ),
        Err(_) => None,
    }
}

/// An argument that call-site texts below may hold: nothing, a plain
/// identifier or a plain string literal.
pub open spec fn plain_argument(text: Seq<char>) -> bool {
    text.len() == 0 || plain_identifier(text) || plain_string_literal(text)
}

/// `path(argument)`, compactly or spaced (`path (argument)`).
pub open spec fn call_text(path: WrittenPath, spaced: bool, argument: Seq<char>) -> Seq<char> {
    path_text(path, spaced) + (if spaced {
        " ("@
    } else {
        "("@
    }) + argument + ")"@
}

/// `path { field: value }`, compactly or spaced (`path { field : value }`).
pub open spec fn struct_text(
    path: WrittenPath,
    spaced: bool,
    field: Seq<char>,
    value: Seq<char>,
) -> Seq<char> {
    path_text(path, spaced) + " { "@ + field + (if spaced {
        " : "@
    } else {
        ": "@
    }) + value + " }"@
}

/// The shape of an expression, if any.
pub open spec fn shape_view(shape: Option<ExprShape>) -> Option<ExprView> {
    match shape {
        Some(shape) => Some(shape@),
        None => None,
    }
}

/// What holds of the shape that syn reads from a call-site text, whichever
/// lexer it used: no text is no expression, a plain string literal is
/// another expression, and a written path, call or struct literal of plain
/// identifiers has that shape, by the path's segments.
pub open spec fn call_site_read(text: Seq<char>, shape: Option<ExprView>) -> bool {
    &&& text.len() == 0 ==> shape is None
    &&& plain_string_literal(text) ==> shape == Some(ExprView::Other)
    &&& forall|path: WrittenPath, spaced: bool|
        plain_path(path) && text == #[trigger] path_text(path, spaced) ==> shape == Some(
            ExprView::Path(path.segments),
        )
    &&& forall|path: WrittenPath, spaced: bool, argument: Seq<char>|
        plain_path(path) && plain_argument(argument) && text == #[trigger] call_text(
            path,
            spaced,
            argument,
        ) ==> shape == Some(ExprView::Call(Some(path.segments)))
    &&& forall|path: WrittenPath, spaced: bool, field: Seq<char>, value: Seq<char>|
        plain_path(path) && plain_identifier(field) && plain_argument(value) && value.len() > 0
            && text == #[trigger] struct_text(path, spaced, field, value) ==> shape == Some(
            ExprView::Struct(path.segments),
        )
}

/// Reads a call-site macro's argument text as one expression with syn's
/// `parse_str::<syn::Expr>` and gives its shape: a path, a struct literal
/// or a call by the segments of its path (a call whose callee is no path
/// without them), or another expression. What holds of the shape is
/// `call_site_read`; for other texts it depends on the lexer and is left
/// unsaid.
#[verifier::external_body]
pub(crate) fn parse_call_site(text: &str) -> (shape: Option<ExprShape>)
    ensures
        call_site_read(text@, shape_view(shape)),
{
    Some(match syn::parse_str::<syn::Expr>(text).ok()? {
        syn::Expr::Path(e) => ExprShape::Path(e.path.segments.iter().map(|s| s.ident.to_string()).collect()),
        syn::Expr::Struct(e) => ExprShape::Struct(e.path.segments.iter().map(|s| s.ident.to_string()).collect()),
        syn::Expr::Call(call) => ExprShape::Call(match *call.func {
            syn::Expr::Path(e) => Some(e.path.segments.iter().map(|s| s.ident.to_string()).collect()),
            _ => None,
        }),
        _ => ExprShape::Other,
    })
}

/// A syn attribute, carried through as read.
#[verifier::external_type_specification]
#[verifier::external_body]
pub struct ExSynAttribute(syn::Attribute);

/// A syn enum variant, carried through as read.
#[verifier::external_type_specification]
#[verifier::external_body]
pub struct ExSynVariant(syn::Variant);

/// A syn field, carried through as read.
#[verifier::external_type_specification]
#[verifier::external_body]
pub struct ExSynField(syn::Field);

/// The form of an attribute's arguments, with the text of a list's tokens.
pub enum AttributeForm {
    /// `#[name]`
    Word,
    /// `#[name(...)]`, with the text of the tokens inside.
    List(String),
    /// `#[name = ...]`
    NameValue,
}

/// Reads `text` as an enum definition with syn's
/// `parse_str::<syn::ItemEnum>`: its name, its attributes and its variants.
/// No text is no enum; for other texts what comes back depends on the
/// lexer and is left unsaid.
#[verifier::external_body]
pub(crate) fn parse_enum_item(text: &str) -> (item: Option<
    (String, Vec<syn::Attribute>, Vec<syn::Variant>),
>)
    ensures
        text@.len() == 0 ==> item is None,
{
    match syn::parse_str::<syn::ItemEnum>(text) {
        Ok(item) => Some((item.ident.to_string(), item.attrs, item.variants.into_iter().collect())),
        Err(_) => None,
    }
}

/// A variant's parts as syn read them: its name, attributes, how its fields
/// are written, and its fields. Nothing is stated of them.
#[verifier::external_body]
pub(crate) fn variant_parts(variant: syn::Variant) -> (parts: (
    String,
    Vec<syn::Attribute>,
    FieldsShape,
    Vec<syn::Field>,
)) {
    let shape = match &variant.fields {
        syn::Fields::Named(_) => FieldsShape::Named,
        syn::Fields::Unnamed(_) => FieldsShape::Unnamed,
        syn::Fields::Unit => FieldsShape::Unit,
    };
    (variant.ident.to_string(), variant.attrs, shape, variant.fields.into_iter().collect())
}

/// A field's parts as syn read them: its name (none in a tuple variant),
/// attributes and the shape of its type. Nothing is stated of them.
#[verifier::external_body]
pub(crate) fn field_parts(field: syn::Field) -> (parts: (Option<String>, Vec<syn::Attribute>, TypeShape)) {
    let ty = match field.ty {
        syn::Type::Path(ty) => TypeShape::Path {
            qualified: ty.qself.is_some(),
            segments: ty.path.segments.iter().map(|s| s.ident.to_string()).collect(),
        },
        _ => TypeShape::Other,
    };
    (field.ident.map(|name| name.to_string()), field.attrs, ty)
}

/// An attribute's parts as syn read them: whether its path has a leading
/// `::`, the path's segments, and the form of its arguments with the text
/// of a list's tokens. Nothing is stated of them.
#[verifier::external_body]
pub(crate) fn attribute_parts(attribute: syn::Attribute) -> (parts: (bool, Vec<String>, AttributeForm)) {
    let leading = attribute.path().leading_colon.is_some();
    let segments = attribute.path().segments.iter().map(|s| s.ident.to_string()).collect();
    let form = match attribute.meta {
        syn::Meta::Path(_) => AttributeForm::Word,
        syn::Meta::List(list) => AttributeForm::List(list.tokens.to_string()),
        syn::Meta::NameValue(_) => AttributeForm::NameValue,
    };
    (leading, segments, form)
}

} // verus!
