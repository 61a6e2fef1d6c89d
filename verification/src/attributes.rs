//! Attributes on error definitions: how each one is read and removed.
use vstd::prelude::*;
use vstd::string::StrSliceExecFns;

use crate::diagnostic::DefinitionError;
use crate::syntax::{
    lemma_option_words_are_plain, literal_value, parse_identifier, parse_path_list, parse_string_literal, plain_identifier,
    plain_string_literal, path_list_text, path_segments, plain_paths, simple_ascii, trim_spaces,
    WrittenPath,
};

verus! {

/// The tokens inside `#[name(...)]`: their text, and what syn reads that
/// text as. Each reading is made once, when the tokens are read, so that
/// every rule below sees the same reading of one attribute.
pub struct ListTokens {
    /// The text of the tokens.
    text: String,
    /// The value, where the tokens are one string literal.
    literal: Option<String>,
    /// The name, where the tokens are one identifier.
    ident: Option<String>,
    /// The paths by their segments, where the tokens are a comma-separated
    /// list of paths.
    paths: Option<Vec<Vec<String>>>,
}

/// The arguments of an attribute.
pub enum AttributeArgs {
    /// `#[name]`
    Word,
    /// `#[name(...)]`
    List(ListTokens),
    /// `#[name = ...]`
    NameValue,
}

/// One attribute: its path, written out with `::` between segments, and its
/// arguments.
pub struct AttributeModel {
    pub name: String,
    pub args: AttributeArgs,
}

/// The mathematical content of [`AttributeArgs`].
pub enum ArgsView {
    Word,
    List {
        text: Seq<char>,
        literal: Option<Seq<char>>,
        ident: Option<Seq<char>>,
        paths: Option<Seq<Seq<Seq<char>>>>,
    },
    NameValue,
}

/// The mathematical content of an [`AttributeModel`].
pub struct AttributeView {
    pub name: Seq<char>,
    pub args: ArgsView,
}

/// What holds of the readings of `text`, whichever lexer syn used: a plain
/// string literal is read as its value and as nothing else, a plain
/// identifier (between spaces) as itself and as the list of that one path,
/// other simple ASCII text as no identifier, a written list of plain paths
/// as those paths, and no text as the empty list of paths.
pub open spec fn readings_of(
    text: Seq<char>,
    literal: Option<Seq<char>>,
    ident: Option<Seq<char>>,
    paths: Option<Seq<Seq<Seq<char>>>>,
) -> bool {
    &&& ident matches Some(name) ==> name.len() > 0
    &&& plain_string_literal(text) ==> {
        &&& literal == Some(literal_value(text))
        &&& ident is None
        &&& paths is None
    }
    &&& plain_identifier(text) ==> {
        &&& literal is None
        &&& ident == Some(text)
        &&& paths == Some(seq![seq![text]])
    }
    &&& text.len() == 0 ==> {
        &&& literal is None
        &&& ident is None
        &&& paths == Some(Seq::<Seq<Seq<char>>>::empty())
    }
    &&& plain_identifier(trim_spaces(text)) ==> ident == Some(trim_spaces(text))
    &&& simple_ascii(text) && !plain_identifier(trim_spaces(text)) ==> ident is None
    &&& forall|written: Seq<WrittenPath>, spaced: bool, trailing: bool|
        plain_paths(written) && (trailing ==> written.len() > 0) && text == #[trigger] path_list_text(
            written,
            spaced,
            trailing,
        ) ==> paths == Some(path_segments(written))
}

/// The arguments were read from their text as syn reads it.
pub open spec fn args_read(args: ArgsView) -> bool {
    args matches ArgsView::List { text, literal, ident, paths } ==> readings_of(
        text,
        literal,
        ident,
        paths,
    )
}

impl View for ListTokens {
    type V = ArgsView;

    closed spec fn view(&self) -> ArgsView {
        ArgsView::List {
            text: self.text@,
            literal: self.literal.deep_view(),
            ident: self.ident.deep_view(),
            paths: self.paths.deep_view(),
        }
    }
}

impl ListTokens {
    #[verifier::type_invariant]
    spec fn well_read(self) -> bool {
        readings_of(
            self.text@,
            self.literal.deep_view(),
            self.ident.deep_view(),
            self.paths.deep_view(),
        )
    }

    /// Reads the text of an attribute's argument tokens with syn: as one
    /// string literal, as one identifier and as a list of paths.
    #[must_use]
    pub fn read(text: String) -> (tokens: Self)
        ensures
            tokens@ matches ArgsView::List { text: read, .. } && read == text@,
            args_read(tokens@),
    {
        let literal = parse_string_literal(text.as_str());
        let ident = parse_identifier(text.as_str());
        let paths = parse_path_list(text.as_str());
        ListTokens { text, literal, ident, paths }
    }
}

impl View for AttributeArgs {
    type V = ArgsView;

    open spec fn view(&self) -> ArgsView {
        match self {
            AttributeArgs::Word => ArgsView::Word,
            AttributeArgs::List(tokens) => tokens@,
            AttributeArgs::NameValue => ArgsView::NameValue,
        }
    }
}

impl View for AttributeModel {
    type V = AttributeView;

    open spec fn view(&self) -> AttributeView {
        AttributeView { name: self.name@, args: self.args@ }
    }
}

/// The views of a sequence of attributes.
pub open spec fn attribute_views(attributes: Seq<AttributeModel>) -> Seq<AttributeView> {
    attributes.map_values(|attribute: AttributeModel| attribute@)
}

/// The attributes that a variant or field definition reads.
pub enum Reader {
    /// `#[code("...")]`
    Code,
    /// `#[description("...")]`
    Description,
    /// A marker without arguments, such as `#[from]` or `#[hide]`.
    Marker(&'static str),
    /// `#[caused_by]` or `#[caused_by(inception)]`
    Cause,
}

/// What one attribute yields.
pub enum Reading {
    Text(Seq<char>),
    Flag(bool),
    Present,
}

/// The path name of the attribute that `reader` reads.
pub open spec fn reader_name(reader: Reader) -> Seq<char> {
    match reader {
        Reader::Code => "code"@,
        Reader::Description => "description"@,
        Reader::Marker(name) => name@,
        Reader::Cause => "caused_by"@,
    }
}

/// The error for a second attribute of the kind that `reader` reads.
pub open spec fn duplicate_error(reader: Reader) -> DefinitionError {
    match reader {
        Reader::Code => DefinitionError::DuplicateCode,
        Reader::Description => DefinitionError::DuplicateDescription,
        Reader::Marker(name) => DefinitionError::DuplicateMarker(name),
        Reader::Cause => DefinitionError::DuplicateCause,
    }
}

/// What one attribute of the kind that `reader` reads yields, or why it is
/// rejected.
pub open spec fn read_args(reader: Reader, args: ArgsView) -> Result<Reading, DefinitionError> {
    match reader {
        Reader::Code => match args {
            ArgsView::List { literal: Some(text), .. } => if text.len() == 0 {
                Err(DefinitionError::EmptyCode)
            } else {
                Ok(Reading::Text(text))
            },
            _ => Err(DefinitionError::MalformedArguments),
        },
        Reader::Description => match args {
            ArgsView::List { literal: Some(text), .. } => Ok(Reading::Text(text)),
            _ => Err(DefinitionError::MalformedArguments),
        },
        Reader::Marker(name) => match args {
            ArgsView::Word => Ok(Reading::Present),
            _ => Err(DefinitionError::MarkerArguments(name)),
        },
        Reader::Cause => match args {
            ArgsView::Word => Ok(Reading::Flag(false)),
            ArgsView::List { ident: Some(kind), .. } => if kind == "inception"@ {
                Ok(Reading::Flag(true))
            } else {
                Err(DefinitionError::CauseKindNotInception)
            },
            ArgsView::List { ident: None, .. } => Err(DefinitionError::MalformedArguments),
            ArgsView::NameValue => Err(DefinitionError::CauseNameValue),
        },
    }
}

/// Reads and removes every attribute of the kind that `reader` reads, in
/// order: at most one may occur and it must be well formed. On success, the
/// reading (if any) and the remaining attributes in their order.
pub open spec fn take_spec(
    attributes: Seq<AttributeView>,
    reader: Reader,
    found: Option<Reading>,
) -> Result<(Option<Reading>, Seq<AttributeView>), DefinitionError>
    decreases attributes.len(),
{
    if attributes.len() == 0 {
        Ok((found, Seq::empty()))
    } else {
        let attribute = attributes[0];
        if attribute.name == reader_name(reader) {
            if found is Some {
                Err(duplicate_error(reader))
            } else {
                match read_args(reader, attribute.args) {
                    Ok(reading) => take_spec(attributes.drop_first(), reader, Some(reading)),
                    Err(error) => Err(error),
                }
            }
        } else {
            match take_spec(attributes.drop_first(), reader, found) {
                Ok((reading, rest)) => Ok((reading, seq![attribute] + rest)),
                Err(error) => Err(error),
            }
        }
    }
}

/// `outcome` with `kept` placed before its remaining attributes.
pub open spec fn after_kept(
    kept: Seq<AttributeView>,
    outcome: Result<(Option<Reading>, Seq<AttributeView>), DefinitionError>,
) -> Result<(Option<Reading>, Seq<AttributeView>), DefinitionError> {
    match outcome {
        Ok((reading, rest)) => Ok((reading, kept + rest)),
        Err(error) => Err(error),
    }
}

/// Whether two texts hold the same characters.
pub(crate) fn same_text(a: &str, b: &str) -> (same: bool)
    ensures
        same == (a@ == b@),
{
    let length = a.unicode_len();
    if length != b.unicode_len() {
        return false;
    }
    let mut index: usize = 0;
    while index < length
        invariant
            length == a@.len(),
            length == b@.len(),
            index <= length,
            forall|i: int| 0 <= i < index ==> a@[i] == b@[i],
        decreases length - index,
    {
        if a.get_char(index) != b.get_char(index) {
            return false;
        }
        index = index + 1;
    }
    assert(a@ =~= b@);
    true
}

fn reader_name_of(reader: &Reader) -> (name: &'static str)
    ensures
        name@ == reader_name(*reader),
{
    match reader {
        Reader::Code => "code",
        Reader::Description => "description",
        Reader::Marker(name) => name,
        Reader::Cause => "caused_by",
    }
}

/// What one attribute yields, in executable form.
enum Value {
    Text(String),
    Flag(bool),
    Present,
}

impl View for Value {
    type V = Reading;

    closed spec fn view(&self) -> Reading {
        match self {
            Value::Text(text) => Reading::Text(text@),
            Value::Flag(flag) => Reading::Flag(*flag),
            Value::Present => Reading::Present,
        }
    }
}

spec fn reading_of(value: Option<Value>) -> Option<Reading> {
    match value {
        Some(value) => Some(value@),
        None => None,
    }
}

fn read(reader: &Reader, args: AttributeArgs) -> (value: Result<Value, DefinitionError>)
    ensures
        match value {
            Ok(value) => read_args(*reader, args@) == Ok::<Reading, DefinitionError>(value@),
            Err(error) => read_args(*reader, args@) == Err::<Reading, DefinitionError>(error),
        },
{
    match reader {
        Reader::Code => match args {
            AttributeArgs::List(tokens) => match &tokens.literal {
                Some(text) => if text.as_str().is_empty() {
                    Err(DefinitionError::EmptyCode)
                } else {
                    Ok(Value::Text(text.clone()))
                },
                None => Err(DefinitionError::MalformedArguments),
            },
            _ => Err(DefinitionError::MalformedArguments),
        },
        Reader::Description => match args {
            AttributeArgs::List(tokens) => match &tokens.literal {
                Some(text) => Ok(Value::Text(text.clone())),
                None => Err(DefinitionError::MalformedArguments),
            },
            _ => Err(DefinitionError::MalformedArguments),
        },
        Reader::Marker(name) => match args {
            AttributeArgs::Word => Ok(Value::Present),
            _ => Err(DefinitionError::MarkerArguments(name)),
        },
        Reader::Cause => match args {
            AttributeArgs::Word => Ok(Value::Flag(false)),
            AttributeArgs::List(tokens) => match &tokens.ident {
                Some(kind) => if same_text(kind.as_str(), "inception") {
                    Ok(Value::Flag(true))
                } else {
                    Err(DefinitionError::CauseKindNotInception)
                },
                None => Err(DefinitionError::MalformedArguments),
            },
            AttributeArgs::NameValue => Err(DefinitionError::CauseNameValue),
        },
    }
}

/// Reads and removes the attributes of the kind that `reader` reads. On
/// failure the attributes are left empty.
fn take_attribute(attributes: &mut Vec<AttributeModel>, reader: Reader) -> (taken: Result<
    Option<Value>,
    DefinitionError,
>)
    ensures
        match taken {
            Ok(value) => take_spec(attribute_views(old(attributes)@), reader, None) == Ok::<
                (Option<Reading>, Seq<AttributeView>),
                DefinitionError,
            >(
                (reading_of(value), attribute_views(final(attributes)@)),
            ),
            Err(error) => take_spec(attribute_views(old(attributes)@), reader, None) == Err::<
                (Option<Reading>, Seq<AttributeView>),
                DefinitionError,
            >(error) && final(attributes)@.len() == 0,
        },
{
    let ghost all = attribute_views(attributes@);
    let mut pending = attributes.split_off(0);
    let mut retained: Vec<AttributeModel> = Vec::new();
    let mut found: Option<Value> = None;
    let name = reader_name_of(&reader);
    assert(attribute_views(pending@) =~= all);
    while pending.len() > 0
        invariant
            attributes@.len() == 0,
            all == attribute_views(old(attributes)@),
            take_spec(all, reader, None) == after_kept(
                attribute_views(retained@),
                take_spec(
                    attribute_views(pending@),
                    reader,
                    reading_of(found),
                ),
            ),
            name@ == reader_name(reader),
        decreases pending@.len(),
    {
        let ghost before = attribute_views(pending@);
        let attribute = pending.remove(0);
        assert(attribute_views(pending@) =~= before.drop_first());
        assert(before[0] == attribute@);
        if same_text(attribute.name.as_str(), name) {
            if found.is_some() {
                return Err(duplicate_error_of(&reader));
            }
            match read(&reader, attribute.args) {
                Ok(value) => {
                    found = Some(value);
                },
                Err(error) => {
                    return Err(error);
                },
            }
        } else {
            let ghost kept = attribute_views(retained@);
            retained.push(attribute);
            assert(attribute_views(retained@) =~= kept + seq![attribute@]);
            proof {
                let inner = take_spec(before.drop_first(), reader, reading_of(found));
                match inner {
                    Ok((reading, rest)) => {
                        assert(kept + (seq![attribute@] + rest) =~= (kept + seq![attribute@]) + rest);
                    },
                    Err(_) => {},
                }
            }
        }
    }
    assert(attribute_views(retained@) + Seq::empty() =~= attribute_views(retained@));
    *attributes = retained;
    Ok(found)
}

fn duplicate_error_of(reader: &Reader) -> (error: DefinitionError)
    ensures
        error == duplicate_error(*reader),
{
    match reader {
        Reader::Code => DefinitionError::DuplicateCode,
        Reader::Description => DefinitionError::DuplicateDescription,
        Reader::Marker(name) => DefinitionError::DuplicateMarker(name),
        Reader::Cause => DefinitionError::DuplicateCause,
    }
}

} // verus!

verus! {

/// Whether a reading has the form that `reader` produces.
pub open spec fn fits(reader: Reader, reading: Reading) -> bool {
    match reader {
        Reader::Code => reading is Text,
        Reader::Description => reading is Text,
        Reader::Marker(_) => reading is Present,
        Reader::Cause => reading is Flag,
    }
}

proof fn lemma_read_fits(reader: Reader, args: ArgsView)
    ensures
        read_args(reader, args) matches Ok(reading) ==> fits(reader, reading),
{
}

/// Every reading that `take_spec` yields has the form of its reader.
pub proof fn lemma_take_fits(attributes: Seq<AttributeView>, reader: Reader, found: Option<Reading>)
    requires
        found matches Some(reading) ==> fits(reader, reading),
    ensures
        take_spec(attributes, reader, found) matches Ok((Some(reading), _)) ==> fits(
            reader,
            reading,
        ),
    decreases attributes.len(),
{
    if attributes.len() > 0 {
        let attribute = attributes[0];
        lemma_read_fits(reader, attribute.args);
        if attribute.name == reader_name(reader) {
            if found is None {
                match read_args(reader, attribute.args) {
                    Ok(reading) => lemma_take_fits(attributes.drop_first(), reader, Some(reading)),
                    Err(_) => {},
                }
            }
        } else {
            lemma_take_fits(attributes.drop_first(), reader, found);
        }
    }
}

/// The text that a text reading holds.
pub open spec fn reading_text(reading: Option<Reading>) -> Option<Seq<char>> {
    match reading {
        Some(Reading::Text(text)) => Some(text),
        _ => None,
    }
}

/// The outcome of reading text attributes, as a text or an error.
pub open spec fn text_outcome(
    outcome: Result<(Option<Reading>, Seq<AttributeView>), DefinitionError>,
) -> Result<(Option<Seq<char>>, Seq<AttributeView>), DefinitionError> {
    match outcome {
        Ok((reading, rest)) => Ok((reading_text(reading), rest)),
        Err(error) => Err(error),
    }
}

fn take_text(attributes: &mut Vec<AttributeModel>, reader: Reader) -> (taken: Result<
    Option<String>,
    DefinitionError,
>)
    requires
        reader is Code || reader is Description,
    ensures
        match taken {
            Ok(text) => text_outcome(take_spec(attribute_views(old(attributes)@), reader, None))
                == Ok::<(Option<Seq<char>>, Seq<AttributeView>), DefinitionError>(
                (text.deep_view(), attribute_views(final(attributes)@)),
            ),
            Err(error) => take_spec(attribute_views(old(attributes)@), reader, None) == Err::<
                (Option<Reading>, Seq<AttributeView>),
                DefinitionError,
            >(error) && final(attributes)@.len() == 0,
        },
{
    proof {
        lemma_take_fits(attribute_views(attributes@), reader, None);
    }
    match take_attribute(attributes, reader) {
        Ok(Some(Value::Text(text))) => Ok(Some(text)),
        Ok(Some(_)) => {
            proof {
                assert(false);
            }
            Ok(None)
        },
        Ok(None) => Ok(None),
        Err(error) => Err(error),
    }
}

/// Reads and removes the variant's `#[code("...")]`. Fails on a second one,
/// on arguments that are not one string literal, and on an empty code; then
/// the attributes are left empty.
pub fn take_code(attributes: &mut Vec<AttributeModel>) -> (code: Result<
    Option<String>,
    DefinitionError,
>)
    ensures
        match code {
            Ok(code) => text_outcome(
                take_spec(attribute_views(old(attributes)@), Reader::Code, None),
            ) == Ok::<(Option<Seq<char>>, Seq<AttributeView>), DefinitionError>(
                (code.deep_view(), attribute_views(final(attributes)@)),
            ),
            Err(error) => take_spec(attribute_views(old(attributes)@), Reader::Code, None) == Err::<
                (Option<Reading>, Seq<AttributeView>),
                DefinitionError,
            >(error) && final(attributes)@.len() == 0,
        },
{
    take_text(attributes, Reader::Code)
}

/// Reads and removes the variant's `#[description("...")]`. Fails on a
/// second one and on arguments that are not one string literal; then the
/// attributes are left empty.
pub fn take_description(attributes: &mut Vec<AttributeModel>) -> (description: Result<
    Option<String>,
    DefinitionError,
>)
    ensures
        match description {
            Ok(description) => text_outcome(
                take_spec(attribute_views(old(attributes)@), Reader::Description, None),
            ) == Ok::<(Option<Seq<char>>, Seq<AttributeView>), DefinitionError>(
                (description.deep_view(), attribute_views(final(attributes)@)),
            ),
            Err(error) => take_spec(attribute_views(old(attributes)@), Reader::Description, None)
                == Err::<(Option<Reading>, Seq<AttributeView>), DefinitionError>(error)
                && final(attributes)@.len() == 0,
        },
{
    take_text(attributes, Reader::Description)
}

/// Reads and removes the marker `#[name]`, telling whether it was present.
/// Fails on a second one and on one with arguments; then the attributes are
/// left empty.
pub fn take_marker(attributes: &mut Vec<AttributeModel>, name: &'static str) -> (found: Result<
    bool,
    DefinitionError,
>)
    ensures
        match found {
            Ok(found) => take_spec(attribute_views(old(attributes)@), Reader::Marker(name), None)
                == Ok::<(Option<Reading>, Seq<AttributeView>), DefinitionError>(
                (if found {
                    Some(Reading::Present)
                } else {
                    None
                }, attribute_views(final(attributes)@)),
            ),
            Err(error) => take_spec(attribute_views(old(attributes)@), Reader::Marker(name), None)
                == Err::<(Option<Reading>, Seq<AttributeView>), DefinitionError>(error)
                && final(attributes)@.len() == 0,
        },
{
    proof {
        lemma_take_fits(attribute_views(attributes@), Reader::Marker(name), None);
    }
    match take_attribute(attributes, Reader::Marker(name)) {
        Ok(Some(Value::Present)) => Ok(true),
        Ok(Some(_)) => {
            proof {
                assert(false);
            }
            Ok(false)
        },
        Ok(None) => Ok(false),
        Err(error) => Err(error),
    }
}

/// Reads and removes the field's `#[caused_by]` (an external source:
/// `Some(false)`) or `#[caused_by(inception)]` (a nested Inception error:
/// `Some(true)`). Fails on a second one, on another kind, on other
/// arguments and on the `name = value` form; then the attributes are left
/// empty.
pub fn take_cause_marker(attributes: &mut Vec<AttributeModel>) -> (kind: Result<
    Option<bool>,
    DefinitionError,
>)
    ensures
        match kind {
            Ok(kind) => take_spec(attribute_views(old(attributes)@), Reader::Cause, None) == Ok::<
                (Option<Reading>, Seq<AttributeView>),
                DefinitionError,
            >(
                (match kind {
                    Some(nested) => Some(Reading::Flag(nested)),
                    None => None,
                }, attribute_views(final(attributes)@)),
            ),
            Err(error) => take_spec(attribute_views(old(attributes)@), Reader::Cause, None) == Err::<
                (Option<Reading>, Seq<AttributeView>),
                DefinitionError,
            >(error) && final(attributes)@.len() == 0,
        },
{
    proof {
        lemma_take_fits(attribute_views(attributes@), Reader::Cause, None);
    }
    match take_attribute(attributes, Reader::Cause) {
        Ok(Some(Value::Flag(nested))) => Ok(Some(nested)),
        Ok(Some(_)) => {
            proof {
                assert(false);
            }
            Ok(None)
        },
        Ok(None) => Ok(None),
        Err(error) => Err(error),
    }
}

} // verus!

verus! {

/// The last segment of `path` is `name`.
pub open spec fn last_is(path: Seq<Seq<char>>, name: Seq<char>) -> bool {
    path.len() > 0 && path.last() == name
}

/// The derive paths without those that name `Debug`, which every generated
/// type implements by hand.
pub open spec fn without_debug(paths: Seq<Seq<Seq<char>>>) -> Seq<Seq<Seq<char>>>
    decreases paths.len(),
{
    if paths.len() == 0 {
        Seq::empty()
    } else if last_is(paths.last(), "Debug"@) {
        without_debug(paths.drop_last())
    } else {
        without_debug(paths.drop_last()).push(paths.last())
    }
}

/// Reads and removes every `#[derive(...)]`: the derived paths other than
/// `Debug`, in order, and the remaining attributes; or the error for the
/// first derive attribute that is not a list of paths.
pub open spec fn take_derives_spec(attributes: Seq<AttributeView>) -> Result<
    (Seq<Seq<Seq<char>>>, Seq<AttributeView>),
    DefinitionError,
>
    decreases attributes.len(),
{
    if attributes.len() == 0 {
        Ok((Seq::empty(), Seq::empty()))
    } else {
        let attribute = attributes[0];
        if attribute.name == "derive"@ {
            match attribute.args {
                ArgsView::List { paths: Some(paths), .. } => match take_derives_spec(
                    attributes.drop_first(),
                ) {
                    Ok((derives, rest)) => Ok((without_debug(paths) + derives, rest)),
                    Err(error) => Err(error),
                },
                _ => Err(DefinitionError::MalformedArguments),
            }
        } else {
            match take_derives_spec(attributes.drop_first()) {
                Ok((derives, rest)) => Ok((derives, seq![attribute] + rest)),
                Err(error) => Err(error),
            }
        }
    }
}

/// `outcome` with `derives` before its derives and `kept` before its
/// remaining attributes.
pub open spec fn after_derives(
    derives: Seq<Seq<Seq<char>>>,
    kept: Seq<AttributeView>,
    outcome: Result<(Seq<Seq<Seq<char>>>, Seq<AttributeView>), DefinitionError>,
) -> Result<(Seq<Seq<Seq<char>>>, Seq<AttributeView>), DefinitionError> {
    match outcome {
        Ok((more, rest)) => Ok((derives + more, kept + rest)),
        Err(error) => Err(error),
    }
}

/// Whether the last segment of `path` is `expected`.
pub fn derive_is(path: &Vec<String>, expected: &str) -> (is: bool)
    ensures
        is == last_is(path.deep_view(), expected@),
{
    if path.len() == 0 {
        false
    } else {
        same_text(path[path.len() - 1].as_str(), expected)
    }
}

/// Reads and removes every `#[derive(...)]` of an error definition. Fails
/// on a derive attribute that is not a list of paths; then the attributes
/// are left empty.
pub fn take_derives(attributes: &mut Vec<AttributeModel>) -> (derives: Result<
    Vec<Vec<String>>,
    DefinitionError,
>)
    ensures
        match derives {
            Ok(derives) => take_derives_spec(attribute_views(old(attributes)@)) == Ok::<
                (Seq<Seq<Seq<char>>>, Seq<AttributeView>),
                DefinitionError,
            >((derives.deep_view(), attribute_views(final(attributes)@))),
            Err(error) => take_derives_spec(attribute_views(old(attributes)@)) == Err::<
                (Seq<Seq<Seq<char>>>, Seq<AttributeView>),
                DefinitionError,
            >(error) && final(attributes)@.len() == 0,
        },
{
    let ghost all = attribute_views(attributes@);
    let mut pending = attributes.split_off(0);
    let mut retained: Vec<AttributeModel> = Vec::new();
    let mut derives: Vec<Vec<String>> = Vec::new();
    assert(attribute_views(pending@) =~= all);
    assert(derives.deep_view() =~= Seq::<Seq<Seq<char>>>::empty());
    while pending.len() > 0
        invariant
            attributes@.len() == 0,
            all == attribute_views(old(attributes)@),
            take_derives_spec(all) == after_derives(
                derives.deep_view(),
                attribute_views(retained@),
                take_derives_spec(attribute_views(pending@)),
            ),
        decreases pending@.len(),
    {
        let ghost before = attribute_views(pending@);
        let attribute = pending.remove(0);
        assert(attribute_views(pending@) =~= before.drop_first());
        assert(before[0] == attribute@);
        if same_text(attribute.name.as_str(), "derive") {
            match attribute.args {
                AttributeArgs::List(tokens) => match tokens.paths {
                    Some(paths) => {
                        let ghost start = derives.deep_view();
                        let ghost listed = paths.deep_view();
                        let mut paths = paths;
                        let mut taken: usize = 0;
                        let total = paths.len();
                        while paths.len() > 0
                            invariant
                                taken + paths@.len() == total,
                                total == listed.len(),
                                paths.deep_view() =~= listed.subrange(taken as int, total as int),
                                derives.deep_view() == start + without_debug(
                                    listed.take(taken as int),
                                ),
                            decreases paths@.len(),
                        {
                            let ghost rest = paths.deep_view();
                            let ghost old_paths = paths@;
                            let path = paths.remove(0);
                            assert(rest[0] == old_paths[0].deep_view());
                            assert(rest[0] == listed[taken as int]);
                            assert(path.deep_view() == listed[taken as int]);
                            assert(paths.deep_view() =~= rest.drop_first());
                            assert(listed.take(taken + 1).drop_last() =~= listed.take(
                                taken as int,
                            ));
                            assert(listed.take(taken + 1).last() == listed[taken as int]);
                            if !derive_is(&path, "Debug") {
                                let ghost prior = derives.deep_view();
                                derives.push(path);
                                assert(derives.deep_view() =~= prior.push(path.deep_view()));
                            }
                            taken = taken + 1;
                            assert(paths.deep_view() =~= listed.subrange(taken as int, total as int));
                        }
                        assert(listed.take(total as int) =~= listed);
                        proof {
                            match take_derives_spec(before.drop_first()) {
                                Ok((more, rest)) => {
                                    assert(start + (without_debug(listed) + more) =~= (start
                                        + without_debug(listed)) + more);
                                },
                                Err(_) => {},
                            }
                        }
                    },
                    None => {
                        return Err(DefinitionError::MalformedArguments);
                    },
                },
                _ => {
                    return Err(DefinitionError::MalformedArguments);
                },
            }
        } else {
            let ghost kept = attribute_views(retained@);
            retained.push(attribute);
            assert(attribute_views(retained@) =~= kept + seq![attribute@]);
            proof {
                match take_derives_spec(before.drop_first()) {
                    Ok((more, rest)) => {
                        assert(kept + (seq![attribute@] + rest) =~= (kept + seq![attribute@])
                            + rest);
                    },
                    Err(_) => {},
                }
            }
        }
    }
    assert(derives.deep_view() + Seq::empty() =~= derives.deep_view());
    assert(attribute_views(retained@) + Seq::empty() =~= attribute_views(retained@));
    *attributes = retained;
    Ok(derives)
}

} // verus!

verus! {

/// The attributes of `attributes` whose name is not `name`, in order.
pub open spec fn others(attributes: Seq<AttributeView>, name: Seq<char>) -> Seq<AttributeView>
    decreases attributes.len(),
{
    if attributes.len() == 0 {
        Seq::empty()
    } else if attributes[0].name == name {
        others(attributes.drop_first(), name)
    } else {
        seq![attributes[0]] + others(attributes.drop_first(), name)
    }
}

/// Some attribute of `attributes` is named `name`.
pub open spec fn has_named(attributes: Seq<AttributeView>, name: Seq<char>) -> bool {
    exists|i: int| 0 <= i < attributes.len() && (#[trigger] attributes[i]).name == name
}

/// Reading an attribute kind removes exactly the attributes of that kind
/// and keeps every other attribute, in order; it yields a reading exactly
/// when such an attribute was present.
pub proof fn lemma_take_keeps_other_attributes(
    attributes: Seq<AttributeView>,
    reader: Reader,
    found: Option<Reading>,
)
    ensures
        take_spec(attributes, reader, found) matches Ok((reading, rest)) ==> {
            &&& rest == others(attributes, reader_name(reader))
            &&& (reading is Some <==> (found is Some || has_named(attributes, reader_name(reader))))
        },
    decreases attributes.len(),
{
    if attributes.len() > 0 {
        let name = reader_name(reader);
        let tail = attributes.drop_first();
        let first = attributes[0];
        assert forall|i: int| 0 <= i < tail.len() implies (#[trigger] tail[i]).name == attributes[i
            + 1].name by {}
        if has_named(tail, name) {
            let i = choose|i: int| 0 <= i < tail.len() && (#[trigger] tail[i]).name == name;
            assert(attributes[i + 1].name == name);
        }
        if first.name == name {
            assert(has_named(attributes, name)) by {
                assert(attributes[0].name == name);
            }
            if found is None {
                match read_args(reader, first.args) {
                    Ok(reading) => lemma_take_keeps_other_attributes(tail, reader, Some(reading)),
                    Err(_) => {},
                }
            }
        } else {
            lemma_take_keeps_other_attributes(tail, reader, found);
            if has_named(attributes, name) {
                let i = choose|i: int| 0 <= i < attributes.len() && (#[trigger] attributes[i]).name
                    == name;
                assert(i > 0);
                assert(tail[i - 1].name == name);
            }
        }
    }
}

/// An attribute kind may occur at most once: two attributes of the kind
/// that `reader` reads are always refused.
pub proof fn lemma_take_refuses_repeats(
    attributes: Seq<AttributeView>,
    reader: Reader,
    first: int,
    second: int,
)
    requires
        0 <= first < second < attributes.len(),
        attributes[first].name == reader_name(reader),
        attributes[second].name == reader_name(reader),
    ensures
        take_spec(attributes, reader, None) is Err,
{
    lemma_take_refuses_after_found(attributes, reader, None, first, second);
}

proof fn lemma_take_refuses_after_found(
    attributes: Seq<AttributeView>,
    reader: Reader,
    found: Option<Reading>,
    first: int,
    second: int,
)
    requires
        0 <= second < attributes.len(),
        first < second,
        attributes[second].name == reader_name(reader),
        found is Some || (0 <= first && attributes[first].name == reader_name(reader)),
    ensures
        take_spec(attributes, reader, found) is Err,
    decreases attributes.len(),
{
    let tail = attributes.drop_first();
    let name = reader_name(reader);
    if attributes[0].name == name {
        if found is None {
            match read_args(reader, attributes[0].args) {
                Ok(reading) => {
                    assert(tail[second - 1] == attributes[second]);
                    if second == 0 {
                    } else {
                        lemma_take_refuses_after_found(tail, reader, Some(reading), -1, second - 1);
                    }
                },
                Err(_) => {},
            }
        }
    } else {
        assert(second > 0);
        assert(tail[second - 1] == attributes[second]);
        if found is Some {
            lemma_take_refuses_after_found(tail, reader, found, -1, second - 1);
        } else {
            assert(first > 0);
            assert(tail[first - 1] == attributes[first]);
            lemma_take_refuses_after_found(tail, reader, found, first - 1, second - 1);
        }
    }
}

/// Every derive path listed by the `#[derive(...)]` attributes, in order.
pub open spec fn listed_derives(attributes: Seq<AttributeView>) -> Seq<Seq<Seq<char>>>
    decreases attributes.len(),
{
    if attributes.len() == 0 {
        Seq::empty()
    } else {
        let listed = if attributes[0].name == "derive"@ {
            match attributes[0].args {
                ArgsView::List { paths: Some(paths), .. } => paths,
                _ => Seq::empty(),
            }
        } else {
            Seq::empty()
        };
        listed + listed_derives(attributes.drop_first())
    }
}

/// Every `#[derive(...)]` attribute holds a list of paths.
pub open spec fn derives_are_lists(attributes: Seq<AttributeView>) -> bool {
    forall|i: int|
        0 <= i < attributes.len() && (#[trigger] attributes[i]).name == "derive"@
            ==> attributes[i].args matches ArgsView::List { paths: Some(_), .. }
}

/// A path does not name `Debug`.
pub open spec fn not_debug(path: Seq<Seq<char>>) -> bool {
    !last_is(path, "Debug"@)
}

proof fn lemma_without_debug_is_filter(paths: Seq<Seq<Seq<char>>>)
    ensures
        without_debug(paths) == paths.filter(|path: Seq<Seq<char>>| not_debug(path)),
    decreases paths.len(),
{
    reveal(Seq::filter);
    if paths.len() > 0 {
        lemma_without_debug_is_filter(paths.drop_last());
    }
}

/// Reading the derives of a definition gives every listed derive path
/// except those naming `Debug`, in order, and keeps every other attribute
/// in order; it succeeds exactly when every derive attribute is a list of
/// paths.
pub proof fn lemma_take_derives_lists_paths(attributes: Seq<AttributeView>)
    ensures
        take_derives_spec(attributes) is Ok <==> derives_are_lists(attributes),
        take_derives_spec(attributes) matches Ok((derives, rest)) ==> {
            &&& derives == listed_derives(attributes).filter(
                |path: Seq<Seq<char>>| not_debug(path),
            )
            &&& rest == others(attributes, "derive"@)
        },
    decreases attributes.len(),
{
    let pred = |path: Seq<Seq<char>>| not_debug(path);
    if attributes.len() == 0 {
        reveal(Seq::filter);
        assert(listed_derives(attributes) =~= Seq::<Seq<Seq<char>>>::empty());
    } else {
        let tail = attributes.drop_first();
        lemma_take_derives_lists_paths(tail);
        assert forall|i: int| 0 <= i < tail.len() implies #[trigger] tail[i] == attributes[i + 1] by {}
        if derives_are_lists(attributes) {
            assert forall|i: int|
                0 <= i < tail.len() && (#[trigger] tail[i]).name == "derive"@ implies tail[i].args matches ArgsView::List {
                paths: Some(_),
                ..
            } by {
                assert(attributes[i + 1].name == "derive"@);
            }
        }
        if !derives_are_lists(attributes) {
            let i = choose|i: int|
                0 <= i < attributes.len() && (#[trigger] attributes[i]).name == "derive"@
                    && !(attributes[i].args matches ArgsView::List { paths: Some(_), .. });
            if i > 0 {
                assert(tail[i - 1] == attributes[i]);
                assert(!derives_are_lists(tail));
            }
        }
        let first = attributes[0];
        if take_derives_spec(attributes) is Ok {
            let listed = listed_derives(tail);
            if first.name == "derive"@ {
                let paths = first.args->List_paths->Some_0;
                assert(listed_derives(attributes) == paths + listed);
                lemma_without_debug_is_filter(paths);
                Seq::filter_distributes_over_add(paths, listed, pred);
            } else {
                assert(listed_derives(attributes) =~= listed);
            }
        }
    }
}

/// The string given to the first attribute named `name`, if there is one
/// and it holds a string literal.
pub open spec fn given_text(attributes: Seq<AttributeView>, name: Seq<char>) -> Option<Seq<char>>
    decreases attributes.len(),
{
    if attributes.len() == 0 {
        None
    } else if attributes[0].name == name {
        match attributes[0].args {
            ArgsView::List { literal: Some(text), .. } => Some(text),
            _ => None,
        }
    } else {
        given_text(attributes.drop_first(), name)
    }
}

/// A code or description that is read is the string of its attribute.
pub proof fn lemma_take_reads_given_text(
    attributes: Seq<AttributeView>,
    reader: Reader,
    found: Option<Reading>,
)
    requires
        reader is Code || reader is Description,
    ensures
        take_spec(attributes, reader, found) matches Ok((reading, _)) ==> reading_text(reading)
            == if found is Some {
            reading_text(found)
        } else {
            given_text(attributes, reader_name(reader))
        },
    decreases attributes.len(),
{
    if attributes.len() > 0 {
        let tail = attributes.drop_first();
        if attributes[0].name == reader_name(reader) {
            if found is None {
                match read_args(reader, attributes[0].args) {
                    Ok(reading) => lemma_take_reads_given_text(tail, reader, Some(reading)),
                    Err(_) => {},
                }
            }
        } else {
            lemma_take_reads_given_text(tail, reader, found);
        }
    }
}

/// Removing the attributes named `removed` leaves the first attribute of
/// any other name where it was.
pub proof fn lemma_given_text_skips_others(
    attributes: Seq<AttributeView>,
    removed: Seq<char>,
    name: Seq<char>,
)
    requires
        removed != name,
    ensures
        given_text(others(attributes, removed), name) == given_text(attributes, name),
    decreases attributes.len(),
{
    if attributes.len() > 0 {
        let tail = attributes.drop_first();
        lemma_given_text_skips_others(tail, removed, name);
        if attributes[0].name != removed {
            let kept = seq![attributes[0]] + others(tail, removed);
            assert(kept[0] == attributes[0]);
            assert(kept.drop_first() =~= others(tail, removed));
        }
    }
}

/// Without an attribute of the kind that `reader` reads, reading changes
/// nothing and yields what was already found.
pub proof fn lemma_take_absent(attributes: Seq<AttributeView>, reader: Reader, found: Option<Reading>)
    requires
        !has_named(attributes, reader_name(reader)),
    ensures
        take_spec(attributes, reader, found) == Ok::<
            (Option<Reading>, Seq<AttributeView>),
            DefinitionError,
        >((found, attributes)),
        others(attributes, reader_name(reader)) == attributes,
    decreases attributes.len(),
{
    if attributes.len() > 0 {
        let tail = attributes.drop_first();
        assert(attributes[0].name != reader_name(reader));
        assert(!has_named(tail, reader_name(reader))) by {
            if has_named(tail, reader_name(reader)) {
                let i = choose|i: int| 0 <= i < tail.len() && (#[trigger] tail[i]).name == reader_name(reader);
                assert(attributes[i + 1] == tail[i]);
            }
        }
        lemma_take_absent(tail, reader, found);
        assert(seq![attributes[0]] + tail =~= attributes);
    } else {
        assert(others(attributes, reader_name(reader)) =~= attributes);
    }
}

/// With exactly one attribute of the kind that `reader` reads, reading
/// yields what that attribute's arguments are read as, and keeps every other
/// attribute in order; or fails as those arguments do.
pub proof fn lemma_take_single(attributes: Seq<AttributeView>, reader: Reader, index: int)
    requires
        0 <= index < attributes.len(),
        attributes[index].name == reader_name(reader),
        forall|j: int|
            0 <= j < attributes.len() && j != index ==> (#[trigger] attributes[j]).name
                != reader_name(reader),
    ensures
        take_spec(attributes, reader, None) == match read_args(reader, attributes[index].args) {
            Ok(reading) => Ok::<(Option<Reading>, Seq<AttributeView>), DefinitionError>(
                (Some(reading), others(attributes, reader_name(reader))),
            ),
            Err(error) => Err(error),
        },
    decreases attributes.len(),
{
    let name = reader_name(reader);
    let tail = attributes.drop_first();
    assert forall|j: int| 0 <= j < tail.len() implies #[trigger] tail[j] == attributes[j + 1] by {}
    if index == 0 {
        assert(!has_named(tail, name)) by {
            if has_named(tail, name) {
                let j = choose|j: int| 0 <= j < tail.len() && (#[trigger] tail[j]).name == name;
                assert(attributes[j + 1].name == name);
            }
        }
        match read_args(reader, attributes[0].args) {
            Ok(reading) => lemma_take_absent(tail, reader, Some(reading)),
            Err(_) => {},
        }
        lemma_take_absent(tail, reader, None);
    } else {
        assert(attributes[0].name != name);
        assert forall|j: int| 0 <= j < tail.len() && j != index - 1 implies (#[trigger] tail[j]).name
            != name by {
            assert(attributes[j + 1].name != name);
        }
        lemma_take_single(tail, reader, index - 1);
    }
}

/// How one attribute's arguments are read, where their text is plain:
/// `#[code("c")]` gives `c` unless it is empty, `#[description("d")]` gives
/// `d`, a marker takes no arguments, and `#[caused_by]` or
/// `#[caused_by(inception)]` tell an external cause from a nested one; any
/// other form is refused with its own error.
pub proof fn lemma_read_plain_arguments(reader: Reader, args: ArgsView)
    requires
        args_read(args),
    ensures
        reader is Code ==> match args {
            ArgsView::List { text, .. } => {
                &&& plain_string_literal(text) ==> read_args(reader, args) == if literal_value(
                    text,
                ).len() == 0 {
                    Err::<Reading, DefinitionError>(DefinitionError::EmptyCode)
                } else {
                    Ok(Reading::Text(literal_value(text)))
                }
                &&& plain_identifier(text) || text.len() == 0 ==> read_args(reader, args) == Err::<
                    Reading,
                    DefinitionError,
                >(DefinitionError::MalformedArguments)
            },
            _ => read_args(reader, args) == Err::<Reading, DefinitionError>(
                DefinitionError::MalformedArguments,
            ),
        },
        reader is Description ==> match args {
            ArgsView::List { text, .. } => {
                &&& plain_string_literal(text) ==> read_args(reader, args) == Ok::<
                    Reading,
                    DefinitionError,
                >(Reading::Text(literal_value(text)))
                &&& plain_identifier(text) || text.len() == 0 ==> read_args(reader, args) == Err::<
                    Reading,
                    DefinitionError,
                >(DefinitionError::MalformedArguments)
            },
            _ => read_args(reader, args) == Err::<Reading, DefinitionError>(
                DefinitionError::MalformedArguments,
            ),
        },
        reader matches Reader::Marker(name) ==> read_args(reader, args) == if args is Word {
            Ok::<Reading, DefinitionError>(Reading::Present)
        } else {
            Err(DefinitionError::MarkerArguments(name))
        },
        reader is Cause ==> match args {
            ArgsView::Word => read_args(reader, args) == Ok::<Reading, DefinitionError>(
                Reading::Flag(false),
            ),
            ArgsView::List { text, .. } => {
                &&& text == "inception"@ ==> read_args(reader, args) == Ok::<
                    Reading,
                    DefinitionError,
                >(Reading::Flag(true))
                &&& plain_identifier(text) && text != "inception"@ ==> read_args(reader, args)
                    == Err::<Reading, DefinitionError>(DefinitionError::CauseKindNotInception)
                &&& plain_string_literal(text) || text.len() == 0 ==> read_args(reader, args)
                    == Err::<Reading, DefinitionError>(DefinitionError::MalformedArguments)
            },
            ArgsView::NameValue => read_args(reader, args) == Err::<Reading, DefinitionError>(
                DefinitionError::CauseNameValue,
            ),
        },
{
    lemma_option_words_are_plain();
}

/// Removing the attributes named `removed` keeps every attribute of another
/// name.
pub proof fn lemma_others_keep_names(attributes: Seq<AttributeView>, removed: Seq<char>, name: Seq<char>)
    requires
        removed != name,
    ensures
        has_named(others(attributes, removed), name) <==> has_named(attributes, name),
    decreases attributes.len(),
{
    if attributes.len() > 0 {
        let tail = attributes.drop_first();
        lemma_others_keep_names(tail, removed, name);
        assert forall|j: int| 0 <= j < tail.len() implies #[trigger] tail[j] == attributes[j + 1] by {}
        if has_named(tail, name) {
            let j = choose|j: int| 0 <= j < tail.len() && (#[trigger] tail[j]).name == name;
            assert(attributes[j + 1].name == name);
        }
        if has_named(attributes, name) {
            let j = choose|j: int| 0 <= j < attributes.len() && (#[trigger] attributes[j]).name == name;
            if j > 0 {
                assert(tail[j - 1].name == name);
            }
        }
        if attributes[0].name != removed {
            let kept = seq![attributes[0]] + others(tail, removed);
            assert forall|j: int| 0 <= j < others(tail, removed).len() implies #[trigger] kept[j + 1]
                == others(tail, removed)[j] by {}
            if has_named(kept, name) {
                let j = choose|j: int| 0 <= j < kept.len() && (#[trigger] kept[j]).name == name;
                if j > 0 {
                    assert(others(tail, removed)[j - 1].name == name);
                }
            }
            if has_named(others(tail, removed), name) {
                let j = choose|j: int| 0 <= j < others(tail, removed).len() && (#[trigger] others(tail, removed)[j]).name == name;
                assert(kept[j + 1].name == name);
            }
            if attributes[0].name == name {
                assert(kept[0].name == name);
            }
        }
    }
}

/// A `#[derive(...)]` attribute read from a written list of plain paths.
pub open spec fn derives_written(attribute: AttributeView) -> bool {
    &&& args_read(attribute.args)
    &&& attribute.args matches ArgsView::List { text, .. } && exists|
        written: Seq<WrittenPath>,
        spaced: bool,
        trailing: bool,
    |
        plain_paths(written) && (trailing ==> written.len() > 0) && text == #[trigger] path_list_text(
            written,
            spaced,
            trailing,
        )
}

/// The derives of a definition whose every `#[derive(...)]` lists plain
/// paths (such as `#[derive(Clone, PartialEq, Eq)]`) are accepted: they are
/// the listed paths without `Debug`, in order.
pub proof fn lemma_written_derives_accepted(attributes: Seq<AttributeView>)
    requires
        forall|i: int|
            0 <= i < attributes.len() && (#[trigger] attributes[i]).name == "derive"@
                ==> derives_written(attributes[i]),
    ensures
        take_derives_spec(attributes) matches Ok((derives, rest)) && derives == listed_derives(
            attributes,
        ).filter(|path: Seq<Seq<char>>| not_debug(path)) && rest == others(attributes, "derive"@),
{
    assert forall|i: int|
        0 <= i < attributes.len() && (#[trigger] attributes[i]).name == "derive"@ implies attributes[i].args matches ArgsView::List {
        paths: Some(_),
        ..
    } by {
        assert(derives_written(attributes[i]));
        let text = attributes[i].args->List_text;
        let (written, spaced, trailing) = choose|
            written: Seq<WrittenPath>,
            spaced: bool,
            trailing: bool,
        |
            plain_paths(written) && (trailing ==> written.len() > 0) && text == #[trigger] path_list_text(
                written,
                spaced,
                trailing,
            );
        assert(attributes[i].args->List_paths == Some(path_segments(written)));
    }
    lemma_take_derives_lists_paths(attributes);
}

} // verus!
