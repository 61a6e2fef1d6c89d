//! Names of the items generated for an error definition.
use vstd::prelude::*;
use vstd::string::StrSliceExecFns;

use crate::text::push_char;

verus! {

/// An ASCII uppercase letter.
pub open spec fn is_upper(c: char) -> bool {
    'A' <= c <= 'Z'
}

/// The lowercase form of an ASCII uppercase letter.
pub open spec fn lower(c: char) -> char {
    ((c as u32) + 32) as char
}

/// What one character of a name becomes in snake case: an uppercase letter
/// becomes its lowercase form, preceded by `_` unless it is the first
/// character; every other character stays.
pub open spec fn snake_piece(c: char, first: bool) -> Seq<char> {
    if is_upper(c) {
        if first {
            seq![lower(c)]
        } else {
            seq!['_', lower(c)]
        }
    } else {
        seq![c]
    }
}

/// The snake-case form of a camel-case name.
pub open spec fn snake_case(name: Seq<char>) -> Seq<char>
    decreases name.len(),
{
    if name.len() == 0 {
        Seq::empty()
    } else {
        snake_case(name.drop_last()) + snake_piece(name.last(), name.len() == 1)
    }
}

/// Converts a camel-case name to snake case (`ProviderUnavailable` becomes
/// `provider_unavailable`).
#[must_use]
pub fn to_snake_case(value: &str) -> (snake: String)
    ensures
        snake@ == snake_case(value@),
{
    let length = value.unicode_len();
    let mut output = String::new();
    let mut index: usize = 0;
    while index < length
        invariant
            length == value@.len(),
            index <= length,
            output@ == snake_case(value@.take(index as int)),
        decreases length - index,
    {
        let character = value.get_char(index);
        let ghost prefix = value@.take(index + 1);
        assert(prefix.drop_last() =~= value@.take(index as int));
        assert(prefix.last() == character);
        if 'A' <= character && character <= 'Z' {
            if index > 0 {
                push_char(&mut output, '_');
            }
            let lowered = ((character as u8) + 32) as char;
            assert(lowered == lower(character));
            push_char(&mut output, lowered);
        } else {
            push_char(&mut output, character);
        }
        assert(output@ =~= snake_case(prefix));
        index = index + 1;
    }
    assert(value@.take(length as int) =~= value@);
    output
}

} // verus!

verus! {

/// A name in snake case holds no ASCII uppercase letter.
pub proof fn lemma_snake_case_has_no_uppercase(name: Seq<char>)
    ensures
        forall|i: int| 0 <= i < snake_case(name).len() ==> !is_upper(#[trigger] snake_case(name)[i]),
    decreases name.len(),
{
    if name.len() > 0 {
        lemma_snake_case_has_no_uppercase(name.drop_last());
        let head = snake_case(name.drop_last());
        let piece = snake_piece(name.last(), name.len() == 1);
        assert forall|i: int| 0 <= i < snake_case(name).len() implies !is_upper(
            #[trigger] snake_case(name)[i],
        ) by {
            if i >= head.len() {
                assert(snake_case(name)[i] == piece[i - head.len()]);
            } else {
                assert(snake_case(name)[i] == head[i]);
            }
        }
    }
}

/// A name without uppercase letters is its own snake case.
pub proof fn lemma_snake_case_keeps_lowercase(name: Seq<char>)
    requires
        forall|i: int| 0 <= i < name.len() ==> !is_upper(#[trigger] name[i]),
    ensures
        snake_case(name) == name,
    decreases name.len(),
{
    if name.len() > 0 {
        let rest = name.drop_last();
        assert forall|i: int| 0 <= i < rest.len() implies !is_upper(#[trigger] rest[i]) by {
            assert(rest[i] == name[i]);
        }
        lemma_snake_case_keeps_lowercase(rest);
        assert(!is_upper(name[name.len() - 1]));
        assert(rest.push(name.last()) =~= name);
    }
}

/// Converting to snake case twice changes nothing more than converting once.
pub proof fn lemma_snake_case_idempotent(name: Seq<char>)
    ensures
        snake_case(snake_case(name)) == snake_case(name),
{
    lemma_snake_case_has_no_uppercase(name);
    lemma_snake_case_keeps_lowercase(snake_case(name));
}

/// The number of uppercase letters of `name` after its first character.
pub open spec fn inner_uppercase_count(name: Seq<char>) -> nat
    decreases name.len(),
{
    if name.len() == 0 {
        0
    } else if name.len() > 1 && is_upper(name.last()) {
        inner_uppercase_count(name.drop_last()) + 1
    } else {
        inner_uppercase_count(name.drop_last())
    }
}

/// Snake case adds one `_` for every uppercase letter after the first
/// character and nothing else; it starts with `_` exactly when the name
/// does, and its first character is the name's own, lowered.
pub proof fn lemma_snake_case_shape(name: Seq<char>)
    ensures
        snake_case(name).len() == name.len() + inner_uppercase_count(name),
        name.len() > 0 ==> snake_case(name)[0] == (if is_upper(name[0]) {
            lower(name[0])
        } else {
            name[0]
        }),
        name.len() > 0 ==> (snake_case(name)[0] == '_' <==> name[0] == '_'),
    decreases name.len(),
{
    if name.len() > 0 {
        let rest = name.drop_last();
        lemma_snake_case_shape(rest);
        if name.len() > 1 {
            assert(rest[0] == name[0]);
            assert(snake_case(name)[0] == snake_case(rest)[0]);
        }
        if is_upper(name[0]) {
            let code = name[0] as u32;
            assert(65 <= code <= 90);
            assert(lower(name[0]) as u32 == code + 32);
        }
    }
}

/// `a` followed by `b`, as a new string.
fn concat(a: &str, b: &str) -> (joined: String)
    ensures
        joined@ == a@ + b@,
{
    let mut joined = String::from_str(a);
    joined.append(b);
    joined
}

/// The name of the exhaustive kind enum generated for error `name`.
pub open spec fn kind_name_text(name: Seq<char>) -> Seq<char> {
    name + "Kind"@
}

/// The code used for a variant without `#[code(...)]`: `Error.Variant`.
pub open spec fn default_code_text(error: Seq<char>, variant: Seq<char>) -> Seq<char> {
    error + seq!['.'] + variant
}

/// The prefix of the hidden constructors that `locate_err!` calls.
pub open spec fn locate_err_prefix() -> Seq<char> {
    "__inception_locate_err_"@
}

/// The name of the builder type for a named variant.
pub open spec fn builder_type_text(error: Seq<char>, variant: Seq<char>) -> Seq<char> {
    error + variant + "Builder"@
}

/// The name of the method that starts a builder for a named variant.
pub open spec fn builder_method_text(variant: Seq<char>) -> Seq<char> {
    snake_case(variant) + "_builder"@
}

/// The name of the kind enum generated for error `name`: `<name>Kind`.
#[must_use]
pub fn kind_name(name: &str) -> (kind: String)
    ensures
        kind@ == kind_name_text(name@),
{
    concat(name, "Kind")
}

/// The code of a variant without `#[code(...)]`: `Error.Variant`.
#[must_use]
pub fn default_code(error: &str, variant: &str) -> (code: String)
    ensures
        code@ == default_code_text(error@, variant@),
{
    let mut code = String::from_str(error);
    push_char(&mut code, '.');
    code.append(variant);
    assert(code@ =~= default_code_text(error@, variant@));
    code
}

/// The name of the constructor generated for a variant.
#[must_use]
pub fn constructor_name(variant: &str) -> (name: String)
    ensures
        name@ == snake_case(variant@),
{
    to_snake_case(variant)
}

/// The name of the hidden constructor that `locate_err!` calls for a
/// variant.
#[must_use]
pub fn locate_err_method_name(variant: &str) -> (name: String)
    ensures
        name@ == locate_err_prefix() + snake_case(variant@),
{
    let snake = constructor_name(variant);
    concat("__inception_locate_err_", snake.as_str())
}

/// The name of the builder type generated for a named variant.
#[must_use]
pub fn builder_type_name(error: &str, variant: &str) -> (name: String)
    ensures
        name@ == builder_type_text(error@, variant@),
{
    let mut name = concat(error, variant);
    name.append("Builder");
    assert(name@ =~= builder_type_text(error@, variant@));
    name
}

/// The name of the method that starts the builder of a named variant.
#[must_use]
pub fn builder_method_name(variant: &str) -> (name: String)
    ensures
        name@ == builder_method_text(variant@),
{
    let snake = constructor_name(variant);
    concat(snake.as_str(), "_builder")
}

} // verus!
