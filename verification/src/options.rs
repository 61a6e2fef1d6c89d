//! The options of the error-definition attribute.
use vstd::prelude::*;

use crate::attributes::same_text;
use crate::diagnostic::DefinitionError;
use crate::syntax::{
    lemma_option_words_are_plain, parse_identifier, plain_identifier, plain_string_literal,
    simple_ascii, trim_spaces,
};

verus! {

/// Whether serialization is requested, given whether the options are empty
/// and the identifier that they were read as.
pub open spec fn options_spec(empty: bool, identifier: Option<Seq<char>>) -> Result<
    bool,
    DefinitionError,
> {
    if empty {
        Ok(false)
    } else {
        match identifier {
            Some(identifier) => if identifier == "serde"@ {
                Ok(true)
            } else {
                Err(DefinitionError::OnlySerdeOption)
            },
            None => Err(DefinitionError::MalformedOptions),
        }
    }
}

/// Decides the options from whether they are empty and from the identifier
/// that they were read as: none means no serialization, `serde` requests
/// it, anything else is refused.
pub fn options_from(empty: bool, identifier: Option<String>) -> (serialize: Result<
    bool,
    DefinitionError,
>)
    ensures
        serialize == options_spec(empty, identifier.deep_view()),
{
    if empty {
        return Ok(false);
    }
    match identifier {
        Some(identifier) => if same_text(identifier.as_str(), "serde") {
            Ok(true)
        } else {
            Err(DefinitionError::OnlySerdeOption)
        },
        None => Err(DefinitionError::MalformedOptions),
    }
}

/// What holds of the options read from `arguments`, whichever lexer syn
/// used. No options mean no serialization and `serde` (between spaces)
/// requests it; another identifier is refused as such, and other plain text
/// (`serde json`, `serde,`, `1`) as malformed options. What non-ASCII text
/// is read as depends on syn's lexer; it is refused unless it reads as
/// `serde`.
pub open spec fn options_read(arguments: Seq<char>, options: Result<bool, DefinitionError>) -> bool {
    &&& arguments.len() == 0 ==> options == Ok::<bool, DefinitionError>(false)
    &&& arguments == "serde"@ ==> options == Ok::<bool, DefinitionError>(true)
    &&& plain_identifier(arguments) && arguments != "serde"@ ==> options == Err::<
        bool,
        DefinitionError,
    >(DefinitionError::OnlySerdeOption)
    &&& plain_string_literal(arguments) ==> options == Err::<bool, DefinitionError>(
        DefinitionError::MalformedOptions,
    )
    &&& arguments.len() > 0 && trim_spaces(arguments) == "serde"@ ==> options == Ok::<
        bool,
        DefinitionError,
    >(true)
    &&& plain_identifier(trim_spaces(arguments)) && trim_spaces(arguments) != "serde"@
        ==> options == Err::<bool, DefinitionError>(DefinitionError::OnlySerdeOption)
    &&& arguments.len() > 0 && simple_ascii(arguments) && !plain_identifier(trim_spaces(arguments))
        ==> options == Err::<bool, DefinitionError>(DefinitionError::MalformedOptions)
    &&& arguments.len() > 0 ==> exists|identifier: Option<Seq<char>>|
        options == #[trigger] options_spec(false, identifier)
}

/// Reads the options of the error-definition attribute, given as the text
/// of its tokens: whether the generated types also derive `Serialize`.
pub fn parse_error_options(arguments: &str) -> (serialize: Result<bool, DefinitionError>)
    ensures
        options_read(arguments@, serialize),
{
    if arguments.is_empty() {
        proof {
            reveal_strlit("serde");
        }
        return Ok(false);
    }
    proof {
        lemma_option_words_are_plain();
    }
    let identifier = parse_identifier(arguments);
    let ghost read = identifier.deep_view();
    let serialize = options_from(false, identifier);
    assert(serialize == options_spec(false, read));
    serialize
}

} // verus!
