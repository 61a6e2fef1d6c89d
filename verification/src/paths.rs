//! Call-site expressions: which error a `locate!` expression builds, and
//! the paths that the call-site macros rewrite.
use vstd::prelude::*;

use crate::diagnostic::DefinitionError;
use crate::naming::{locate_err_method_name, locate_err_prefix, snake_case};
use crate::syntax::{
    call_site_read, call_text, parse_call_site, path_text, plain_argument, plain_identifier, plain_path,
    shape_view, struct_text, WrittenPath,
};

verus! {

/// The shape of the expression given to a call-site macro, by the paths
/// that it names (each path by its segments).
pub enum ExprShape {
    /// `a::b::C`
    Path(Vec<String>),
    /// `a::b::C { ... }`
    Struct(Vec<String>),
    /// `f(...)`, with the callee's path when the callee is a path.
    Call(Option<Vec<String>>),
    /// Any other expression.
    Other,
}

/// The mathematical content of an [`ExprShape`].
pub enum ExprView {
    Path(Seq<Seq<char>>),
    Struct(Seq<Seq<char>>),
    Call(Option<Seq<Seq<char>>>),
    Other,
}

impl View for ExprShape {
    type V = ExprView;

    open spec fn view(&self) -> ExprView {
        match self {
            ExprShape::Path(path) => ExprView::Path(path.deep_view()),
            ExprShape::Struct(path) => ExprView::Struct(path.deep_view()),
            ExprShape::Call(callee) => ExprView::Call(callee.deep_view()),
            ExprShape::Other => ExprView::Other,
        }
    }
}

/// The path of the error type named by a variant path: all segments but
/// the last.
pub open spec fn error_path_spec(path: Seq<Seq<char>>) -> Result<Seq<Seq<char>>, DefinitionError> {
    if path.len() < 2 {
        Err(DefinitionError::LocateRequiresQualifiedPath)
    } else {
        Ok(path.drop_last())
    }
}

/// A variant path of the error rewritten to the same variant of its kind
/// enum: `Kind` is appended to the segment before the variant.
pub open spec fn kind_path(path: Seq<Seq<char>>) -> Seq<Seq<char>> {
    path.update(path.len() - 2, path[path.len() - 2] + "Kind"@)
}

/// The error path and the rewritten expression for a `locate!` argument
/// that constructs a variant.
pub open spec fn rewrite_as_kind_spec(expression: ExprView) -> Result<
    (Seq<Seq<char>>, ExprView),
    DefinitionError,
> {
    match expression {
        ExprView::Path(path) => match error_path_spec(path) {
            Ok(error) => Ok((error, ExprView::Path(kind_path(path)))),
            Err(e) => Err(e),
        },
        ExprView::Struct(path) => match error_path_spec(path) {
            Ok(error) => Ok((error, ExprView::Struct(kind_path(path)))),
            Err(e) => Err(e),
        },
        ExprView::Call(Some(path)) => match error_path_spec(path) {
            Ok(error) => Ok((error, ExprView::Call(Some(kind_path(path))))),
            Err(e) => Err(e),
        },
        ExprView::Call(None) => Err(DefinitionError::LocateExpectsConstructor),
        ExprView::Other => Err(DefinitionError::LocateExpectsVariant),
    }
}

/// Whether `locate!` builds a generated error's variant (rather than
/// capturing an ordinary error): a struct literal, or a path of at least two
/// segments.
pub open spec fn builds_variant(expression: ExprView) -> bool {
    match expression {
        ExprView::Struct(_) => true,
        ExprView::Path(path) => path.len() >= 2,
        _ => false,
    }
}

/// The path of the hidden constructor that `locate_err!` calls for a
/// variant path.
pub open spec fn locate_err_path_spec(expression: ExprView) -> Result<
    Seq<Seq<char>>,
    DefinitionError,
> {
    match expression {
        ExprView::Path(path) => if path.len() < 2 {
            Err(DefinitionError::LocateErrExpectsQualifiedPath)
        } else {
            Ok(path.drop_last().push(locate_err_prefix() + snake_case(path.last())))
        },
        _ => Err(DefinitionError::LocateErrExpectsPath),
    }
}

/// The first `count` segments of `path`, copied.
pub(crate) fn copy_segments(path: &Vec<String>, count: usize) -> (copy: Vec<String>)
    requires
        count <= path@.len(),
    ensures
        copy.deep_view() == path.deep_view().take(count as int),
{
    let mut copy: Vec<String> = Vec::new();
    let mut index: usize = 0;
    while index < count
        invariant
            index <= count <= path@.len(),
            copy.deep_view() == path.deep_view().take(index as int),
        decreases count - index,
    {
        let ghost before = copy.deep_view();
        let segment = path[index].clone();
        copy.push(segment);
        assert(copy.deep_view() =~= path.deep_view().take(index + 1)) by {
            assert(copy.deep_view() =~= before.push(segment@));
        }
        index = index + 1;
    }
    copy
}

/// The path of the error type that a variant path names.
pub fn error_path(variant_path: &Vec<String>) -> (error: Result<Vec<String>, DefinitionError>)
    ensures
        match error {
            Ok(error) => error_path_spec(variant_path.deep_view()) == Ok::<
                Seq<Seq<char>>,
                DefinitionError,
            >(error.deep_view()),
            Err(e) => error_path_spec(variant_path.deep_view()) == Err::<
                Seq<Seq<char>>,
                DefinitionError,
            >(e),
        },
{
    if variant_path.len() < 2 {
        return Err(DefinitionError::LocateRequiresQualifiedPath);
    }
    let error = copy_segments(variant_path, variant_path.len() - 1);
    assert(variant_path.deep_view().take(variant_path@.len() - 1) =~= variant_path.deep_view().drop_last());
    Ok(error)
}

/// Rewrites a variant path of an error to the same variant of its kind
/// enum. A path of fewer than two segments is left unchanged and refused.
pub fn rewrite_variant_path(path: &mut Vec<String>) -> (rewritten: Result<(), DefinitionError>)
    ensures
        match rewritten {
            Ok(()) => old(path)@.len() >= 2 && final(path).deep_view() == kind_path(old(path).deep_view()),
            Err(e) => old(path)@.len() < 2 && e == DefinitionError::ExpectedErrorVariant
                && final(path)@ == old(path)@,
        },
{
    let length = path.len();
    if length < 2 {
        return Err(DefinitionError::ExpectedErrorVariant);
    }
    let mut segment = path.remove(length - 2);
    segment.append("Kind");
    path.insert(length - 2, segment);
    assert(path.deep_view() =~= kind_path(old(path).deep_view()));
    Ok(())
}

/// Splits a `locate!` argument that constructs a variant into the error's
/// path and the same constructor on the kind enum.
pub fn rewrite_as_kind(expression: ExprShape) -> (rewritten: Result<
    (Vec<String>, ExprShape),
    DefinitionError,
>)
    ensures
        match rewritten {
            Ok((error, kind)) => rewrite_as_kind_spec(expression@) == Ok::<
                (Seq<Seq<char>>, ExprView),
                DefinitionError,
            >((error.deep_view(), kind@)),
            Err(e) => rewrite_as_kind_spec(expression@) == Err::<
                (Seq<Seq<char>>, ExprView),
                DefinitionError,
            >(e),
        },
{
    match expression {
        ExprShape::Path(path) => {
            let error = error_path(&path)?;
            let mut path = path;
            let _ = rewrite_variant_path(&mut path);
            Ok((error, ExprShape::Path(path)))
        },
        ExprShape::Struct(path) => {
            let error = error_path(&path)?;
            let mut path = path;
            let _ = rewrite_variant_path(&mut path);
            Ok((error, ExprShape::Struct(path)))
        },
        ExprShape::Call(Some(path)) => {
            let error = error_path(&path)?;
            let mut path = path;
            let _ = rewrite_variant_path(&mut path);
            Ok((error, ExprShape::Call(Some(path))))
        },
        ExprShape::Call(None) => Err(DefinitionError::LocateExpectsConstructor),
        ExprShape::Other => Err(DefinitionError::LocateExpectsVariant),
    }
}

/// What a `locate!` (or `bail!`) expression builds.
pub enum Construction {
    /// A variant of a generated error: the error's path and the kind
    /// expression to wrap with the call site.
    Variant { error_path: Vec<String>, kind_expression: ExprShape },
    /// An ordinary error, captured as an `Inceptioned` layer.
    External,
}

/// `construction` is what an expression of shape `expression` builds: the
/// variant of a generated error, by its error path and kind expression, for
/// a struct literal or a path of at least two segments (or why it cannot be
/// rewritten); an ordinary error to capture otherwise.
pub open spec fn constructs(
    expression: ExprView,
    construction: Result<Construction, DefinitionError>,
) -> bool {
    &&& builds_variant(expression) ==> match construction {
        Ok(Construction::Variant { error_path, kind_expression }) => rewrite_as_kind_spec(
            expression,
        ) == Ok::<(Seq<Seq<char>>, ExprView), DefinitionError>(
            (error_path.deep_view(), kind_expression@),
        ),
        Ok(Construction::External) => false,
        Err(e) => rewrite_as_kind_spec(expression) == Err::<
            (Seq<Seq<char>>, ExprView),
            DefinitionError,
        >(e),
    }
    &&& !builds_variant(expression) ==> construction matches Ok(Construction::External)
}

/// Decides what a `locate!` expression builds: a struct literal or a path of
/// at least two segments builds the variant of a generated error; anything
/// else is an ordinary error to capture.
pub fn expand_constructor(expression: ExprShape) -> (construction: Result<
    Construction,
    DefinitionError,
>)
    ensures
        constructs(expression@, construction),
{
    let variant = match &expression {
        ExprShape::Struct(_) => true,
        ExprShape::Path(path) => path.len() >= 2,
        _ => false,
    };
    if variant {
        let (error_path, kind_expression) = rewrite_as_kind(expression)?;
        Ok(Construction::Variant { error_path, kind_expression })
    } else {
        Ok(Construction::External)
    }
}

/// The path of the hidden constructor that `locate_err!` calls: the
/// variant path with its last segment replaced by the constructor's name.
pub fn locate_err_path(expression: ExprShape) -> (path: Result<Vec<String>, DefinitionError>)
    ensures
        match path {
            Ok(path) => locate_err_path_spec(expression@) == Ok::<
                Seq<Seq<char>>,
                DefinitionError,
            >(path.deep_view()),
            Err(e) => locate_err_path_spec(expression@) == Err::<Seq<Seq<char>>, DefinitionError>(
                e,
            ),
        },
{
    match expression {
        ExprShape::Path(path) => {
            let mut path = path;
            if path.len() == 0 {
                return Err(DefinitionError::LocateErrExpectsQualifiedPath);
            }
            let ghost original = path.deep_view();
            let variant = path.pop().unwrap();
            if path.len() == 0 {
                return Err(DefinitionError::LocateErrExpectsQualifiedPath);
            }
            let method = locate_err_method_name(variant.as_str());
            path.push(method);
            assert(path.deep_view() =~= original.drop_last().push(
                locate_err_prefix() + snake_case(original.last()),
            ));
            Ok(path)
        },
        _ => Err(DefinitionError::LocateErrExpectsPath),
    }
}

/// A path result by its segments.
pub open spec fn path_outcome(path: Result<Vec<String>, DefinitionError>) -> Result<
    Seq<Seq<char>>,
    DefinitionError,
> {
    match path {
        Ok(path) => Ok(path.deep_view()),
        Err(e) => Err(e),
    }
}

/// The constructor path that `locate_err!` calls for an argument read as
/// `shape`; tokens that are no expression are refused.
pub open spec fn locate_err_call_spec(shape: Option<ExprView>) -> Result<
    Seq<Seq<char>>,
    DefinitionError,
> {
    match shape {
        Some(expression) => locate_err_path_spec(expression),
        None => Err(DefinitionError::MalformedExpression),
    }
}

/// Reads the argument of `locate_err!` from its text and decides the hidden
/// constructor that it calls. A written variant path of plain identifiers
/// (`ExternalError::Io`) gives that path with the variant replaced by its
/// constructor's name.
pub fn locate_err_call(text: &str) -> (method: Result<Vec<String>, DefinitionError>)
    ensures
        exists|shape: Option<ExprView>|
            call_site_read(text@, shape) && path_outcome(method) == #[trigger] locate_err_call_spec(
                shape,
            ),
        forall|path: WrittenPath, spaced: bool|
            plain_path(path) && text@ == #[trigger] path_text(path, spaced) ==> path_outcome(method)
                == locate_err_path_spec(ExprView::Path(path.segments)),
{
    let shape = parse_call_site(text);
    let ghost read = shape_view(shape);
    let method = match shape {
        Some(expression) => locate_err_path(expression),
        None => Err(DefinitionError::MalformedExpression),
    };
    assert(path_outcome(method) == locate_err_call_spec(read));
    method
}

/// What the argument of `locate!` builds, read as `shape`: tokens that are
/// no expression are refused.
pub open spec fn constructs_from(
    shape: Option<ExprView>,
    construction: Result<Construction, DefinitionError>,
) -> bool {
    match shape {
        Some(expression) => constructs(expression, construction),
        None => construction matches Err(DefinitionError::MalformedExpression),
    }
}

/// Reads the argument of `locate!` (or `bail!`) from its text and decides
/// what it builds. A written variant path, call or struct literal of plain
/// identifiers builds that variant; other written expressions, such as a
/// call of a one-segment path, are ordinary errors to capture.
pub fn construct_call(text: &str) -> (construction: Result<Construction, DefinitionError>)
    ensures
        exists|shape: Option<ExprView>|
            call_site_read(text@, shape) && #[trigger] constructs_from(shape, construction),
        forall|path: WrittenPath, spaced: bool|
            plain_path(path) && text@ == #[trigger] path_text(path, spaced) ==> constructs(
                ExprView::Path(path.segments),
                construction,
            ),
        forall|path: WrittenPath, spaced: bool, argument: Seq<char>|
            plain_path(path) && plain_argument(argument) && text@ == #[trigger] call_text(
                path,
                spaced,
                argument,
            ) ==> constructs(ExprView::Call(Some(path.segments)), construction),
        forall|path: WrittenPath, spaced: bool, field: Seq<char>, value: Seq<char>|
            plain_path(path) && plain_identifier(field) && plain_argument(value) && value.len() > 0
                && text@ == #[trigger] struct_text(path, spaced, field, value) ==> constructs(
                ExprView::Struct(path.segments),
                construction,
            ),
{
    let shape = parse_call_site(text);
    let ghost read = shape_view(shape);
    let construction = match shape {
        Some(expression) => expand_constructor(expression),
        None => Err(DefinitionError::MalformedExpression),
    };
    assert(constructs_from(read, construction));
    construction
}

} // verus!

verus! {

/// Rewriting a variant path to its kind keeps the variant and every segment
/// before the error's, and renames only the error's segment to its kind
/// enum; the error path is what precedes the variant.
pub proof fn lemma_kind_path_keeps_variant(path: Seq<Seq<char>>)
    requires
        path.len() >= 2,
    ensures
        kind_path(path).len() == path.len(),
        kind_path(path).last() == path.last(),
        kind_path(path)[path.len() - 2] == crate::naming::kind_name_text(path[path.len() - 2]),
        forall|i: int| 0 <= i < path.len() - 2 ==> #[trigger] kind_path(path)[i] == path[i],
        error_path_spec(path) == Ok::<Seq<Seq<char>>, DefinitionError>(path.drop_last()),
        error_path_spec(path) matches Ok(error) && error.last() == path[path.len() - 2],
{
}

/// `locate_err!` accepts exactly the paths of at least two segments, and
/// calls the path with its last segment, the variant, replaced by
/// `__inception_locate_err_` and the variant's name in snake case.
pub proof fn lemma_locate_err_replaces_variant(path: Seq<Seq<char>>)
    ensures
        locate_err_path_spec(ExprView::Path(path)) is Ok <==> path.len() >= 2,
        locate_err_path_spec(ExprView::Path(path)) matches Ok(method) ==> {
            &&& method.len() == path.len()
            &&& forall|i: int| 0 <= i < path.len() - 1 ==> #[trigger] method[i] == path[i]
            &&& method.last() == "__inception_locate_err_"@ + snake_case(path.last())
        },
{
}

} // verus!
