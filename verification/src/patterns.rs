//! Regular expressions of the `regex` crate, and file patterns of the `ignore` crate.

use vstd::prelude::*;

verus! {

/// A compiled regular expression of the `regex` crate.
#[verifier::external_type_specification]
#[verifier::external_body]
pub struct ExRegex(regex::Regex);

/// The message with which `regex::Regex::new` refuses a pattern, where it does.
pub uninterp spec fn regex_error(pattern: Seq<char>) -> Option<Seq<char>>;

/// Whether the expression that `regex::Regex::new` makes of a pattern matches somewhere in a
/// text.
pub uninterp spec fn regex_matches(pattern: Seq<char>, text: Seq<char>) -> bool;

/// Whether an expression matches somewhere in a text, as `regex::Regex::is_match` says.
pub uninterp spec fn expression_matches(expression: regex::Regex, text: Seq<char>) -> bool;

/// Whether an expression is the one of a pattern.
pub open spec fn is_expression_of(expression: regex::Regex, pattern: Seq<char>) -> bool {
    forall|t: Seq<char>|
        #[trigger] expression_matches(expression, t) == regex_matches(pattern, t)
}

/// `regex::Regex::new`: the expression of a pattern, or the message of the error. Nothing is
/// claimed of which patterns compile and which texts an expression matches.
#[verifier::external_body]
pub(crate) fn compile(pattern: &str) -> (r: Result<regex::Regex, String>)
    ensures
        match r {
            Ok(e) => regex_error(pattern@) is None && forall|t: Seq<char>|
                #[trigger] expression_matches(e, t) == regex_matches(pattern@, t),
            Err(m) => regex_error(pattern@) == Some(m@),
        },
{
    regex::Regex::new(pattern).map_err(|e| e.to_string())
}

/// `regex::Regex::is_match`.
#[verifier::external_body]
pub(crate) fn matches_in(expression: &regex::Regex, text: &str) -> (r: bool)
    ensures
        r == expression_matches(*expression, text@),
{
    expression.is_match(text)
}

/// A selection of files of the `ignore` crate.
#[verifier::external_type_specification]
#[verifier::external_body]
pub struct ExTypes(ignore::types::Types);

/// The message with which the `ignore` crate refuses a file pattern, where it does.
pub uninterp spec fn glob_error(glob: Seq<char>) -> Option<Seq<char>>;

/// The pattern of the files that a selection takes.
pub uninterp spec fn selected_glob(types: ignore::types::Types) -> Seq<char>;

/// `ignore::types::TypesBuilder`: the selection of the files whose names match one pattern,
/// or the message of the error. Which names match is left to the walk that is given the
/// selection.
#[verifier::external_body]
pub(crate) fn select_files(glob: &str) -> (r: Result<ignore::types::Types, String>)
    ensures
        match r {
            Ok(t) => glob_error(glob@) is None && selected_glob(t) == glob@,
            Err(m) => glob_error(glob@) == Some(m@),
        },
{
    let mut builder = ignore::types::TypesBuilder::new();
    builder.add("g", glob).map_err(|e| e.to_string())?;
    builder.select("g");
    builder.build().map_err(|e| e.to_string())
}

} // verus!
