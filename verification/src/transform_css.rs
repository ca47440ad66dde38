//! Minifying a style sheet without rewriting it.

use crate::engine::{engine_output, minify_and_print, outcome_view, EngineError};
use crate::options::{get_minify_options, get_parser_options, target_browsers, CompileTargets};
use vstd::prelude::*;

verus! {

/// What to transform, and how to print it.
#[derive(Debug, Clone, PartialEq, Eq)]
pub struct TransformCssOptions {
    /// The CSS text.
    pub input: String,
    /// Whether white space is left out of the output.
    pub minify: bool,
}

/// What a failed transform reports: for a text that does not parse, the
/// engine's words behind `CSS parsing error:: `; for any later failure, the
/// engine's words as they are.
pub open spec fn transform_failure(e: EngineError) -> Seq<char> {
    match e {
        EngineError::Parse(detail) => "CSS parsing error:: "@ + detail@,
        EngineError::Minify(detail) => detail@,
        EngineError::Print(detail) => detail@,
    }
}

/// What a transform returns, given what the engine returned.
pub open spec fn transform_result(outcome: Result<String, EngineError>) -> Result<
    Seq<char>,
    Seq<char>,
> {
    match outcome {
        Ok(code) => Ok(code@),
        Err(e) => Err(transform_failure(e)),
    }
}

/// The views of a result of strings.
pub open spec fn result_text(r: Result<String, String>) -> Result<Seq<char>, Seq<char>> {
    match r {
        Ok(code) => Ok(code@),
        Err(message) => Err(message@),
    }
}

/// Turns what the engine returned into what the transform returns.
pub fn transform_outcome(outcome: Result<String, EngineError>) -> (r: Result<String, String>)
    ensures
        result_text(r) == transform_result(outcome),
{
    match outcome {
        Ok(code) => Ok(code),
        Err(EngineError::Parse(detail)) => {
            let mut message = String::from_str("CSS parsing error:: ");
            message.append(detail.as_str());
            Err(message)
        },
        Err(EngineError::Minify(detail)) => Err(detail),
        Err(EngineError::Print(detail)) => Err(detail),
    }
}

/// Parses `options.input`, minifies it for the targets of every compile and
/// prints it, with or without white space: returns what the engine prints,
/// or its failure as `transform_failure` words it.
pub fn transform_css(options: TransformCssOptions) -> (r: Result<String, String>)
    ensures
        exists|outcome: Result<String, EngineError>|
            outcome_view(outcome) == engine_output(
                options.input@,
                false,
                (CompileTargets { browsers: Some(target_browsers()) }),
                options.minify,
            ) && result_text(r) == transform_result(outcome),
{
    let outcome = minify_and_print(
        options.input.as_str(),
        get_parser_options().error_recovery,
        &get_minify_options().targets,
        options.minify,
    );
    transform_outcome(outcome)
}

} // verus!
