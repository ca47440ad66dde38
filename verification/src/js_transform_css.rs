//! The transform as the host language calls it.

use crate::transform_css::TransformCssOptions;
use vstd::prelude::*;

verus! {

/// The result of a transform.
#[derive(Debug, Clone, PartialEq, Eq)]
pub struct JSTransformCSSResult {
    /// The printed style sheet.
    pub code: String,
}

/// What the host language hands to a transform.
#[derive(Debug, Clone, PartialEq, Eq)]
pub struct JSTransformCssOptions {
    /// The CSS text.
    pub input: String,
    /// Whether white space is left out of the output; not at all where this
    /// is not given.
    pub minify: Option<bool>,
}

impl Default for JSTransformCssOptions {
    /// No text, and nothing said about white space.
    fn default() -> (options: JSTransformCssOptions)
        ensures
            options.input@ == Seq::<char>::empty(),
            options.minify is None,
    {
        JSTransformCssOptions { input: String::new(), minify: None }
    }
}

/// Whether `options` is what a transform works with, given what the host
/// language handed over: the text that was given, or none; white space left
/// out only where that was asked for.
pub open spec fn is_transform_options(
    options: TransformCssOptions,
    given: Option<JSTransformCssOptions>,
) -> bool {
    match given {
        Some(js) => options.input == js.input && options.minify == (js.minify == Some(true)),
        None => options.input@ == Seq::<char>::empty() && !options.minify,
    }
}

/// The options of a transform, given what the host language handed over.
pub fn transform_options(option: Option<JSTransformCssOptions>) -> (options: TransformCssOptions)
    ensures
        is_transform_options(options, option),
{
    let option = match option {
        Some(given) => given,
        None => JSTransformCssOptions::default(),
    };
    let minify = match option.minify {
        Some(minify) => minify,
        None => false,
    };
    TransformCssOptions { input: option.input, minify }
}

/// The result of a transform as the host language gets it.
pub fn transform_result(code: String) -> (result: JSTransformCSSResult)
    ensures
        result.code == code,
{
    JSTransformCSSResult { code }
}

} // verus!
