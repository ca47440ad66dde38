//! The calls into the CSS engine.

use crate::engine::EngineError::{Minify, Parse, Print};
use crate::options::CompileTargets;
use lightningcss::stylesheet::{MinifyOptions, ParserOptions, PrinterOptions, StyleSheet};
use lightningcss::targets::{Browsers, Targets};
use vstd::prelude::*;

verus! {

/// Why the engine gave no output: the stage that failed, with the engine's
/// own words.
#[derive(Debug, Clone, PartialEq, Eq)]
pub enum EngineError {
    Parse(String),
    Minify(String),
    Print(String),
}

/// What the engine makes of a style sheet: the text `code` parsed (with or
/// without skipping what does not parse), minified for `targets` and printed
/// for them, with or without white space. Either the printed text, or the
/// stage that failed (0 for parsing, 1 for minifying, 2 for printing) with
/// the engine's words.
pub uninterp spec fn engine_output(
    code: Seq<char>,
    error_recovery: bool,
    targets: CompileTargets,
    minify: bool,
) -> Result<Seq<char>, (int, Seq<char>)>;

/// What came back from the engine, apart from how its strings are stored.
pub open spec fn outcome_view(r: Result<String, EngineError>) -> Result<Seq<char>, (int, Seq<char>)> {
    match r {
        Ok(code) => Ok(code@),
        Err(EngineError::Parse(words)) => Err((0int, words@)),
        Err(EngineError::Minify(words)) => Err((1int, words@)),
        Err(EngineError::Print(words)) => Err((2int, words@)),
    }
}

/// `StyleSheet::parse`, `StyleSheet::minify` and `StyleSheet::to_css` in a
/// row on one sheet, with the engine's `Targets::from` for the browsers:
/// what the engine prints for the text under the options, or the stage that
/// failed with the engine's words.
#[verifier::external_body]
pub(crate) fn minify_and_print(
    code: &str,
    error_recovery: bool,
    targets: &CompileTargets,
    minify: bool,
) -> (r: Result<String, EngineError>)
    ensures
        outcome_view(r) == engine_output(code@, error_recovery, *targets, minify),
{
    let targets = Targets::from(targets.browsers.map(|b| Browsers {
        android: b.android, chrome: b.chrome, edge: b.edge, firefox: b.firefox, ie: b.ie,
        ios_saf: b.ios_saf, opera: b.opera, safari: b.safari, samsung: b.samsung
    }));
    let options = ParserOptions { error_recovery, ..Default::default() };
    let mut sheet = StyleSheet::parse(code, options).map_err(|e| Parse(e.to_string()))?;
    sheet.minify(MinifyOptions { targets, ..Default::default() }).map_err(|e| Minify(e.to_string()))?;
    let printer = PrinterOptions { minify, targets, ..Default::default() };
    sheet.to_css(printer).map(|printed| printed.code).map_err(|e| Print(e.to_string()))
}

} // verus!
