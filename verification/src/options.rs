//! The options that every compile hands to the CSS engine.

use vstd::prelude::*;

verus! {

/// The oldest version of each browser that the output has to work in, in the
/// engine's numbering (see `version`). `None`: the browser is no target.
#[derive(Clone, Copy, Debug, PartialEq, Eq, Structural)]
pub struct BrowserVersions {
    pub android: Option<u32>,
    pub chrome: Option<u32>,
    pub edge: Option<u32>,
    pub firefox: Option<u32>,
    pub ie: Option<u32>,
    pub ios_saf: Option<u32>,
    pub opera: Option<u32>,
    pub safari: Option<u32>,
    pub samsung: Option<u32>,
}

/// The browsers to compile for.
#[derive(Clone, Copy, Debug, PartialEq, Eq, Structural)]
pub struct CompileTargets {
    pub browsers: Option<BrowserVersions>,
}

/// How a style sheet is printed.
#[derive(Clone, Copy, Debug, PartialEq, Eq, Structural)]
pub struct PrinterOptions {
    /// Whether white space is left out.
    pub minify: bool,
    pub targets: CompileTargets,
}

/// How a style sheet is parsed.
#[derive(Clone, Copy, Debug, PartialEq, Eq, Structural)]
pub struct ParserOptions {
    /// Whether rules and declarations that do not parse are skipped rather
    /// than reported.
    pub error_recovery: bool,
}

/// How a style sheet is minified.
#[derive(Clone, Copy, Debug, PartialEq, Eq, Structural)]
pub struct MinifyOptions {
    pub targets: CompileTargets,
}

/// The engine's number for the version `major`.0.0 of a browser.
pub open spec fn version(major: int) -> int {
    major * 65536
}

/// No browser at all.
pub open spec fn no_browsers() -> BrowserVersions {
    BrowserVersions {
        android: None,
        chrome: None,
        edge: None,
        firefox: None,
        ie: None,
        ios_saf: None,
        opera: None,
        safari: None,
        samsung: None,
    }
}

/// The browsers that every compile targets: Safari from 13 and Chrome from
/// 55.
pub open spec fn target_browsers() -> BrowserVersions {
    BrowserVersions { safari: Some(version(13) as u32), chrome: Some(version(55) as u32), ..no_browsers() }
}

/// The engine's number for the version `major`.0.0 of a browser.
pub fn major_version(major: u32) -> (v: u32)
    requires
        major < 65536,
    ensures
        v == version(major as int),
{
    assert(major << 16 == major * 65536) by (bit_vector)
        requires
            major < 65536,
    ;
    major << 16
}

/// The targets of every compile.
pub fn get_targets() -> (targets: CompileTargets)
    ensures
        targets == (CompileTargets { browsers: Some(target_browsers()) }),
{
    CompileTargets {
        browsers: Some(
            BrowserVersions {
                android: None,
                chrome: Some(major_version(55)),
                edge: None,
                firefox: None,
                ie: None,
                ios_saf: None,
                opera: None,
                safari: Some(major_version(13)),
                samsung: None,
            },
        ),
    }
}

/// Minified output for the targets of every compile.
pub fn get_printer_options() -> (options: PrinterOptions)
    ensures
        options == (PrinterOptions {
            minify: true,
            targets: CompileTargets { browsers: Some(target_browsers()) },
        }),
{
    PrinterOptions { minify: true, targets: get_targets() }
}

/// The engine's default way of parsing: errors are reported.
pub fn get_parser_options() -> (options: ParserOptions)
    ensures
        options == (ParserOptions { error_recovery: false }),
{
    ParserOptions { error_recovery: false }
}

/// Minifying for the targets of every compile.
pub fn get_minify_options() -> (options: MinifyOptions)
    ensures
        options == (MinifyOptions { targets: CompileTargets { browsers: Some(target_browsers()) } }),
{
    MinifyOptions { targets: get_targets() }
}

} // verus!
