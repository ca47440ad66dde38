//! Printer options for older browsers.

use crate::options::{no_browsers, BrowserVersions, PrinterOptions, CompileTargets};
use vstd::prelude::*;

verus! {

/// Safari and Safari on iOS from 11, Android from 6 and Chrome from 55, each
/// given by its bare number.
pub open spec fn legacy_browsers() -> BrowserVersions {
    BrowserVersions { safari: Some(11), ios_saf: Some(11), android: Some(6), chrome: Some(55), ..no_browsers() }
}

/// Minified output for the older browsers.
pub fn get_printer_options() -> (options: PrinterOptions)
    ensures
        options == (PrinterOptions {
            minify: true,
            targets: CompileTargets { browsers: Some(legacy_browsers()) },
        }),
{
    PrinterOptions {
        minify: true,
        targets: CompileTargets {
            browsers: Some(
                BrowserVersions {
                    android: Some(6),
                    chrome: Some(55),
                    edge: None,
                    firefox: None,
                    ie: None,
                    ios_saf: Some(11),
                    opera: None,
                    safari: Some(11),
                    samsung: None,
                },
            ),
        },
    }
}

} // verus!
