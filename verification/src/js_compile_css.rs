//! The result of a bundle as it is handed to the host language.

use crate::compile_css::{CompileResult, ImportEntry, ImportEntryView};
use crate::error::{message_text, CompileError};
use crate::text::views;
use vstd::prelude::*;

verus! {

/// The result of a bundle.
#[derive(Debug, Clone, PartialEq, Eq)]
pub struct JSCompileResult {
    /// The bundled style sheet, printed.
    pub css: String,
    /// Every file that was read, once, in the order of the first read.
    pub dependencies: Vec<String>,
    /// For every file that imports something, what its imports resolved to.
    pub imports: Vec<ImportEntry>,
}

/// What a failed bundle reports: the message of the error behind `Error: `.
pub open spec fn failure_text(error: CompileError) -> Seq<char> {
    "Error: "@ + message_text(error)
}

/// Whether `r` is what the host language gets for `result`: the same style
/// sheet, files and imports, or the report of the failure.
pub open spec fn is_js_result(
    r: Result<JSCompileResult, String>,
    result: Result<CompileResult, CompileError>,
) -> bool {
    match result {
        Ok(compiled) => r matches Ok(got) && got.css == compiled.css && got.dependencies
            == compiled.dependencies && got.imports == compiled.imports,
        Err(error) => r matches Err(text) && text@ == failure_text(error),
    }
}

/// Hands the result of a bundle to the host language.
pub fn js_compile_result(result: Result<CompileResult, CompileError>) -> (r: Result<
    JSCompileResult,
    String,
>)
    ensures
        is_js_result(r, result),
{
    match result {
        Ok(compiled) => Ok(
            JSCompileResult {
                css: compiled.css,
                dependencies: compiled.dependencies,
                imports: compiled.imports,
            },
        ),
        Err(error) => {
            let mut text = String::from_str("Error: ");
            text.append(error.message().as_str());
            Err(text)
        },
    }
}

} // verus!
