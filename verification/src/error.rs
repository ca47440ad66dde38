//! The one error that a compile can end in.

use crate::engine::EngineError;
use vstd::prelude::*;

verus! {

/// Why a compile failed: the stage that gave up, with its words.
#[derive(Debug, Clone, PartialEq, Eq)]
pub enum CompileError {
    /// The CSS text does not parse.
    Parse(String),
    /// The rewrite pass met something that it cannot rewrite.
    Visit(String),
    /// The engine could not minify the style sheet.
    Minify(String),
    /// The engine could not print the style sheet.
    Print(String),
    /// A file could not be read, or an import could not be resolved.
    Bundle(String),
    /// The rules for the host element, put together again, did not compile.
    /// Holds the message of the failure.
    Host(String),
}

/// The words in front of a stage's message.
pub open spec fn stage_tag(e: CompileError) -> Seq<char> {
    match e {
        CompileError::Parse(_) => "Parse error: "@,
        CompileError::Visit(_) => "Visit error: "@,
        CompileError::Minify(_) => "Minify error: "@,
        CompileError::Print(_) => "Print error: "@,
        CompileError::Bundle(_) => "BundleErrorKind: "@,
        CompileError::Host(_) => "Host CSS error: "@,
    }
}

/// The words that the stage gave.
pub open spec fn detail(e: CompileError) -> Seq<char> {
    match e {
        CompileError::Parse(d) => d@,
        CompileError::Visit(d) => d@,
        CompileError::Minify(d) => d@,
        CompileError::Print(d) => d@,
        CompileError::Bundle(d) => d@,
        CompileError::Host(d) => d@,
    }
}

/// The message of an error: the stage's tag, then the stage's words.
pub open spec fn message_text(e: CompileError) -> Seq<char> {
    stage_tag(e) + detail(e)
}

/// The message of an engine failure in the main style sheet.
pub open spec fn engine_message(e: EngineError) -> Seq<char> {
    match e {
        EngineError::Parse(d) => "Parse error: "@ + d@,
        EngineError::Minify(d) => "Minify error: "@ + d@,
        EngineError::Print(d) => "Print error: "@ + d@,
    }
}

/// Whether `error` is the failure `e` of the engine, met in the main style
/// sheet: the same stage with the same words.
pub open spec fn is_main_failure(error: CompileError, e: EngineError) -> bool {
    match e {
        EngineError::Parse(d) => error matches CompileError::Parse(got) && got@ == d@,
        EngineError::Minify(d) => error matches CompileError::Minify(got) && got@ == d@,
        EngineError::Print(d) => error matches CompileError::Print(got) && got@ == d@,
    }
}

/// Whether `error` is the failure `e` of the engine, met in the rules for
/// the host element: a host error that holds the message that `e` would
/// have in the main style sheet.
pub open spec fn is_host_failure(error: CompileError, e: EngineError) -> bool {
    error matches CompileError::Host(got) && got@ == engine_message(e)
}

impl CompileError {
    /// The message of this error.
    pub fn message(&self) -> (text: String)
        ensures
            text@ == message_text(*self),
    {
        match self {
            CompileError::Parse(d) => tagged("Parse error: ", d),
            CompileError::Visit(d) => tagged("Visit error: ", d),
            CompileError::Minify(d) => tagged("Minify error: ", d),
            CompileError::Print(d) => tagged("Print error: ", d),
            CompileError::Bundle(d) => tagged("BundleErrorKind: ", d),
            CompileError::Host(d) => tagged("Host CSS error: ", d),
        }
    }

    /// The error for a failure of the engine in the main style sheet.
    pub fn from_engine(e: EngineError) -> (error: CompileError)
        ensures
            is_main_failure(error, e),
            message_text(error) == engine_message(e),
    {
        match e {
            EngineError::Parse(d) => CompileError::Parse(d),
            EngineError::Minify(d) => CompileError::Minify(d),
            EngineError::Print(d) => CompileError::Print(d),
        }
    }

    /// The error for a failure of the engine in the rules for the host
    /// element.
    pub fn from_engine_in_host(e: EngineError) -> (error: CompileError)
        ensures
            is_host_failure(error, e),
    {
        let inner = CompileError::from_engine(e);
        CompileError::Host(inner.message())
    }
}

/// `tag` followed by `words`.
fn tagged(tag: &str, words: &String) -> (text: String)
    ensures
        text@ == tag@ + words@,
{
    let mut text = String::from_str(tag);
    text.append(words.as_str());
    text
}

} // verus!
