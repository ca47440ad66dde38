use style_compiler::engine::EngineError;
use style_compiler::error::CompileError;

#[test]
fn every_stage_has_its_tag() {
    assert_eq!(CompileError::Parse("x".to_string()).message(), "Parse error: x");
    assert_eq!(CompileError::Visit("x".to_string()).message(), "Visit error: x");
    assert_eq!(CompileError::Minify("x".to_string()).message(), "Minify error: x");
    assert_eq!(CompileError::Print("x".to_string()).message(), "Print error: x");
    assert_eq!(CompileError::Bundle("x".to_string()).message(), "BundleErrorKind: x");
    assert_eq!(CompileError::Host("x".to_string()).message(), "Host CSS error: x");
    assert_eq!(CompileError::Parse(String::new()).message(), "Parse error: ");
}

#[test]
fn engine_failures_keep_their_stage() {
    assert_eq!(
        CompileError::from_engine(EngineError::Parse("p".to_string())),
        CompileError::Parse("p".to_string())
    );
    assert_eq!(
        CompileError::from_engine(EngineError::Minify("m".to_string())),
        CompileError::Minify("m".to_string())
    );
    assert_eq!(
        CompileError::from_engine(EngineError::Print("q".to_string())),
        CompileError::Print("q".to_string())
    );
}

#[test]
fn engine_failures_in_host_css_are_host_errors() {
    assert_eq!(
        CompileError::from_engine_in_host(EngineError::Parse("p".to_string())),
        CompileError::Host("Parse error: p".to_string())
    );
    assert_eq!(
        CompileError::from_engine_in_host(EngineError::Print("q".to_string())).message(),
        "Host CSS error: Print error: q"
    );
}
