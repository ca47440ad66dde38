use style_compiler::engine::EngineError;
use style_compiler::js_transform_css::{
    transform_options, transform_result, JSTransformCSSResult, JSTransformCssOptions,
};
use style_compiler::transform_css::{transform_css, transform_outcome, TransformCssOptions};

#[test]
fn test_transform_css_minify_true() {
    let options = TransformCssOptions {
        input: ".c {\n  color: green;\n  backdrop-filter: blur(2px);\n  background-image: url(//abc.ttt.com/abc?adfsd%3F=1231);\n}\n"
            .parse()
            .unwrap(),
        minify: false,
    };

    let result = transform_css(options).unwrap();
    assert_eq!(result, ".c {\n  color: green;\n  -webkit-backdrop-filter: blur(2px);\n  backdrop-filter: blur(2px);\n  background-image: url(\"//abc.ttt.com/abc?adfsd%3F=1231\");\n}\n")
}

#[test]
fn test_transform_css_minify_false() {
    let options = TransformCssOptions {
        input: "body { color: red; .a { color: blue } }".to_string(),
        minify: false,
    };

    let result = transform_css(options).unwrap();
    assert_eq!(result, "body {\n  color: red;\n}\n\nbody .a {\n  color: #00f;\n}\n")
}

#[test]
fn test_transform_css_invalid_input() {
    let options = TransformCssOptions { input: "invalid-css".to_string(), minify: true };

    let result = transform_css(options);
    assert!(result.is_err());
    if let Err(e) = result {
        assert_eq!(e.to_string(), "CSS parsing error:: Unexpected end of input at :0:12");
    }
}

#[test]
fn test_transform_css_empty_input() {
    let options = TransformCssOptions { input: "".to_string(), minify: true };

    let result = transform_css(options).unwrap();
    assert_eq!(result, "")
}

#[test]
fn test_transform_css_complex_input() {
    let options = TransformCssOptions {
        input: "h1 { font-size: 20px; } p { margin: 10px; }".to_string(),
        minify: true,
    };

    let result = transform_css(options).unwrap();
    assert_eq!(result, "h1{font-size:20px}p{margin:10px}")
}

#[test]
fn transform_reports_as_the_stage_asks() {
    assert_eq!(transform_outcome(Ok("a{}".to_string())), Ok("a{}".to_string()));
    assert_eq!(
        transform_outcome(Err(EngineError::Parse("bad".to_string()))),
        Err("CSS parsing error:: bad".to_string())
    );
    assert_eq!(
        transform_outcome(Err(EngineError::Minify("bad".to_string()))),
        Err("bad".to_string())
    );
    assert_eq!(transform_outcome(Err(EngineError::Print("bad".to_string()))), Err("bad".to_string()));
}

#[test]
fn transform_options_default_to_no_text_and_no_minifying() {
    assert_eq!(transform_options(None), TransformCssOptions { input: String::new(), minify: false });
    assert_eq!(
        JSTransformCssOptions::default(),
        JSTransformCssOptions { input: String::new(), minify: None }
    );
}

#[test]
fn transform_options_follow_what_was_given() {
    let given = |minify| Some(JSTransformCssOptions { input: "a{}".to_string(), minify });
    assert_eq!(
        transform_options(given(None)),
        TransformCssOptions { input: "a{}".to_string(), minify: false }
    );
    assert_eq!(
        transform_options(given(Some(false))),
        TransformCssOptions { input: "a{}".to_string(), minify: false }
    );
    assert_eq!(
        transform_options(given(Some(true))),
        TransformCssOptions { input: "a{}".to_string(), minify: true }
    );
}

#[test]
fn transform_result_holds_the_code() {
    assert_eq!(transform_result("a{}".to_string()), JSTransformCSSResult { code: "a{}".to_string() });
}
