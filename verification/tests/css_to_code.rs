use lazy_regex::regex::Captures;
use lazy_regex::Regex;
use md5::{Digest, Md5};
use style_compiler::css_to_code::{
    css_to_code, generate_output, import_declaration, process_host_text, process_text,
    Css2CodeOptions,
};
use style_compiler::escape::json_escape;

const HEAD: &str = "export default function styleFactory(options) {\n  var prefix = options.prefix || '';\n  var tag = options.tag || function (tag) { return tag; };\n  var rpx = options.rpx;\n  var host = options.host || 'host-placeholder';\n  var css = [\"";

const TAIL: &str = "\", \"\"].join(\"\");\n  \n  return css;\n}";

fn factory(css_code: &str) -> String {
    format!("{}{}{}", HEAD, css_code, TAIL)
}

fn compile(css: &str) -> String {
    css_to_code(Css2CodeOptions { css, host_css: None })
}

fn hex_md5(input: &str) -> String {
    let mut hasher = Md5::new();
    hasher.update(input.as_bytes());
    format!("{:x}", hasher.finalize())
}

/// The four substitutions written with regular expressions.
fn with_regexes(escaped: &str, imports: bool) -> String {
    let prefix = Regex::new(r"__PREFIX__").unwrap();
    let host = Regex::new(r"__HOST__").unwrap();
    let rpx = Regex::new(r#"\\"__RPX__\(([^)]+)\)\\""#).unwrap();
    let import = Regex::new(r#"\@import-style \(\\"([^\)]+)\\"\);"#).unwrap();
    let text = prefix.replace_all(escaped, r#"" , prefix , ""#).into_owned();
    let text = host.replace_all(&text, r#"'" , host , "'"#).into_owned();
    let text = rpx
        .replace_all(&text, |caps: &Captures<'_>| format!(r#"" , rpx({}) , "px"#, &caps[1]))
        .into_owned();
    if !imports {
        return text;
    }
    import
        .replace_all(&text, |caps: &Captures<'_>| {
            format!(r#"" , I_{}(options) , ""#, hex_md5(&caps[1]))
        })
        .into_owned()
}

#[test]
fn test_keep_is_prefix() {
    let css = r#".__PREFIX__h5-blockquote:not(:is(:lang(ae),:lang(yi))){margin-left:"__RPX__(40)";margin-right:"__RPX__(40)"}"#;
    let options = Css2CodeOptions { css, host_css: None };
    let output = css_to_code(options);

    assert_eq!(
        output.trim(),
        "export default function styleFactory(options) {\n  var prefix = options.prefix || '';\n  var tag = options.tag || function (tag) { return tag; };\n  var rpx = options.rpx;\n  var host = options.host || 'host-placeholder';\n  var css = [\".\" , prefix , \"h5-blockquote:not(:is(:lang(ae),:lang(yi))){margin-left:\" , rpx(40) , \"px;margin-right:\" , rpx(40) , \"px}\", \"\"].join(\"\");\n  \n  return css;\n}"
    );
}

#[test]
fn test_two_prefix() {
    let css = r#".__PREFIX__a{width:"__RPX__(100)"}.__PREFIX__b{height:"__RPX__(50)"}"#;
    let host_css = r#"[is=__HOST__]{color:#000;width:"__RPX__(100)";height:"__RPX__(20)"}"#;
    let options = Css2CodeOptions { css, host_css: Some(host_css) };
    let output = css_to_code(options);

    assert_eq!(
        output.trim(),
        "export default function styleFactory(options) {\n  var prefix = options.prefix || '';\n  var tag = options.tag || function (tag) { return tag; };\n  var rpx = options.rpx;\n  var host = options.host || 'host-placeholder';\n  var css = [\".\" , prefix , \"a{width:\" , rpx(100) , \"px}.\" , prefix , \"b{height:\" , rpx(50) , \"px}\", \"\"].join(\"\");\n  var hostStyleText = [\"[is='\" , host , \"']{color:#000;width:\" , rpx(100) , \"px;height:\" , rpx(20) , \"px}\", \"\"].join(\"\");\nif (options.hostStyle) {\n    options.hostStyle(hostStyleText);\n} else {\n    css = hostStyleText + css;\n}\n  return css;\n}"
    );
}

#[test]
fn test_host_css() {
    let input = r#"[is=__HOST__]{color:#fff}"#;
    let options = Css2CodeOptions { css: input, host_css: None };
    let output = css_to_code(options);

    assert_eq!(output.trim(), factory("[is='\" , host , \"']{color:#fff}"));
}

#[test]
fn test_import_style() {
    let input = r#"@import-style ("./a.css");"#;
    let options = Css2CodeOptions { css: input, host_css: None };
    let output = css_to_code(options);

    assert_eq!(
        output.trim(),
        format!(
            "import I_f3cea1431258782941feb3c71a992799 from \"./a.css\";\n{}",
            factory("\" , I_f3cea1431258782941feb3c71a992799(options) , \"")
        )
    );
}

#[test]
fn test_empty_css() {
    let options = Css2CodeOptions { css: "", host_css: None };
    let output = css_to_code(options);
    assert_eq!(output.trim(), factory(""));
}

#[test]
fn test_special_chars() {
    let css = r#".foo{content:"a\"b\\c\nd"}"#;
    let options = Css2CodeOptions { css, host_css: None };
    let output = css_to_code(options);
    assert_eq!(
        output.trim(),
        factory(r#".foo{content:\"a\\\"b\\\\c\\nd\"}"#)
    );
}

#[test]
fn output_needs_no_trimming() {
    let output = compile(".a{color:red}");
    assert_eq!(output, output.trim());
    let output = compile("@import-style (\"x\");");
    assert_eq!(output, output.trim());
}

#[test]
fn escape_quote_backslash_and_line_break() {
    assert_eq!(json_escape("a\"b"), "a\\\"b");
    assert_eq!(json_escape("a\\b"), "a\\\\b");
    assert_eq!(json_escape("a\nb"), "a\\nb");
    assert_eq!(json_escape(""), "");
    assert_eq!(json_escape("plain"), "plain");
}

#[test]
fn escape_control_characters() {
    assert_eq!(json_escape("\u{08}\t\n\u{0c}\r"), "\\b\\t\\n\\f\\r");
    assert_eq!(json_escape("\u{00}"), "\\u0000");
    assert_eq!(json_escape("\u{0b}"), "\\u000b");
    assert_eq!(json_escape("\u{1f}"), "\\u001f");
    assert_eq!(json_escape("\u{7f}"), "\u{7f}");
    assert_eq!(json_escape(" "), " ");
}

#[test]
fn escape_leaves_other_characters() {
    assert_eq!(json_escape("é/中'"), "é/中'");
}

#[test]
fn escape_keeps_a_quote_at_either_end() {
    assert_eq!(json_escape("\""), "\\\"");
    assert_eq!(json_escape("\"a\""), "\\\"a\\\"");
    assert_eq!(json_escape("\"\""), "\\\"\\\"");
}

#[test]
fn escaped_text_reads_back() {
    let texts = ["a\"b\\c\nd", "\u{01}\u{1f}\t", "\\n", "\\\"", "\"", "é\\u0041"];
    for text in texts {
        let literal = format!("\"{}\"", json_escape(text));
        let back: String = serde_json::from_str(&literal).unwrap();
        assert_eq!(back, text);
    }
}

#[test]
fn rpx_marker_becomes_call_with_px() {
    let mut imports = Vec::new();
    for n in ["100", "-20", "0.5", "-0.25", "1e3", "+7"] {
        let token = format!("\"__RPX__({})\"", n);
        assert_eq!(process_text(&token, &mut imports), format!("\" , rpx({}) , \"px", n));
        assert_eq!(process_host_text(&token), format!("\" , rpx({}) , \"px", n));
    }
    assert!(imports.is_empty());
}

#[test]
fn rpx_marker_needs_a_number_and_its_closing_quote() {
    let mut imports = Vec::new();
    assert_eq!(process_text("\"__RPX__()\"", &mut imports), "\\\"__RPX__()\\\"");
    assert_eq!(process_text("\"__RPX__(1)", &mut imports), "\\\"__RPX__(1)");
    assert_eq!(process_text("__RPX__(1)", &mut imports), "__RPX__(1)");
    assert_eq!(process_text("\"__RPX__(1", &mut imports), "\\\"__RPX__(1");
}

#[test]
fn prefix_and_host_markers() {
    let mut imports = Vec::new();
    assert_eq!(process_text(".__PREFIX__a", &mut imports), ".\" , prefix , \"a");
    assert_eq!(process_text("[is=__HOST__]", &mut imports), "[is='\" , host , \"']");
    assert_eq!(
        process_text("__PREFIX____PREFIX__", &mut imports),
        "\" , prefix , \"\" , prefix , \""
    );
    assert_eq!(process_text("__PREFIX_", &mut imports), "__PREFIX_");
    assert_eq!(process_text("___HOST__", &mut imports), "_'\" , host , \"'");
}

#[test]
fn imports_are_recorded_once_in_order() {
    let mut imports = Vec::new();
    let code = process_text(
        "@import-style (\"./b.css\");@import-style (\"./a.css\");@import-style (\"./b.css\");",
        &mut imports,
    );
    assert_eq!(imports, vec!["./b.css".to_string(), "./a.css".to_string()]);
    assert_eq!(
        code,
        "\" , I_c072977745c3f85ea291104eb5003087(options) , \"\" , I_f3cea1431258782941feb3c71a992799(options) , \"\" , I_c072977745c3f85ea291104eb5003087(options) , \""
    );
}

#[test]
fn imports_keep_what_was_known() {
    let mut imports = vec!["./a.css".to_string()];
    process_text("@import-style (\"./a.css\");@import-style (\"x\");", &mut imports);
    assert_eq!(imports, vec!["./a.css".to_string(), "x".to_string()]);
}

#[test]
fn import_declarations_come_first() {
    let output = compile("@import-style (\"./b.css\");.a{}@import-style (\"./a.css\");");
    assert_eq!(
        output,
        format!(
            "import I_c072977745c3f85ea291104eb5003087 from \"./b.css\";\nimport I_f3cea1431258782941feb3c71a992799 from \"./a.css\";\n{}",
            factory("\" , I_c072977745c3f85ea291104eb5003087(options) , \".a{}\" , I_f3cea1431258782941feb3c71a992799(options) , \"")
        )
    );
}

#[test]
fn host_text_keeps_import_markers() {
    assert_eq!(
        process_host_text("@import-style (\"./a.css\");"),
        "@import-style (\\\"./a.css\\\");"
    );
}

#[test]
fn empty_host_text_builds_no_host_string() {
    let with_empty = css_to_code(Css2CodeOptions { css: ".a{}", host_css: Some("") });
    assert_eq!(with_empty, compile(".a{}"));
}

#[test]
fn generate_output_with_host_code() {
    let imports = vec!["x".to_string()];
    assert_eq!(
        generate_output("C", "H", &imports),
        format!(
            "import I_9dd4e461268c8034f5c8564e155c67a6 from \"x\";\n{}C\", \"\"].join(\"\");\n  var hostStyleText = [\"H\", \"\"].join(\"\");\nif (options.hostStyle) {{\n    options.hostStyle(hostStyleText);\n}} else {{\n    css = hostStyleText + css;\n}}\n  return css;\n}}",
            HEAD
        )
    );
}

#[test]
fn substitutions_agree_with_regular_expressions() {
    let texts = [
        "",
        ".__PREFIX__a{width:\"__RPX__(100)\"}",
        "__PREFIX___PREFIX__",
        "_____PREFIX__HOST____HOST__",
        "__HOST____HOST",
        "\"__RPX__(1)(2)\"",
        "\"__RPX__(\"__RPX__(3)\")\"",
        "\"__RPX__()\"\"__RPX__(4)\"",
        "\"__RPX__(a\nb)\"",
        "\"__RPX__(5)\\\"",
        "\"__RPX__(__PREFIX__)\"",
        "@import-style (\"./a.css\");",
        "@import-style (\"\");",
        "@import-style (\"a\"b\");",
        "@import-style (\"a\") ;@import-style (\"b\");",
        "@import-style (\"a)\");",
        "@import-style (\"@import-style (\"c\");",
        "@import-style (\"é\");\"__RPX__(é)\"",
        "@import-style (\"__RPX__(6)\");",
        "@import-style (\"\"__RPX__(7)\"\");",
        "@import-style (\"x",
        "a\\b\"c\td",
    ];
    for text in texts {
        let escaped = json_escape(text);
        let mut imports = Vec::new();
        assert_eq!(process_text(text, &mut imports), with_regexes(&escaped, true), "{:?}", text);
        assert_eq!(process_host_text(text), with_regexes(&escaped, false), "{:?}", text);
    }
}

#[test]
fn import_declaration_is_built_from_the_digest() {
    assert_eq!(import_declaration("abc123", "./a.css"), "import I_abc123 from \"./a.css\";\n");
    assert_eq!(import_declaration("", ""), "import I_ from \"\";\n");
}

#[test]
fn every_length_in_a_text_becomes_a_call() {
    let mut imports = Vec::new();
    let text = ".a{width:\"__RPX__(100)\";margin:\"__RPX__(-20)\" \"__RPX__(0.5)\"}.b_c{top:0}";
    let code = process_text(text, &mut imports);
    assert_eq!(
        code,
        ".a{width:\" , rpx(100) , \"px;margin:\" , rpx(-20) , \"px \" , rpx(0.5) , \"px}.b_c{top:0}"
    );
    assert_eq!(code.matches(" , rpx(").count(), 3);
    assert!(!code.contains("__RPX__"));
    assert_eq!(process_host_text(text), code);
    assert_eq!(process_text(".a{top:0}", &mut imports), ".a{top:0}");
    assert!(imports.is_empty());
}
