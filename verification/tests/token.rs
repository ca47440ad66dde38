use style_compiler::convert_css::FactoryVisitor;
use style_compiler::token::{
    has_rpx, is_rpx_token, replace_rpx_token, rewrite_value, rewrite_values, value_has_rpx, Token,
    TokenOrValue,
};

fn dimension(value: &str, unit: &str) -> Token {
    Token::Dimension { value: value.to_string(), unit: unit.to_string() }
}

fn string(text: &str) -> Token {
    Token::String(text.to_string())
}

fn function(name: &str, arguments: Vec<TokenOrValue>) -> TokenOrValue {
    TokenOrValue::Function { name: name.to_string(), arguments }
}

fn var(name: &str, fallback: Option<Vec<TokenOrValue>>) -> TokenOrValue {
    TokenOrValue::Var { name: name.to_string(), fallback }
}

fn part(token: Token) -> TokenOrValue {
    TokenOrValue::Token(token)
}

#[test]
fn rpx_becomes_marker_string() {
    assert_eq!(replace_rpx_token(&dimension("100", "rpx")), string("__RPX__(100)"));
}

#[test]
fn rpx_keeps_negative_and_fractional_numbers() {
    assert_eq!(replace_rpx_token(&dimension("-20", "rpx")), string("__RPX__(-20)"));
    assert_eq!(replace_rpx_token(&dimension("0.5", "rpx")), string("__RPX__(0.5)"));
    assert_eq!(replace_rpx_token(&dimension("-0.25", "rpx")), string("__RPX__(-0.25)"));
    assert_eq!(replace_rpx_token(&dimension("0", "rpx")), string("__RPX__(0)"));
}

#[test]
fn other_units_stay() {
    assert_eq!(replace_rpx_token(&dimension("100", "px")), dimension("100", "px"));
    assert_eq!(replace_rpx_token(&dimension("100", "RPX")), dimension("100", "RPX"));
    assert_eq!(replace_rpx_token(&dimension("100", "rpxx")), dimension("100", "rpxx"));
    assert_eq!(replace_rpx_token(&dimension("100", "")), dimension("100", ""));
}

#[test]
fn other_tokens_stay() {
    assert_eq!(replace_rpx_token(&string("10rpx")), string("10rpx"));
    assert_eq!(replace_rpx_token(&Token::ParenthesisBlock), Token::ParenthesisBlock);
    assert_eq!(replace_rpx_token(&Token::CloseParenthesis), Token::CloseParenthesis);
    assert_eq!(replace_rpx_token(&Token::Other(5)), Token::Other(5));
}

#[test]
fn rpx_inside_function_arguments_is_rewritten() {
    let written = function(
        "calc",
        vec![part(dimension("50", "rpx")), part(Token::Other(1)), part(dimension("2", "px"))],
    );
    let expected = function(
        "calc",
        vec![part(string("__RPX__(50)")), part(Token::Other(1)), part(dimension("2", "px"))],
    );
    assert_eq!(rewrite_value(&written), expected);
}

#[test]
fn rpx_inside_fallback_is_rewritten() {
    let written = var("--x", Some(vec![part(dimension("10", "rpx"))]));
    let expected = var("--x", Some(vec![part(string("__RPX__(10)"))]));
    assert_eq!(rewrite_value(&written), expected);
    assert_eq!(rewrite_value(&var("--x", None)), var("--x", None));
}

#[test]
fn rpx_is_rewritten_at_every_depth() {
    let written = function(
        "calc",
        vec![
            part(dimension("50", "rpx")),
            var("--abc", Some(vec![function("max", vec![part(dimension("100", "rpx"))])])),
        ],
    );
    let expected = function(
        "calc",
        vec![
            part(string("__RPX__(50)")),
            var("--abc", Some(vec![function("max", vec![part(string("__RPX__(100)"))])])),
        ],
    );
    assert_eq!(rewrite_value(&written), expected);
    let mut visited = function(
        "calc",
        vec![
            part(dimension("50", "rpx")),
            var("--abc", Some(vec![function("max", vec![part(dimension("100", "rpx"))])])),
        ],
    );
    FactoryVisitor::new().visit_token(&mut visited);
    assert_eq!(visited, expected);
}

#[test]
fn values_without_rpx_stay() {
    let list = vec![
        part(dimension("1", "px")),
        TokenOrValue::Other(9),
        function("f", vec![]),
        var("--y", Some(vec![])),
    ];
    let same = vec![
        part(dimension("1", "px")),
        TokenOrValue::Other(9),
        function("f", vec![]),
        var("--y", Some(vec![])),
    ];
    assert_eq!(rewrite_values(&list), same);
    assert_eq!(rewrite_values(&vec![]), vec![]);
}

#[test]
fn rpx_is_found_at_every_depth() {
    assert!(is_rpx_token(&dimension("1", "rpx")));
    assert!(!is_rpx_token(&dimension("1", "px")));
    assert!(!is_rpx_token(&string("rpx")));
    assert!(value_has_rpx(&part(dimension("1", "rpx"))));
    assert!(value_has_rpx(&function("f", vec![part(Token::Other(0)), part(dimension("1", "rpx"))])));
    assert!(value_has_rpx(&var("--v", Some(vec![function("f", vec![part(dimension("1", "rpx"))])]))));
    assert!(!value_has_rpx(&var("--v", None)));
    assert!(!value_has_rpx(&TokenOrValue::Other(1)));
    assert!(!value_has_rpx(&function("f", vec![part(dimension("1", "px"))])));
    assert!(has_rpx(&vec![part(Token::Other(0)), part(dimension("1", "rpx")), part(Token::Other(2))]));
    assert!(!has_rpx(&vec![part(Token::Other(0)), part(dimension("1", "em"))]));
    assert!(!has_rpx(&vec![]));
}
