//! Values as the rewrite pass sees them, and the rewrite of lengths given in
//! `rpx`.

use crate::markers::RPX_FUNC;
use vstd::prelude::*;

verus! {

/// One token of a value.
#[derive(Debug, PartialEq, Eq)]
pub enum Token {
    /// A number with a unit. `value` is the number as it is written.
    Dimension { value: String, unit: String },
    /// A quoted string.
    String(String),
    /// `(`
    ParenthesisBlock,
    /// `)`
    CloseParenthesis,
    /// Any other token. The number is the caller's: the rewrite hands it
    /// back untouched.
    Other(usize),
}

/// One part of a value.
#[derive(Debug, PartialEq, Eq)]
pub enum TokenOrValue {
    /// A token.
    Token(Token),
    /// A function with its arguments.
    Function { name: String, arguments: Vec<TokenOrValue> },
    /// A reference to a custom property, with the value to fall back on.
    Var { name: String, fallback: Option<Vec<TokenOrValue>> },
    /// Any other part. The number is the caller's: the rewrite hands it back
    /// untouched.
    Other(usize),
}

/// What a token is, apart from how its strings are stored.
pub enum TokenView {
    Dimension { value: Seq<char>, unit: Seq<char> },
    String(Seq<char>),
    ParenthesisBlock,
    CloseParenthesis,
    Other(usize),
}

/// What a part of a value is, apart from how its strings are stored.
pub enum ValueView {
    Token(TokenView),
    Function { name: Seq<char>, arguments: Seq<ValueView> },
    Var { name: Seq<char>, fallback: Option<Seq<ValueView>> },
    Other(usize),
}

impl View for Token {
    type V = TokenView;

    open spec fn view(&self) -> TokenView {
        match self {
            Token::Dimension { value, unit } => TokenView::Dimension { value: value@, unit: unit@ },
            Token::String(text) => TokenView::String(text@),
            Token::ParenthesisBlock => TokenView::ParenthesisBlock,
            Token::CloseParenthesis => TokenView::CloseParenthesis,
            Token::Other(id) => TokenView::Other(*id),
        }
    }
}

/// The views of the first `n` parts of `list`.
pub open spec fn value_views_upto(list: Seq<TokenOrValue>, n: nat) -> Seq<ValueView>
    decreases list, n,
{
    if n == 0 || n > list.len() {
        Seq::empty()
    } else {
        value_views_upto(list, (n - 1) as nat).push(value_view(list[n - 1]))
    }
}

/// What a part of a value is: its strings by their characters, its nested
/// parts by their views.
pub open spec fn value_view(v: TokenOrValue) -> ValueView
    decreases v,
{
    match v {
        TokenOrValue::Token(token) => ValueView::Token(token@),
        TokenOrValue::Function { name, arguments } => ValueView::Function {
            name: name@,
            arguments: value_views_upto(arguments@, arguments@.len()),
        },
        TokenOrValue::Var { name, fallback } => ValueView::Var {
            name: name@,
            fallback: match fallback {
                Some(list) => Some(value_views_upto(list@, list@.len())),
                None => None,
            },
        },
        TokenOrValue::Other(id) => ValueView::Other(id),
    }
}

impl View for TokenOrValue {
    type V = ValueView;

    open spec fn view(&self) -> ValueView {
        value_view(*self)
    }
}

/// The views of a list of parts.
pub open spec fn value_views(list: Seq<TokenOrValue>) -> Seq<ValueView> {
    Seq::new(list.len(), |i: int| list[i]@)
}

/// The views of a list of parts, one for one.
pub proof fn lemma_value_views(list: Seq<TokenOrValue>, n: nat)
    requires
        n <= list.len(),
    ensures
        value_views_upto(list, n).len() == n,
        forall|i: int| 0 <= i < n ==> value_views_upto(list, n)[i] == list[i]@,
        n == list.len() ==> value_views_upto(list, n) == value_views(list),
    decreases n,
{
    if n > 0 {
        lemma_value_views(list, (n - 1) as nat);
    }
    if n == list.len() {
        assert(value_views_upto(list, n) =~= value_views(list));
    }
}

/// The string that stands for the length `value` given in `rpx`: the marker
/// function applied to the number as written.
pub open spec fn rpx_marker(value: Seq<char>) -> Seq<char> {
    RPX_FUNC@ + "("@ + value + ")"@
}

/// What the rewrite makes of one token: a number with the unit `rpx` becomes
/// the string that stands for it, any other token stays.
pub open spec fn rewritten_token(t: TokenView) -> TokenView {
    match t {
        TokenView::Dimension { value, unit } => if unit == "rpx"@ {
            TokenView::String(rpx_marker(value))
        } else {
            t
        },
        _ => t,
    }
}

/// The first `n` parts of `list`, rewritten.
pub open spec fn rewritten_values_upto(list: Seq<ValueView>, n: nat) -> Seq<ValueView>
    decreases list, n,
{
    if n == 0 || n > list.len() {
        Seq::empty()
    } else {
        rewritten_values_upto(list, (n - 1) as nat).push(rewritten_value(list[n - 1]))
    }
}

/// What the rewrite makes of one part of a value: a token is rewritten, the
/// arguments of a function and the fallback of a custom property reference
/// are rewritten part by part, all else stays.
pub open spec fn rewritten_value(v: ValueView) -> ValueView
    decreases v,
{
    match v {
        ValueView::Token(token) => ValueView::Token(rewritten_token(token)),
        ValueView::Function { name, arguments } => ValueView::Function {
            name: name,
            arguments: rewritten_values_upto(arguments, arguments.len()),
        },
        ValueView::Var { name, fallback } => ValueView::Var {
            name: name,
            fallback: match fallback {
                Some(list) => Some(rewritten_values_upto(list, list.len())),
                None => None,
            },
        },
        ValueView::Other(id) => v,
    }
}

/// What the rewrite makes of a list of parts: each part rewritten, in place.
pub open spec fn rewritten_values(list: Seq<ValueView>) -> Seq<ValueView> {
    rewritten_values_upto(list, list.len())
}

/// A rewritten list of parts has as many parts as the list, and each is the
/// rewritten part at the same place.
pub proof fn lemma_rewritten_values(list: Seq<ValueView>, n: nat)
    requires
        n <= list.len(),
    ensures
        rewritten_values_upto(list, n).len() == n,
        forall|i: int| 0 <= i < n ==> rewritten_values_upto(list, n)[i] == rewritten_value(list[i]),
    decreases n,
{
    if n > 0 {
        lemma_rewritten_values(list, (n - 1) as nat);
    }
}

/// Whether a token is a number with the unit `rpx`.
pub open spec fn is_rpx(t: TokenView) -> bool {
    t matches TokenView::Dimension { unit, .. } && unit == "rpx"@
}

/// Whether one of the first `n` parts of `list` holds a length in `rpx`.
pub open spec fn any_rpx_upto(list: Seq<ValueView>, n: nat) -> bool
    decreases list, n,
{
    if n == 0 || n > list.len() {
        false
    } else {
        any_rpx_upto(list, (n - 1) as nat) || holds_rpx(list[n - 1])
    }
}

/// Whether a part of a value holds a length in `rpx`, itself or in the
/// arguments of a function or the fallback of a custom property reference.
pub open spec fn holds_rpx(v: ValueView) -> bool
    decreases v,
{
    match v {
        ValueView::Token(token) => is_rpx(token),
        ValueView::Function { name, arguments } => any_rpx_upto(arguments, arguments.len()),
        ValueView::Var { name, fallback } => match fallback {
            Some(list) => any_rpx_upto(list, list.len()),
            None => false,
        },
        ValueView::Other(id) => false,
    }
}

/// Whether one of the parts of `list` holds a length in `rpx`.
pub open spec fn any_rpx(list: Seq<ValueView>) -> bool {
    any_rpx_upto(list, list.len())
}

/// A part of a value that holds no length in `rpx` stays.
proof fn lemma_plain_value(v: ValueView)
    requires
        !holds_rpx(v),
    ensures
        rewritten_value(v) == v,
    decreases v,
{
    match v {
        ValueView::Function { name, arguments } => {
            lemma_plain_values(arguments, arguments.len());
            assert(arguments.take(arguments.len() as int) =~= arguments);
        },
        ValueView::Var { name, fallback } => {
            match fallback {
                Some(list) => {
                    lemma_plain_values(list, list.len());
                    assert(list.take(list.len() as int) =~= list);
                },
                None => {},
            }
        },
        _ => {},
    }
}

/// The first `n` parts of a list stay where they hold no length in `rpx`.
proof fn lemma_plain_values(list: Seq<ValueView>, n: nat)
    requires
        n <= list.len(),
        !any_rpx_upto(list, n),
    ensures
        rewritten_values_upto(list, n) == list.take(n as int),
    decreases list, n,
{
    if n > 0 {
        lemma_plain_values(list, (n - 1) as nat);
        lemma_plain_value(list[n - 1]);
    }
    assert(rewritten_values_upto(list, n) =~= list.take(n as int));
}

/// The rewrite is the identity on a value that holds no length in `rpx`.
pub proof fn lemma_value_without_rpx_stays(v: ValueView)
    requires
        !holds_rpx(v),
    ensures
        rewritten_value(v) == v,
{
    lemma_plain_value(v);
}

/// A length in `rpx` becomes a string that holds its number between the
/// parentheses of the marker function, whatever the number is.
pub proof fn lemma_rpx_becomes_marker(value: Seq<char>)
    ensures
        rewritten_token(TokenView::Dimension { value: value, unit: "rpx"@ }) == TokenView::String(
            RPX_FUNC@ + "("@ + value + ")"@,
        ),
{
}

/// Rewrites one token.
pub fn replace_rpx_token(token: &Token) -> (r: Token)
    ensures
        r@ == rewritten_token(token@),
{
    match token {
        Token::Dimension { value, unit } => {
            if *unit == String::from_str("rpx") {
                let mut text = String::from_str(RPX_FUNC);
                text.append("(");
                text.append(value.as_str());
                text.append(")");
                Token::String(text)
            } else {
                Token::Dimension { value: value.clone(), unit: unit.clone() }
            }
        },
        Token::String(text) => Token::String(text.clone()),
        Token::ParenthesisBlock => Token::ParenthesisBlock,
        Token::CloseParenthesis => Token::CloseParenthesis,
        Token::Other(id) => Token::Other(*id),
    }
}

/// Rewrites a list of parts, each in place.
pub fn rewrite_values(list: &Vec<TokenOrValue>) -> (r: Vec<TokenOrValue>)
    ensures
        value_views(r@) == rewritten_values(value_views(list@)),
    decreases list,
{
    let mut out: Vec<TokenOrValue> = Vec::new();
    let mut i: usize = 0;
    while i < list.len()
        invariant
            i <= list.len(),
            out.len() == i,
            forall|j: int| 0 <= j < i ==> out[j]@ == rewritten_value(list[j]@),
        decreases list.len() - i,
    {
        out.push(rewrite_value(&list[i]));
        i += 1;
    }
    proof {
        lemma_rewritten_values(value_views(list@), list@.len());
        assert(value_views(out@) =~= rewritten_values(value_views(list@)));
    }
    out
}

/// Rewrites one part of a value.
pub fn rewrite_value(v: &TokenOrValue) -> (r: TokenOrValue)
    ensures
        r@ == rewritten_value(v@),
    decreases v,
{
    match v {
        TokenOrValue::Token(token) => TokenOrValue::Token(replace_rpx_token(token)),
        TokenOrValue::Function { name, arguments } => {
            proof {
                assert(decreases_to!(v => v->Function_arguments));
                lemma_value_views(arguments@, arguments@.len());
            }
            let rewritten = rewrite_values(arguments);
            proof {
                lemma_value_views(rewritten@, rewritten@.len());
            }
            TokenOrValue::Function { name: name.clone(), arguments: rewritten }
        },
        TokenOrValue::Var { name, fallback } => {
            match fallback {
                Some(list) => {
                    proof {
                        assert(decreases_to!(v => v->Var_fallback));
                        assert(decreases_to!(v->Var_fallback => v->Var_fallback->Some_0));
                        lemma_value_views(list@, list@.len());
                    }
                    let rewritten = rewrite_values(list);
                    proof {
                        lemma_value_views(rewritten@, rewritten@.len());
                    }
                    TokenOrValue::Var { name: name.clone(), fallback: Some(rewritten) }
                },
                None => TokenOrValue::Var { name: name.clone(), fallback: None },
            }
        },
        TokenOrValue::Other(id) => TokenOrValue::Other(*id),
    }
}

/// Whether `token` is a number with the unit `rpx`.
pub fn is_rpx_token(token: &Token) -> (r: bool)
    ensures
        r == is_rpx(token@),
{
    match token {
        Token::Dimension { value, unit } => *unit == String::from_str("rpx"),
        _ => false,
    }
}

/// Whether one of the parts of `list` holds a length in `rpx`.
pub fn has_rpx(list: &Vec<TokenOrValue>) -> (r: bool)
    ensures
        r == any_rpx(value_views(list@)),
    decreases list,
{
    let ghost all = value_views(list@);
    let mut i: usize = 0;
    while i < list.len()
        invariant
            i <= list.len(),
            all == value_views(list@),
            !any_rpx_upto(all, i as nat),
        decreases list.len() - i,
    {
        if value_has_rpx(&list[i]) {
            proof {
                lemma_any_rpx_from(all, (i + 1) as nat, all.len());
            }
            return true;
        }
        i += 1;
    }
    false
}

/// Once a length in `rpx` is among the first `n` parts, it is among the
/// first `m` for every larger `m`.
proof fn lemma_any_rpx_from(list: Seq<ValueView>, n: nat, m: nat)
    requires
        n <= m <= list.len(),
        any_rpx_upto(list, n),
    ensures
        any_rpx_upto(list, m),
    decreases m - n,
{
    if n < m {
        lemma_any_rpx_from(list, n, (m - 1) as nat);
    }
}

/// Whether a part of a value holds a length in `rpx`.
pub fn value_has_rpx(v: &TokenOrValue) -> (r: bool)
    ensures
        r == holds_rpx(v@),
    decreases v,
{
    match v {
        TokenOrValue::Token(token) => is_rpx_token(token),
        TokenOrValue::Function { name, arguments } => {
            proof {
                assert(decreases_to!(v => v->Function_arguments));
                lemma_value_views(arguments@, arguments@.len());
            }
            has_rpx(arguments)
        },
        TokenOrValue::Var { name, fallback } => {
            match fallback {
                Some(list) => {
                    proof {
                        assert(decreases_to!(v => v->Var_fallback));
                        assert(decreases_to!(v->Var_fallback => v->Var_fallback->Some_0));
                        lemma_value_views(list@, list@.len());
                    }
                    has_rpx(list)
                },
                None => false,
            }
        },
        TokenOrValue::Other(id) => false,
    }
}

} // verus!
