//! The rewrite pass over the rules of a style sheet, and the CSS for the
//! host element that it sets aside.

use crate::engine::{engine_output, minify_and_print, outcome_view, EngineError};
use crate::error::{is_host_failure, CompileError};
use crate::markers::IMPORT_STYLE;
use crate::options::{
    get_minify_options, get_parser_options, get_printer_options, target_browsers, CompileTargets,
};
use crate::selector::{
    create_host_selector, host_component, is_host, is_host_selector, lemma_rewritten_selector,
    lemma_rewritten_selectors, lemma_untouched_selectors_stay, rewrite_selector,
    rewritten_selector, rewritten_selectors, selector_views, untouched_in_upto, ComponentView,
    Selector,
};
use crate::text::{option_text, views};
use crate::token::{
    any_rpx, has_rpx, rewrite_value, rewritten_value, value_views, Token, TokenOrValue, TokenView,
    ValueView,
};
use smallvec::SmallVec;
use vstd::prelude::*;

verus! {

/// The printed rules for the host element, in a `SmallVec` that keeps two of
/// them without allocating.
#[verifier::external_body]
pub struct HostCssList {
    items: SmallVec<[String; 2]>,
}

/// The strings that the list holds, in their order.
pub uninterp spec fn host_css_items(list: HostCssList) -> Seq<Seq<char>>;

/// `SmallVec::new`: a list without items.
#[verifier::external_body]
fn host_css_new() -> (list: HostCssList)
    ensures
        host_css_items(list) == Seq::<Seq<char>>::empty(),
{
    HostCssList { items: SmallVec::new() }
}

/// `SmallVec::push`: the string goes to the end of the list.
#[verifier::external_body]
fn host_css_push(list: &mut HostCssList, value: String)
    ensures
        host_css_items(*final(list)) == host_css_items(*old(list)).push(value@),
{
    list.items.push(value)
}

/// `SmallVec::as_slice`: the items of the list, in their order.
#[verifier::external_body]
fn host_css_as_slice(list: &HostCssList) -> (items: &[String])
    ensures
        views(items@) == host_css_items(*list),
{
    list.items.as_slice()
}

/// Where a rule stands in its source.
#[derive(Clone, Copy, Debug, PartialEq, Eq, Structural)]
pub struct Location {
    pub source_index: u32,
    pub line: u32,
    pub column: u32,
}

/// A style rule: its selectors, and the caller's number for its declarations
/// and nested rules, which the pass hands on untouched.
#[derive(Debug, PartialEq, Eq)]
pub struct StyleRule {
    pub selectors: Vec<Selector>,
    pub body: usize,
}

/// A rule as the rewrite pass sees it.
#[derive(Debug, PartialEq, Eq)]
pub enum Rule {
    /// A style rule.
    Style(StyleRule),
    /// `@import`, with the address as written.
    Import { url: String, loc: Location },
    /// An at-rule that the engine does not know, with its name and what
    /// follows the name.
    Unknown { name: String, prelude: Vec<TokenOrValue>, loc: Location },
    /// A rule that was taken out: it prints as nothing.
    Ignored,
    /// Any other rule. The number is the caller's: the pass hands it back
    /// untouched.
    Other(usize),
}

/// What a style rule is, apart from how it is stored.
pub struct StyleRuleView {
    pub selectors: Seq<Seq<ComponentView>>,
    pub body: usize,
}

/// What a rule is, apart from how it is stored.
pub enum RuleView {
    Style(StyleRuleView),
    Import { url: Seq<char>, loc: Location },
    Unknown { name: Seq<char>, prelude: Seq<ValueView>, loc: Location },
    Ignored,
    Other(usize),
}

impl View for StyleRule {
    type V = StyleRuleView;

    open spec fn view(&self) -> StyleRuleView {
        StyleRuleView { selectors: selector_views(self.selectors@), body: self.body }
    }
}

impl View for Rule {
    type V = RuleView;

    open spec fn view(&self) -> RuleView {
        match self {
            Rule::Style(style) => RuleView::Style(style@),
            Rule::Import { url, loc } => RuleView::Import { url: url@, loc: *loc },
            Rule::Unknown { name, prelude, loc } => RuleView::Unknown {
                name: name@,
                prelude: value_views(prelude@),
                loc: *loc,
            },
            Rule::Ignored => RuleView::Ignored,
            Rule::Other(id) => RuleView::Other(*id),
        }
    }
}

/// What the pass makes of a rule: the rule that takes its place, and the
/// rule, if any, that is to be printed into the CSS for the host element.
#[derive(Debug, PartialEq, Eq)]
pub struct Visited {
    pub rule: Rule,
    pub host: Option<StyleRule>,
}

/// What `Visited` is, apart from how it is stored.
pub struct VisitedView {
    pub rule: RuleView,
    pub host: Option<StyleRuleView>,
}

impl View for Visited {
    type V = VisitedView;

    open spec fn view(&self) -> VisitedView {
        VisitedView {
            rule: self.rule@,
            host: match self.host {
                Some(style) => Some(style@),
                None => None,
            },
        }
    }
}

/// The at-rule that stands for the import of `url`: `@import-style`, followed
/// by the address as a string between parentheses.
pub open spec fn import_style_rule(url: Seq<char>, loc: Location) -> RuleView {
    RuleView::Unknown {
        name: IMPORT_STYLE@,
        prelude: seq![
            ValueView::Token(TokenView::ParenthesisBlock),
            ValueView::Token(TokenView::String(url)),
            ValueView::Token(TokenView::CloseParenthesis),
        ],
        loc: loc,
    }
}

/// Whether one of the selectors is the host selector.
pub open spec fn has_host(list: Seq<Seq<ComponentView>>) -> bool {
    exists|i: int| 0 <= i < list.len() && is_host(#[trigger] list[i])
}

/// The selectors of `list` that are not the host selector, in their order.
pub open spec fn without_host(list: Seq<Seq<ComponentView>>) -> Seq<Seq<ComponentView>>
    decreases list.len(),
{
    if list.len() == 0 {
        Seq::empty()
    } else if is_host(list.last()) {
        without_host(list.drop_last())
    } else {
        without_host(list.drop_last()).push(list.last())
    }
}

/// What becomes of a style rule whose selectors have been rewritten.
///
/// Without a host selector it stays. Where every selector is the host
/// selector the whole rule goes to the CSS for the host element and leaves
/// nothing behind. Otherwise the rule keeps the other selectors, and a rule
/// with the host selector alone and the same declarations goes to the CSS
/// for the host element.
pub open spec fn host_split(style: StyleRuleView) -> VisitedView {
    if !has_host(style.selectors) {
        VisitedView { rule: RuleView::Style(style), host: None }
    } else if without_host(style.selectors).len() == 0 {
        VisitedView { rule: RuleView::Ignored, host: Some(style) }
    } else {
        VisitedView {
            rule: RuleView::Style(
                StyleRuleView { selectors: without_host(style.selectors), body: style.body },
            ),
            host: Some(StyleRuleView { selectors: seq![seq![host_component()]], body: style.body }),
        }
    }
}

/// Whether the pass refuses a rule: an at-rule that the engine does not
/// know, with a length in `rpx` in what follows its name.
pub open spec fn is_refused(rule: RuleView) -> bool {
    rule matches RuleView::Unknown { prelude, .. } && any_rpx(prelude)
}

/// The words with which the pass refuses the at-rule `name`.
pub open spec fn refusal(name: Seq<char>) -> Seq<char> {
    "rpx is not supported in the prelude of @"@ + name
}

/// What the pass makes of a rule that it does not refuse.
///
/// An import becomes the at-rule that stands for it. A style rule has its
/// selectors rewritten and is then split as `host_split` says. Any other
/// rule stays.
pub open spec fn visited_rule(rule: RuleView) -> VisitedView {
    match rule {
        RuleView::Import { url, loc } => VisitedView { rule: import_style_rule(url, loc), host: None },
        RuleView::Style(style) => host_split(
            StyleRuleView { selectors: rewritten_selectors(style.selectors), body: style.body },
        ),
        _ => VisitedView { rule: rule, host: None },
    }
}

/// The selector `:host` as it is written.
pub open spec fn host_pseudo_class() -> Seq<ComponentView> {
    seq![ComponentView::Host]
}

/// The host selector as the rewrite leaves it.
pub open spec fn host_selector() -> Seq<ComponentView> {
    seq![host_component()]
}

/// `:host` is rewritten to the host selector.
proof fn lemma_host_is_rewritten()
    ensures
        rewritten_selector(host_pseudo_class()) == host_selector(),
        is_host(host_selector()),
{
    lemma_rewritten_selector(host_pseudo_class(), 1);
    assert(rewritten_selector(host_pseudo_class()) =~= host_selector());
}

/// A style rule whose one selector is `:host` leaves nothing behind in the
/// style sheet, and the CSS for the host element gets one rule: the host
/// selector with the declarations of the rule.
pub proof fn lemma_host_rule_moves(body: usize)
    ensures
        visited_rule(
            RuleView::Style(StyleRuleView { selectors: seq![host_pseudo_class()], body: body }),
        ) == (VisitedView {
            rule: RuleView::Ignored,
            host: Some(StyleRuleView { selectors: seq![host_selector()], body: body }),
        }),
{
    let list = seq![host_pseudo_class()];
    let rewritten = rewritten_selectors(list);
    lemma_host_is_rewritten();
    lemma_rewritten_selectors(list, 1);
    assert(rewritten =~= seq![host_selector()]);
    assert(is_host(rewritten[0]));
    assert(rewritten.drop_last() =~= Seq::<Seq<ComponentView>>::empty());
    assert(without_host(rewritten.drop_last()).len() == 0);
    assert(rewritten.last() == rewritten[0]);
    assert(without_host(rewritten).len() == 0);
}

/// A style rule for `:host` and one other selector is split in two: the
/// style sheet keeps a rule with the other selector, rewritten, and the CSS
/// for the host element gets a rule with the host selector; both have the
/// declarations of the rule.
pub proof fn lemma_host_and_other_split(other: Seq<ComponentView>, body: usize)
    requires
        !is_host(rewritten_selector(other)),
    ensures
        visited_rule(
            RuleView::Style(StyleRuleView { selectors: seq![host_pseudo_class(), other], body: body }),
        ) == (VisitedView {
            rule: RuleView::Style(
                StyleRuleView { selectors: seq![rewritten_selector(other)], body: body },
            ),
            host: Some(StyleRuleView { selectors: seq![host_selector()], body: body }),
        }),
{
    let list = seq![host_pseudo_class(), other];
    let rewritten = rewritten_selectors(list);
    lemma_host_is_rewritten();
    lemma_rewritten_selectors(list, 2);
    assert(rewritten =~= seq![host_selector(), rewritten_selector(other)]);
    assert(is_host(rewritten[0]));
    let first = rewritten.drop_last();
    assert(first =~= seq![host_selector()]);
    assert(first.drop_last() =~= Seq::<Seq<ComponentView>>::empty());
    assert(without_host(first.drop_last()).len() == 0);
    assert(first.last() == first[0]);
    assert(without_host(first) =~= Seq::<Seq<ComponentView>>::empty());
    assert(rewritten.last() == rewritten[1]);
    assert(without_host(rewritten) =~= seq![rewritten_selector(other)]);
}

/// A style rule that holds nothing for the rewrite to change and no host
/// selector comes out of the pass as it went in, and nothing goes to the CSS
/// for the host element.
pub proof fn lemma_plain_rule_stays(style: StyleRuleView)
    requires
        untouched_in_upto(style.selectors, style.selectors.len()),
        !has_host(style.selectors),
    ensures
        visited_rule(RuleView::Style(style)) == (VisitedView {
            rule: RuleView::Style(style),
            host: None,
        }),
{
    lemma_untouched_selectors_stay(style.selectors);
}

/// The texts of `list` one after the other, with a line break between each
/// two.
pub open spec fn joined_lines(list: Seq<Seq<char>>) -> Seq<char>
    decreases list.len(),
{
    if list.len() == 0 {
        Seq::empty()
    } else if list.len() == 1 {
        list[0]
    } else {
        joined_lines(list.drop_last()) + seq!['\n'] + list.last()
    }
}

/// What the compile of the host rules returns, given what the engine made of
/// their text.
pub open spec fn is_host_result(
    r: Result<Option<String>, CompileError>,
    outcome: Result<String, EngineError>,
) -> bool {
    match outcome {
        Ok(code) => r matches Ok(Some(got)) && got@ == code@,
        Err(e) => r matches Err(error) && is_host_failure(error, e),
    }
}

/// The result of a conversion, given the printed main style sheet and what
/// the compile of the host rules returned.
pub open spec fn convert_result(css: String, host: Result<Option<String>, CompileError>) -> Result<
    ConvertResult,
    CompileError,
> {
    match host {
        Ok(host_css) => Ok(ConvertResult { css: css, host_css: host_css }),
        Err(error) => Err(error),
    }
}

/// Whether `r` is the result of a conversion with the printed main style
/// sheet `css`, where the compile of the host rules returned `host`.
pub open spec fn is_convert_result(
    r: Result<ConvertResult, CompileError>,
    css: String,
    host: Result<Option<String>, CompileError>,
) -> bool {
    r == convert_result(css, host)
}

/// The result of converting a style sheet.
#[derive(Debug, Clone, PartialEq, Eq)]
pub struct ConvertResult {
    /// The rewritten style sheet, minified.
    pub css: String,
    /// The CSS for the host element, minified, where the style sheet has
    /// rules for it.
    pub host_css: Option<String>,
}

/// What converting a style sheet without text gives, with no call of the
/// engine: no CSS, and none for the host element. `None` for a style sheet
/// with text: that one has to be compiled.
pub fn convert_empty(css: &str) -> (r: Option<ConvertResult>)
    ensures
        css@.len() == 0 ==> (r matches Some(result) && result.css@.len() == 0 && result.host_css
            is None),
        css@.len() > 0 ==> r is None,
{
    if css.is_empty() {
        Some(ConvertResult { css: String::new(), host_css: None })
    } else {
        None
    }
}

/// The state of the rewrite pass: the rules for the host element that it has
/// set aside, printed, in the order in which it met them.
pub struct FactoryVisitor {
    host_css_vec: HostCssList,
}

/// Whether one of `selectors` is the host selector.
pub fn has_single_selector(selectors: &Vec<Selector>) -> (r: bool)
    ensures
        r == has_host(selector_views(selectors@)),
{
    let mut i: usize = 0;
    while i < selectors.len()
        invariant
            i <= selectors.len(),
            forall|j: int| 0 <= j < i ==> !is_host(selectors[j]@),
        decreases selectors.len() - i,
    {
        if is_host_selector(&selectors[i]) {
            assert(is_host(selector_views(selectors@)[i as int]));
            return true;
        }
        i += 1;
    }
    false
}

/// Whether every one of `selectors` is the host selector.
fn all_host(selectors: &Vec<Selector>) -> (r: bool)
    ensures
        r == (without_host(selector_views(selectors@)).len() == 0),
{
    let ghost all = selector_views(selectors@);
    let mut i: usize = 0;
    while i < selectors.len()
        invariant
            i <= selectors.len(),
            all == selector_views(selectors@),
            without_host(all.take(i as int)).len() == 0,
        decreases selectors.len() - i,
    {
        proof {
            assert(all.take(i + 1).drop_last() =~= all.take(i as int));
            assert(all.take(i + 1).last() == selectors[i as int]@);
            lemma_without_host_grows(all, i + 1);
        }
        if !is_host_selector(&selectors[i]) {
            return false;
        }
        i += 1;
    }
    assert(all.take(selectors.len() as int) =~= all);
    true
}

/// Taking more selectors into account never makes the list of those that
/// are not the host selector shorter.
proof fn lemma_without_host_grows(list: Seq<Seq<ComponentView>>, n: int)
    requires
        0 <= n <= list.len(),
    ensures
        without_host(list.take(n)).len() <= without_host(list).len(),
    decreases list.len() - n,
{
    if n < list.len() {
        lemma_without_host_grows(list, n + 1);
        assert(list.take(n + 1).drop_last() =~= list.take(n));
    } else {
        assert(list.take(n) =~= list);
    }
}

/// The selectors of `selectors` that are not the host selector, in their
/// order.
pub fn filter_non_host(selectors: Vec<Selector>) -> (r: Vec<Selector>)
    ensures
        selector_views(r@) == without_host(selector_views(selectors@)),
{
    let ghost all = selector_views(selectors@);
    let mut out: Vec<Selector> = Vec::new();
    for selector in it: selectors
        invariant
            all == selector_views(it.seq()),
            selector_views(out@) == without_host(all.take(it.index() as int)),
    {
        proof {
            let i = it.index() as int;
            assert(all.take(i + 1).drop_last() =~= all.take(i));
            assert(all.take(i + 1).last() == selector@);
        }
        let ghost before = out@;
        if !is_host_selector(&selector) {
            out.push(selector);
            assert(selector_views(out@) =~= selector_views(before).push(selector@));
        }
    }
    assert(all.take(all.len() as int) =~= all);
    out
}

/// Where in `selectors` the selectors stand that are not the host selector:
/// their positions, in rising order, so that the `k`-th of them is the
/// `k`-th selector that `filter_non_host` keeps.
pub fn non_host_positions(selectors: &Vec<Selector>) -> (r: Vec<usize>)
    ensures
        r@.len() == without_host(selector_views(selectors@)).len(),
        forall|k: int|
            0 <= k < r@.len() ==> (#[trigger] r@[k]) < selectors@.len() && without_host(
                selector_views(selectors@),
            )[k] == selectors@[r@[k] as int]@,
        forall|j: int, k: int| 0 <= j < k < r@.len() ==> (#[trigger] r@[j]) < (#[trigger] r@[k]),
{
    let ghost all = selector_views(selectors@);
    let mut out: Vec<usize> = Vec::new();
    let mut i: usize = 0;
    while i < selectors.len()
        invariant
            i <= selectors.len(),
            all == selector_views(selectors@),
            out@.len() == without_host(all.take(i as int)).len(),
            forall|k: int|
                0 <= k < out@.len() ==> (#[trigger] out@[k]) < i && without_host(
                    all.take(i as int),
                )[k] == selectors@[out@[k] as int]@,
            forall|j: int, k: int|
                0 <= j < k < out@.len() ==> (#[trigger] out@[j]) < (#[trigger] out@[k]),
        decreases selectors.len() - i,
    {
        proof {
            assert(all.take(i + 1).drop_last() =~= all.take(i as int));
            assert(all.take(i + 1).last() == selectors[i as int]@);
        }
        let ghost before = out@;
        if !is_host_selector(&selectors[i]) {
            out.push(i);
            assert(forall|k: int| 0 <= k < before.len() ==> out@[k] == before[k]);
        }
        i += 1;
    }
    assert(all.take(selectors.len() as int) =~= all);
    out
}

/// Rewrites each of `selectors`, in place.
pub fn rewrite_selectors(selectors: &Vec<Selector>) -> (r: Vec<Selector>)
    ensures
        selector_views(r@) == rewritten_selectors(selector_views(selectors@)),
{
    let mut out: Vec<Selector> = Vec::new();
    let mut i: usize = 0;
    while i < selectors.len()
        invariant
            i <= selectors.len(),
            out.len() == i,
            forall|j: int| 0 <= j < i ==> out[j]@ == rewritten_selector(selectors[j]@),
        decreases selectors.len() - i,
    {
        out.push(rewrite_selector(&selectors[i]));
        i += 1;
    }
    proof {
        lemma_rewritten_selectors(selector_views(selectors@), selectors@.len());
        assert(selector_views(out@) =~= rewritten_selectors(selector_views(selectors@)));
    }
    out
}

/// Splits a style rule whose selectors have been rewritten.
pub fn split_host(style: StyleRule) -> (r: Visited)
    ensures
        r@ == host_split(style@),
{
    if !has_single_selector(&style.selectors) {
        return Visited { rule: Rule::Style(style), host: None };
    }
    if all_host(&style.selectors) {
        return Visited { rule: Rule::Ignored, host: Some(style) };
    }
    let body: usize = style.body;
    let rest = filter_non_host(style.selectors);
    let mut single: Vec<Selector> = Vec::new();
    single.push(create_host_selector());
    assert(selector_views(single@) =~= seq![seq![host_component()]]);
    Visited {
        rule: Rule::Style(StyleRule { selectors: rest, body }),
        host: Some(StyleRule { selectors: single, body }),
    }
}

/// The at-rule that stands for the import of `url`.
pub fn import_style(url: String, loc: Location) -> (r: Rule)
    ensures
        r@ == import_style_rule(url@, loc),
{
    let mut prelude: Vec<TokenOrValue> = Vec::new();
    prelude.push(TokenOrValue::Token(Token::ParenthesisBlock));
    prelude.push(TokenOrValue::Token(Token::String(url)));
    prelude.push(TokenOrValue::Token(Token::CloseParenthesis));
    let r = Rule::Unknown { name: String::from_str(IMPORT_STYLE), prelude, loc };
    assert(r@->Unknown_prelude =~= import_style_rule(url@, loc)->Unknown_prelude);
    r
}

/// The texts of `fragments` one after the other, with a line break between
/// each two; `None` where there is no fragment.
pub fn join_host_css(fragments: &[String]) -> (r: Option<String>)
    ensures
        fragments.len() == 0 ==> r is None,
        fragments.len() > 0 ==> option_text(r) == Some(joined_lines(views(fragments@))),
{
    if fragments.len() == 0 {
        return None;
    }
    let ghost all = views(fragments@);
    let mut joined = String::new();
    let mut i: usize = 0;
    while i < fragments.len()
        invariant
            i <= fragments.len(),
            all == views(fragments@),
            joined@ == joined_lines(all.take(i as int)),
        decreases fragments.len() - i,
    {
        proof {
            assert(all.take(i + 1).drop_last() =~= all.take(i as int));
            assert(all.take(i + 1).last() == fragments[i as int]@);
        }
        if i > 0 {
            joined.push('\n');
            assert(joined_lines(all.take(i as int)).push('\n') =~= joined_lines(all.take(i as int))
                + seq!['\n']);
        } else {
            assert(joined@ + fragments[i as int]@ =~= fragments[i as int]@);
            assert(all.take(i + 1)[0] == fragments[i as int]@);
        }
        joined.append(fragments[i].as_str());
        i += 1;
    }
    assert(all.take(fragments.len() as int) =~= all);
    Some(joined)
}

/// What the compile of the host rules returns, given what the engine made of
/// their text.
pub fn host_outcome(outcome: Result<String, EngineError>) -> (r: Result<
    Option<String>,
    CompileError,
>)
    ensures
        is_host_result(r, outcome),
{
    match outcome {
        Ok(code) => Ok(Some(code)),
        Err(e) => Err(CompileError::from_engine_in_host(e)),
    }
}

/// Whether `r` is what the compile of the host rules `fragments` returns:
/// what `is_host_result` makes of the engine's output for their joined texts,
/// parsed strictly, minified for the targets of every compile and printed
/// without white space.
pub open spec fn is_host_compile(
    r: Result<Option<String>, CompileError>,
    fragments: Seq<Seq<char>>,
) -> bool {
    exists|outcome: Result<String, EngineError>|
        outcome_view(outcome) == engine_output(
            joined_lines(fragments),
            false,
            (CompileTargets { browsers: Some(target_browsers()) }),
            true,
        ) && is_host_result(r, outcome)
}

/// Compiles the rules for the host element: joins their texts, and has the
/// engine parse, minify and print the result like a style sheet of its own.
///
/// Without a fragment there is no CSS for the host element. Otherwise the
/// engine's output for the joined text is returned, or its failure as a host
/// error.
pub fn process_host_css(host_css_vec: &[String]) -> (r: Result<Option<String>, CompileError>)
    ensures
        host_css_vec.len() == 0 ==> r matches Ok(None),
        host_css_vec.len() > 0 ==> is_host_compile(r, views(host_css_vec@)),
{
    match join_host_css(host_css_vec) {
        None => Ok(None),
        Some(joined) => {
            let outcome = minify_and_print(
                joined.as_str(),
                get_parser_options().error_recovery,
                &get_minify_options().targets,
                get_printer_options().minify,
            );
            let r = host_outcome(outcome);
            assert(is_host_result(r, outcome));
            r
        },
    }
}

impl FactoryVisitor {
    /// The printed rules for the host element that the pass has taken in, in
    /// the order in which they came.
    pub closed spec fn host_css(self) -> Seq<Seq<char>> {
        host_css_items(self.host_css_vec)
    }

    /// A pass that has set nothing aside yet.
    pub fn new() -> (visitor: FactoryVisitor)
        ensures
            visitor.host_css() == Seq::<Seq<char>>::empty(),
    {
        FactoryVisitor { host_css_vec: host_css_new() }
    }

    /// Rewrites a selector where it stands.
    pub fn visit_selector(&self, selector: &mut Selector)
        ensures
            final(selector)@ == rewritten_selector(old(selector)@),
    {
        let rewritten = rewrite_selector(selector);
        *selector = rewritten;
    }

    /// Rewrites a part of a declaration's value where it stands.
    pub fn visit_token(&self, token: &mut TokenOrValue)
        ensures
            final(token)@ == rewritten_value(old(token)@),
    {
        let rewritten = rewrite_value(token);
        *token = rewritten;
    }

    /// Says what becomes of a rule: the rule that takes its place, and the
    /// rule that is to be printed into the CSS for the host element, if any.
    ///
    /// Fails on an at-rule that the engine does not know and that has a
    /// length in `rpx` in what follows its name, and on nothing else.
    pub fn visit_rule(&self, rule: Rule) -> (r: Result<Visited, CompileError>)
        ensures
            !is_refused(rule@) ==> (r matches Ok(visited) && visited@ == visited_rule(rule@)),
            is_refused(rule@) ==> (r matches Err(CompileError::Visit(words)) && words@ == refusal(
                rule@->Unknown_name,
            )),
    {
        match rule {
            Rule::Import { url, loc } => Ok(Visited { rule: import_style(url, loc), host: None }),
            Rule::Style(style) => {
                let selectors = rewrite_selectors(&style.selectors);
                Ok(split_host(StyleRule { selectors, body: style.body }))
            },
            Rule::Unknown { name, prelude, loc } => {
                if has_rpx(&prelude) {
                    let mut words = String::from_str("rpx is not supported in the prelude of @");
                    words.append(name.as_str());
                    Err(CompileError::Visit(words))
                } else {
                    Ok(Visited { rule: Rule::Unknown { name, prelude, loc }, host: None })
                }
            },
            Rule::Ignored => Ok(Visited { rule: Rule::Ignored, host: None }),
            Rule::Other(id) => Ok(Visited { rule: Rule::Other(id), host: None }),
        }
    }

    /// Takes in the printed form of a rule for the host element.
    pub fn push_host_css(&mut self, css: String)
        ensures
            final(self).host_css() == old(self).host_css().push(css@),
    {
        host_css_push(&mut self.host_css_vec, css);
    }

    /// The printed rules for the host element that the pass has taken in.
    pub fn host_css_vec(&self) -> (items: &[String])
        ensures
            views(items@) == self.host_css(),
    {
        host_css_as_slice(&self.host_css_vec)
    }

    /// The result of the conversion, given the printed main style sheet:
    /// with it goes the compiled CSS for the host element.
    pub fn finish(&self, css: String) -> (r: Result<ConvertResult, CompileError>)
        ensures
            self.host_css().len() == 0 ==> is_convert_result(r, css, Ok(None)),
            self.host_css().len() > 0 ==> exists|host: Result<Option<String>, CompileError>|
                is_host_compile(host, self.host_css()) && is_convert_result(r, css, host),
    {
        let fragments = self.host_css_vec();
        let host = process_host_css(fragments);
        proof {
            if fragments.len() > 0 {
                assert(is_host_compile(host, self.host_css()) && is_convert_result(
                    convert_result(css, host),
                    css,
                    host,
                ));
            }
        }
        match host {
            Ok(host_css) => Ok(ConvertResult { css, host_css }),
            Err(error) => Err(error),
        }
    }
}

} // verus!
