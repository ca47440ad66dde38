//! Selectors as the rewrite pass sees them, and the rewrite of one selector.

use crate::markers::{HOST, META_TAG, PREFIX, UNSUPPORTED_STAR, UNSUPPORTED_WEB_VIEW};
use vstd::prelude::*;

verus! {

/// How an attribute selector compares the attribute with its value.
#[derive(Clone, Copy, Debug, PartialEq, Eq, Structural)]
pub enum AttrOperator {
    Equal,
    Includes,
    DashMatch,
    Prefix,
    Substring,
    Suffix,
}

/// Whether an attribute selector tells upper case from lower case.
#[derive(Clone, Copy, Debug, PartialEq, Eq, Structural)]
pub enum CaseSensitivity {
    ExplicitCaseSensitive,
    AsciiCaseInsensitive,
    CaseSensitive,
    AsciiCaseInsensitiveIfInHtmlElementInHtmlDocument,
}

/// The pseudo-classes that wrap a list of selectors.
#[derive(Clone, Copy, Debug, PartialEq, Eq, Structural)]
pub enum ListKind {
    /// `:not()`
    Negation,
    /// `:is()`
    Is,
    /// `:where()`
    Where,
    /// `:has()`
    Has,
    /// `:any()` with a vendor prefix, given by its bits.
    Any(u8),
}

/// One component of a selector.
#[derive(Debug, PartialEq, Eq)]
pub enum Component {
    /// `.name`
    Class(String),
    /// `*`
    Universal,
    /// `:host`, with or without an argument.
    Host,
    /// A tag name, as written and in lower case.
    LocalName { name: String, lower_name: String },
    /// `[name operator value]`
    Attribute {
        name: String,
        operator: AttrOperator,
        value: String,
        case_sensitivity: CaseSensitivity,
        never_matches: bool,
    },
    /// A pseudo-class that wraps a list of selectors.
    List(ListKind, Vec<Selector>),
    /// Any other component. The number is the caller's: the rewrite hands it
    /// back untouched.
    Other(usize),
}

/// A selector: its components, combinators among them, in the order of the
/// engine.
#[derive(Debug, PartialEq, Eq)]
pub struct Selector {
    pub components: Vec<Component>,
}

/// What a component is, apart from how its strings are stored.
pub enum ComponentView {
    Class(Seq<char>),
    Universal,
    Host,
    LocalName { name: Seq<char>, lower_name: Seq<char> },
    Attribute {
        name: Seq<char>,
        operator: AttrOperator,
        value: Seq<char>,
        case_sensitivity: CaseSensitivity,
        never_matches: bool,
    },
    List(ListKind, Seq<Seq<ComponentView>>),
    Other(usize),
}

/// The views of the first `n` components of `list`.
pub open spec fn component_views_upto(list: Seq<Component>, n: nat) -> Seq<ComponentView>
    decreases list, n,
{
    if n == 0 || n > list.len() {
        Seq::empty()
    } else {
        component_views_upto(list, (n - 1) as nat).push(component_view(list[n - 1]))
    }
}

/// The views of the first `n` selectors of `list`.
pub open spec fn selector_views_upto(list: Seq<Selector>, n: nat) -> Seq<Seq<ComponentView>>
    decreases list, n,
{
    if n == 0 || n > list.len() {
        Seq::empty()
    } else {
        selector_views_upto(list, (n - 1) as nat).push(selector_view(list[n - 1]))
    }
}

/// What a component is: its strings by their characters, its selectors by
/// their views.
pub open spec fn component_view(c: Component) -> ComponentView
    decreases c,
{
    match c {
        Component::Class(name) => ComponentView::Class(name@),
        Component::Universal => ComponentView::Universal,
        Component::Host => ComponentView::Host,
        Component::LocalName { name, lower_name } => ComponentView::LocalName {
            name: name@,
            lower_name: lower_name@,
        },
        Component::Attribute { name, operator, value, case_sensitivity, never_matches } =>
            ComponentView::Attribute {
                name: name@,
                operator: operator,
                value: value@,
                case_sensitivity: case_sensitivity,
                never_matches: never_matches,
            },
        Component::List(kind, list) => ComponentView::List(
            kind,
            selector_views_upto(list@, list@.len()),
        ),
        Component::Other(id) => ComponentView::Other(id),
    }
}

/// What a selector is: the views of its components.
pub open spec fn selector_view(s: Selector) -> Seq<ComponentView>
    decreases s,
{
    component_views_upto(s.components@, s.components@.len())
}

impl View for Component {
    type V = ComponentView;

    open spec fn view(&self) -> ComponentView {
        component_view(*self)
    }
}

impl View for Selector {
    type V = Seq<ComponentView>;

    open spec fn view(&self) -> Seq<ComponentView> {
        selector_view(*self)
    }
}

/// The views of a list of components, one for one.
pub proof fn lemma_component_views(list: Seq<Component>, n: nat)
    requires
        n <= list.len(),
    ensures
        component_views_upto(list, n).len() == n,
        forall|i: int| 0 <= i < n ==> component_views_upto(list, n)[i] == list[i]@,
    decreases n,
{
    if n > 0 {
        lemma_component_views(list, (n - 1) as nat);
    }
}

/// The views of a list of selectors, one for one.
pub proof fn lemma_selector_views(list: Seq<Selector>, n: nat)
    requires
        n <= list.len(),
    ensures
        selector_views_upto(list, n).len() == n,
        forall|i: int| 0 <= i < n ==> selector_views_upto(list, n)[i] == list[i]@,
    decreases n,
{
    if n > 0 {
        lemma_selector_views(list, (n - 1) as nat);
    }
}

/// The views of a list of selectors.
pub open spec fn selector_views(list: Seq<Selector>) -> Seq<Seq<ComponentView>> {
    Seq::new(list.len(), |i: int| list[i]@)
}

/// The view of a selector holds the views of its components, one for one.
pub proof fn lemma_selector_view(s: Selector)
    ensures
        s@.len() == s.components.len(),
        forall|i: int| 0 <= i < s.components.len() ==> s@[i] == s.components[i]@,
{
    lemma_component_views(s.components@, s.components@.len());
}

/// The view of a pseudo-class that wraps selectors holds their views, one
/// for one.
pub proof fn lemma_list_view(c: Component)
    requires
        c is List,
    ensures
        c@ == ComponentView::List(c->List_0, selector_views(c->List_1@)),
{
    lemma_selector_views(c->List_1@, c->List_1@.len());
    assert(c@->List_1 =~= selector_views(c->List_1@));
}

/// The attribute selector that stands for the host element: `[is=__HOST__]`,
/// compared exactly and with upper and lower case told apart.
pub open spec fn host_component() -> ComponentView {
    ComponentView::Attribute {
        name: "is"@,
        operator: AttrOperator::Equal,
        value: HOST@,
        case_sensitivity: CaseSensitivity::CaseSensitive,
        never_matches: false,
    }
}

/// The tag selector for a tag that the renderer does not support.
pub open spec fn unsupported_tag(name: Seq<char>) -> ComponentView {
    ComponentView::LocalName { name: name, lower_name: name }
}

/// The first `n` selectors of `list`, rewritten.
pub open spec fn rewritten_selectors_upto(list: Seq<Seq<ComponentView>>, n: nat) -> Seq<
    Seq<ComponentView>,
>
    decreases list, n,
{
    if n == 0 || n > list.len() {
        Seq::empty()
    } else {
        rewritten_selectors_upto(list, (n - 1) as nat).push(rewritten_selector(list[n - 1]))
    }
}

/// The first `n` components of `s`, rewritten.
pub open spec fn rewritten_components_upto(s: Seq<ComponentView>, n: nat) -> Seq<ComponentView>
    decreases s, n,
{
    if n == 0 || n > s.len() {
        Seq::empty()
    } else {
        rewritten_components_upto(s, (n - 1) as nat).push(rewritten_component(s[n - 1]))
    }
}

/// What the rewrite makes of one component.
///
/// A class gets the prefix marker in front of its name (an empty name stays
/// as it is). The universal selector and the tag `web-view` become tags that
/// the renderer does not support, each its own. `:host` becomes the host
/// attribute selector. Any other tag becomes an attribute selector on the
/// tag attribute with the tag's name as its value. A pseudo-class that wraps
/// selectors keeps its kind and has each of its selectors rewritten. All
/// else stays.
pub open spec fn rewritten_component(c: ComponentView) -> ComponentView
    decreases c,
{
    match c {
        ComponentView::Class(name) => if name.len() == 0 {
            c
        } else {
            ComponentView::Class(PREFIX@ + name)
        },
        ComponentView::Universal => unsupported_tag(UNSUPPORTED_STAR@),
        ComponentView::Host => host_component(),
        ComponentView::LocalName { name, lower_name } => if name == "web-view"@ {
            unsupported_tag(UNSUPPORTED_WEB_VIEW@)
        } else {
            ComponentView::Attribute {
                name: META_TAG@,
                operator: AttrOperator::Equal,
                value: name,
                case_sensitivity: CaseSensitivity::CaseSensitive,
                never_matches: false,
            }
        },
        ComponentView::List(kind, list) => ComponentView::List(
            kind,
            rewritten_selectors_upto(list, list.len()),
        ),
        _ => c,
    }
}

/// What the rewrite makes of a selector: each component rewritten, in place.
pub open spec fn rewritten_selector(s: Seq<ComponentView>) -> Seq<ComponentView>
    decreases s,
{
    rewritten_components_upto(s, s.len())
}

/// What the rewrite makes of a list of selectors: each selector rewritten,
/// in place.
pub open spec fn rewritten_selectors(list: Seq<Seq<ComponentView>>) -> Seq<Seq<ComponentView>> {
    rewritten_selectors_upto(list, list.len())
}

/// A rewritten selector has as many components as the selector, and each is
/// the rewritten component at the same place.
pub proof fn lemma_rewritten_selector(s: Seq<ComponentView>, n: nat)
    requires
        n <= s.len(),
    ensures
        rewritten_components_upto(s, n).len() == n,
        forall|i: int| 0 <= i < n ==> rewritten_components_upto(s, n)[i] == rewritten_component(s[i]),
    decreases n,
{
    if n > 0 {
        lemma_rewritten_selector(s, (n - 1) as nat);
    }
}

/// A rewritten list of selectors has as many selectors as the list, and each
/// is the rewritten selector at the same place.
pub proof fn lemma_rewritten_selectors(list: Seq<Seq<ComponentView>>, n: nat)
    requires
        n <= list.len(),
    ensures
        rewritten_selectors_upto(list, n).len() == n,
        forall|i: int|
            0 <= i < n ==> rewritten_selectors_upto(list, n)[i] == rewritten_selector(list[i]),
    decreases n,
{
    if n > 0 {
        lemma_rewritten_selectors(list, (n - 1) as nat);
    }
}

/// Whether a selector is the host selector: a single component, an attribute
/// selector that compares `is` for equality with the host marker.
pub open spec fn is_host(s: Seq<ComponentView>) -> bool {
    s.len() == 1 && match s[0] {
        ComponentView::Attribute { name, operator, value, .. } => name == "is"@ && operator
            == AttrOperator::Equal && value == HOST@,
        _ => false,
    }
}

/// The class names in the first `n` components of `s`, those inside wrapped
/// selectors too, in the order of the components.
pub open spec fn class_names_upto(s: Seq<ComponentView>, n: nat) -> Seq<Seq<char>>
    decreases s, n,
{
    if n == 0 || n > s.len() {
        Seq::empty()
    } else {
        class_names_upto(s, (n - 1) as nat) + class_names_of(s[n - 1])
    }
}

/// The class names in the first `n` selectors of `list`.
pub open spec fn class_names_in_upto(list: Seq<Seq<ComponentView>>, n: nat) -> Seq<Seq<char>>
    decreases list, n,
{
    if n == 0 || n > list.len() {
        Seq::empty()
    } else {
        class_names_in_upto(list, (n - 1) as nat) + class_names_upto(list[n - 1], list[n - 1].len())
    }
}

/// The class names in a component: its own, or those of the selectors that
/// it wraps.
pub open spec fn class_names_of(c: ComponentView) -> Seq<Seq<char>>
    decreases c,
{
    match c {
        ComponentView::Class(name) => seq![name],
        ComponentView::List(kind, list) => class_names_in_upto(list, list.len()),
        _ => Seq::empty(),
    }
}

/// The class names in a selector, those inside `:not()`, `:is()`, `:where()`,
/// `:has()` and `:any()` too, in the order of the components.
pub open spec fn class_names(s: Seq<ComponentView>) -> Seq<Seq<char>> {
    class_names_upto(s, s.len())
}

/// A class name with the prefix marker in front; the empty name as it is.
pub open spec fn prefixed(name: Seq<char>) -> Seq<char> {
    if name.len() == 0 {
        name
    } else {
        PREFIX@ + name
    }
}

/// Each of `names` with the prefix marker in front.
pub open spec fn all_prefixed(names: Seq<Seq<char>>) -> Seq<Seq<char>> {
    Seq::new(names.len(), |i: int| prefixed(names[i]))
}

/// The class names of a rewritten component are those of the component,
/// each prefixed.
proof fn lemma_class_names_component(c: ComponentView)
    ensures
        class_names_of(rewritten_component(c)) == all_prefixed(class_names_of(c)),
    decreases c,
{
    match c {
        ComponentView::List(kind, list) => {
            lemma_class_names_list(list, list.len());
            lemma_rewritten_selectors(list, list.len());
        },
        _ => {},
    }
    assert(class_names_of(rewritten_component(c)) =~= all_prefixed(class_names_of(c)));
}

/// The class names in the first `n` components of a rewritten selector are
/// those in the first `n` components of the selector, each prefixed.
proof fn lemma_class_names_selector(s: Seq<ComponentView>, n: nat)
    requires
        n <= s.len(),
    ensures
        class_names_upto(rewritten_selector(s), n) == all_prefixed(class_names_upto(s, n)),
    decreases s, n,
{
    lemma_rewritten_selector(s, s.len());
    if n > 0 {
        lemma_class_names_selector(s, (n - 1) as nat);
        lemma_class_names_component(s[n - 1]);
    }
    assert(class_names_upto(rewritten_selector(s), n) =~= all_prefixed(class_names_upto(s, n)));
}

/// The class names in the first `n` selectors of a rewritten list are those
/// in the first `n` selectors of the list, each prefixed.
proof fn lemma_class_names_list(list: Seq<Seq<ComponentView>>, n: nat)
    requires
        n <= list.len(),
    ensures
        class_names_in_upto(rewritten_selectors(list), n) == all_prefixed(
            class_names_in_upto(list, n),
        ),
    decreases list, n,
{
    lemma_rewritten_selectors(list, list.len());
    if n > 0 {
        lemma_class_names_list(list, (n - 1) as nat);
        let s = list[n - 1];
        lemma_class_names_selector(s, s.len());
        lemma_rewritten_selector(s, s.len());
    }
    assert(class_names_in_upto(rewritten_selectors(list), n) =~= all_prefixed(
        class_names_in_upto(list, n),
    ));
}

/// Every class name of a selector, at whatever depth it stands, comes out of
/// the rewrite with the prefix marker directly in front of it: the rewritten
/// selector has the same class names in the same order, each prefixed.
pub proof fn lemma_classes_are_prefixed(s: Seq<ComponentView>)
    ensures
        class_names(rewritten_selector(s)) == all_prefixed(class_names(s)),
{
    lemma_rewritten_selector(s, s.len());
    lemma_class_names_selector(s, s.len());
}

/// The universal selector becomes the tag that stands for it wherever it is
/// in a selector, whatever stands around it.
pub proof fn lemma_universal_is_unsupported(s: Seq<ComponentView>, i: int)
    requires
        0 <= i < s.len(),
        s[i] == ComponentView::Universal,
    ensures
        rewritten_selector(s).len() == s.len(),
        rewritten_selector(s)[i] == unsupported_tag(UNSUPPORTED_STAR@),
{
    lemma_rewritten_selector(s, s.len());
}

/// Whether the first `n` components of `s` are left alone by the rewrite.
pub open spec fn untouched_upto(s: Seq<ComponentView>, n: nat) -> bool
    decreases s, n,
{
    if n == 0 || n > s.len() {
        true
    } else {
        untouched_upto(s, (n - 1) as nat) && is_untouched(s[n - 1])
    }
}

/// Whether the first `n` selectors of `list` are left alone by the rewrite.
pub open spec fn untouched_in_upto(list: Seq<Seq<ComponentView>>, n: nat) -> bool
    decreases list, n,
{
    if n == 0 || n > list.len() {
        true
    } else {
        untouched_in_upto(list, (n - 1) as nat) && untouched_upto(list[n - 1], list[n - 1].len())
    }
}

/// Whether a component is none of those that the rewrite changes: no class
/// with a name, no universal selector, no `:host`, no tag, and none of them
/// inside the selectors that it wraps.
pub open spec fn is_untouched(c: ComponentView) -> bool
    decreases c,
{
    match c {
        ComponentView::Class(name) => name.len() == 0,
        ComponentView::Universal => false,
        ComponentView::Host => false,
        ComponentView::LocalName { name, lower_name } => false,
        ComponentView::List(kind, list) => untouched_in_upto(list, list.len()),
        _ => true,
    }
}

/// A component that holds nothing for the rewrite to change stays.
proof fn lemma_untouched_component(c: ComponentView)
    requires
        is_untouched(c),
    ensures
        rewritten_component(c) == c,
    decreases c,
{
    match c {
        ComponentView::List(kind, list) => {
            lemma_untouched_list(list, list.len());
            assert(list.take(list.len() as int) =~= list);
        },
        _ => {},
    }
}

/// The first `n` components of a selector stay where they hold nothing for
/// the rewrite to change.
proof fn lemma_untouched_selector(s: Seq<ComponentView>, n: nat)
    requires
        n <= s.len(),
        untouched_upto(s, n),
    ensures
        rewritten_components_upto(s, n) == s.take(n as int),
    decreases s, n,
{
    if n > 0 {
        lemma_untouched_selector(s, (n - 1) as nat);
        lemma_untouched_component(s[n - 1]);
    }
    assert(rewritten_components_upto(s, n) =~= s.take(n as int));
}

/// The first `n` selectors of a list stay where they hold nothing for the
/// rewrite to change.
proof fn lemma_untouched_list(list: Seq<Seq<ComponentView>>, n: nat)
    requires
        n <= list.len(),
        untouched_in_upto(list, n),
    ensures
        rewritten_selectors_upto(list, n) == list.take(n as int),
    decreases list, n,
{
    if n > 0 {
        lemma_untouched_list(list, (n - 1) as nat);
        let s = list[n - 1];
        lemma_untouched_selector(s, s.len());
        assert(s.take(s.len() as int) =~= s);
        assert(rewritten_selector(s) == s);
        assert(list.take(n as int) =~= list.take(n - 1).push(s));
    }
    assert(rewritten_selectors_upto(list, n) =~= list.take(n as int));
}

/// The rewrite is the identity on a list of selectors that hold nothing for
/// it to change.
pub proof fn lemma_untouched_selectors_stay(list: Seq<Seq<ComponentView>>)
    requires
        untouched_in_upto(list, list.len()),
    ensures
        rewritten_selectors(list) == list,
{
    lemma_untouched_list(list, list.len());
    assert(list.take(list.len() as int) =~= list);
}

/// The host attribute selector as a component.
pub fn create_host_component() -> (c: Component)
    ensures
        c@ == host_component(),
{
    Component::Attribute {
        name: String::from_str("is"),
        operator: AttrOperator::Equal,
        value: String::from_str(HOST),
        case_sensitivity: CaseSensitivity::CaseSensitive,
        never_matches: false,
    }
}

/// The selector that holds the host attribute selector and nothing else.
pub fn create_host_selector() -> (s: Selector)
    ensures
        s@ == seq![host_component()],
        is_host(s@),
{
    let mut components: Vec<Component> = Vec::new();
    components.push(create_host_component());
    let s = Selector { components };
    proof {
        lemma_selector_view(s);
        assert(s@ =~= seq![host_component()]);
    }
    s
}

/// Whether `selector` is the host selector.
pub fn is_host_selector(selector: &Selector) -> (r: bool)
    ensures
        r == is_host(selector@),
{
    proof {
        lemma_selector_view(*selector);
    }
    if selector.components.len() != 1 {
        return false;
    }
    match &selector.components[0] {
        Component::Attribute { name, operator, value, .. } => {
            *name == String::from_str("is") && *operator == AttrOperator::Equal && *value
                == String::from_str(HOST)
        },
        _ => false,
    }
}

/// Rewrites one component.
pub fn rewrite_component(c: &Component) -> (r: Component)
    ensures
        r@ == rewritten_component(c@),
    decreases c,
{
    match c {
        Component::Class(name) => {
            if name.as_str().is_empty() {
                Component::Class(name.clone())
            } else {
                let mut prefixed = String::from_str(PREFIX);
                prefixed.append(name.as_str());
                Component::Class(prefixed)
            }
        },
        Component::Universal => Component::LocalName {
            name: String::from_str(UNSUPPORTED_STAR),
            lower_name: String::from_str(UNSUPPORTED_STAR),
        },
        Component::Host => create_host_component(),
        Component::LocalName { name, lower_name } => {
            if *name == String::from_str("web-view") {
                Component::LocalName {
                    name: String::from_str(UNSUPPORTED_WEB_VIEW),
                    lower_name: String::from_str(UNSUPPORTED_WEB_VIEW),
                }
            } else {
                Component::Attribute {
                    name: String::from_str(META_TAG),
                    operator: AttrOperator::Equal,
                    value: name.clone(),
                    case_sensitivity: CaseSensitivity::CaseSensitive,
                    never_matches: false,
                }
            }
        },
        Component::Attribute { name, operator, value, case_sensitivity, never_matches } => {
            Component::Attribute {
                name: name.clone(),
                operator: *operator,
                value: value.clone(),
                case_sensitivity: *case_sensitivity,
                never_matches: *never_matches,
            }
        },
        Component::List(kind, list) => {
            let mut out: Vec<Selector> = Vec::new();
            let mut i: usize = 0;
            while i < list.len()
                invariant
                    i <= list.len(),
                    out.len() == i,
                    *c == Component::List(*kind, *list),
                    forall|j: int| 0 <= j < i ==> out[j]@ == rewritten_selector(list[j]@),
                decreases list.len() - i,
            {
                assert(decreases_to!(c => c->List_1));
                out.push(rewrite_selector(&list[i]));
                i += 1;
            }
            let r = Component::List(*kind, out);
            proof {
                lemma_list_view(*c);
                lemma_list_view(r);
                lemma_rewritten_selectors(selector_views(list@), list@.len());
                assert(r@->List_1 =~= rewritten_component(c@)->List_1);
            }
            r
        },
        Component::Other(id) => Component::Other(*id),
    }
}

/// Rewrites a selector.
pub fn rewrite_selector(selector: &Selector) -> (r: Selector)
    ensures
        r@ == rewritten_selector(selector@),
    decreases selector,
{
    let mut out: Vec<Component> = Vec::new();
    let mut i: usize = 0;
    while i < selector.components.len()
        invariant
            i <= selector.components.len(),
            out.len() == i,
            forall|j: int| 0 <= j < i ==> out[j]@ == rewritten_component(selector.components[j]@),
        decreases selector.components.len() - i,
    {
        out.push(rewrite_component(&selector.components[i]));
        i += 1;
    }
    let r = Selector { components: out };
    proof {
        lemma_selector_view(r);
        lemma_selector_view(*selector);
        lemma_rewritten_selector(selector@, selector@.len());
        assert(r@ =~= rewritten_selector(selector@));
    }
    r
}

} // verus!
