//! What is taken for granted of `scraper` and `ego_tree`: the types of theirs
//! that run through the library, names for what their functions return, and
//! one wrapper for each function that the library calls. Nothing here is
//! proved; each wrapper says which function it calls and what it claims of it.

use vstd::prelude::*;

verus! {

/// A parsed HTML fragment, as `scraper` holds it.
#[verifier::external_type_specification]
#[verifier::external_body]
pub struct ExHtml(scraper::Html);

/// A node of a parsed fragment: an element, a text, a comment and so on.
#[verifier::external_type_specification]
#[verifier::external_body]
pub struct ExNode(scraper::Node);

/// A reference to a node of a tree.
#[verifier::external_type_specification]
#[verifier::external_body]
#[verifier::reject_recursive_types(T)]
pub struct ExNodeRef<'a, T: 'a>(ego_tree::NodeRef<'a, T>);

/// A reference to an element node of a parsed fragment.
#[verifier::external_type_specification]
#[verifier::external_body]
pub struct ExElementRef<'a>(scraper::ElementRef<'a>);

/// A compiled CSS selector group.
#[verifier::external_type_specification]
#[verifier::external_body]
pub struct ExSelector(scraper::Selector);

/// The selector group that `text` compiles to, if it is one.
pub uninterp spec fn compiled_selector(text: Seq<char>) -> Option<scraper::Selector>;

/// The tree that `text` parses to as an HTML fragment.
pub uninterp spec fn parsed_fragment(text: Seq<char>) -> scraper::Html;

/// The root element of a parsed fragment.
pub uninterp spec fn fragment_root(fragment: &scraper::Html) -> scraper::ElementRef<'_>;

/// The elements below `scope` that match `selector`, in document order.
pub uninterp spec fn matches_below(scope: scraper::ElementRef, selector: scraper::Selector) -> Seq<
    scraper::ElementRef<'_>,
>;

/// The contents of the text nodes below `element`, in document order.
pub uninterp spec fn text_nodes(element: scraper::ElementRef) -> Seq<Seq<char>>;

/// The value that `element` gives to its attribute `name`, if it has it.
pub uninterp spec fn attribute_value(element: scraper::ElementRef, name: Seq<char>) -> Option<
    Seq<char>,
>;

/// The parent node of `element`, if it has one.
pub uninterp spec fn parent_node(element: scraper::ElementRef) -> Option<
    ego_tree::NodeRef<'_, scraper::Node>,
>;

/// The siblings that follow `element`, nearest first, whatever kind of node
/// they are.
pub uninterp spec fn following_siblings(element: scraper::ElementRef) -> Seq<
    ego_tree::NodeRef<'_, scraper::Node>,
>;

/// `node` as an element, if it is one.
pub uninterp spec fn as_element(node: ego_tree::NodeRef<scraper::Node>) -> Option<
    scraper::ElementRef<'_>,
>;

/// `Selector::parse`: compiles `text`, or refuses it. The reason for a
/// refusal is dropped.
#[verifier::external_body]
pub(crate) fn compile(text: &str) -> (compiled: Option<scraper::Selector>)
    ensures
        compiled == compiled_selector(text@),
{
    scraper::Selector::parse(text).ok()
}

/// `Html::parse_fragment`: parses `text`, which never fails.
#[verifier::external_body]
pub(crate) fn parse_fragment(text: &str) -> (fragment: scraper::Html)
    ensures
        fragment == parsed_fragment(text@),
{
    scraper::Html::parse_fragment(text)
}

/// `Html::root_element`: the root element, which every parsed fragment has.
#[verifier::external_body]
pub(crate) fn root_element(fragment: &scraper::Html) -> (root: scraper::ElementRef<'_>)
    requires
        exists|text: Seq<char>| *fragment == parsed_fragment(text),
    ensures
        root == fragment_root(fragment),
{
    fragment.root_element()
}

/// `ElementRef::select`: the matching elements below `scope`, in document
/// order.
#[verifier::external_body]
pub(crate) fn select<'a>(scope: scraper::ElementRef<'a>, selector: &scraper::Selector) -> (found:
    Vec<scraper::ElementRef<'a>>)
    ensures
        found@ == matches_below(scope, *selector),
{
    scope.select(selector).collect()
}

/// `ElementRef::text`: the contents of the text nodes below `element`, in
/// document order.
#[verifier::external_body]
pub(crate) fn text_pieces(element: scraper::ElementRef) -> (pieces: Vec<String>)
    ensures
        pieces.deep_view() == text_nodes(element),
{
    element.text().map(|piece| piece.to_string()).collect()
}

/// The lookup in `Element::attrs` by a name without prefix and namespace:
/// the value of the attribute `name`, if the element has it.
#[verifier::external_body]
pub(crate) fn attribute(element: scraper::ElementRef, name: &str) -> (value: Option<String>)
    ensures
        value.deep_view() == attribute_value(element, name@),
{
    let name = markup5ever::QualName::new(
        None,
        markup5ever::Namespace::from(""),
        markup5ever::LocalName::from(name),
    );
    element.value().attrs.get(&name).map(|value| value.to_string())
}

/// `NodeRef::parent`: the parent node, if there is one.
#[verifier::external_body]
pub(crate) fn parent<'a>(element: scraper::ElementRef<'a>) -> (node: Option<
    ego_tree::NodeRef<'a, scraper::Node>,
>)
    ensures
        node == parent_node(element),
{
    element.parent()
}

/// `NodeRef::next_siblings`: the siblings that follow, nearest first.
#[verifier::external_body]
pub(crate) fn next_siblings<'a>(element: scraper::ElementRef<'a>) -> (nodes: Vec<
    ego_tree::NodeRef<'a, scraper::Node>,
>)
    ensures
        nodes@ == following_siblings(element),
{
    element.next_siblings().collect()
}

/// `ElementRef::wrap`: the node as an element, if it is one.
#[verifier::external_body]
pub(crate) fn wrap<'a>(node: ego_tree::NodeRef<'a, scraper::Node>) -> (element: Option<
    scraper::ElementRef<'a>,
>)
    ensures
        element == as_element(node),
{
    scraper::ElementRef::wrap(node)
}

} // verus!
