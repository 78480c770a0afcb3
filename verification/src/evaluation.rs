//! What a query gives on the elements of a document.

use crate::ast::{ActionView, EntriesView, ExpressionView};
use crate::dom::{
    as_element, attribute_value, following_siblings, fragment_root, matches_below, parent_node,
    parsed_fragment, text_nodes,
};
use crate::json::{FieldsModel, Json};
use crate::text::trimmed;
use vstd::prelude::*;

verus! {

/// The current elements of an evaluation, in their order.
pub type Roots<'a> = Seq<scraper::ElementRef<'a>>;

/// Why an expression found nothing to work on, as mathematical values.
pub enum MissView {
    EmptySelector(Seq<char>),
    EmptyRoot,
}

/// The pieces one after the other.
pub open spec fn joined(pieces: Seq<Seq<char>>) -> Seq<char>
    decreases pieces.len(),
{
    if pieces.len() == 0 {
        Seq::empty()
    } else {
        joined(pieces.drop_last()) + pieces.last()
    }
}

/// The text below `element`: the contents of its text nodes joined, without
/// the whitespace at either end.
pub open spec fn text_below(element: scraper::ElementRef) -> Seq<char> {
    trimmed(joined(text_nodes(element)))
}

/// The elements among `nodes`, in their order.
pub open spec fn elements_among(nodes: Seq<ego_tree::NodeRef<scraper::Node>>) -> Seq<
    scraper::ElementRef<'_>,
>
    decreases nodes.len(),
{
    if nodes.len() == 0 {
        Seq::empty()
    } else {
        match as_element(nodes.last()) {
            Some(element) => elements_among(nodes.drop_last()).push(element),
            None => elements_among(nodes.drop_last()),
        }
    }
}

/// The parent of `element`, if it has one and that is an element.
pub open spec fn parent_element(element: scraper::ElementRef) -> Option<scraper::ElementRef<'_>> {
    match parent_node(element) {
        Some(node) => as_element(node),
        None => None,
    }
}

/// The elements that an expression moves to from `roots`, of which only the
/// first counts. A miss where there is no root, where a selector matches
/// nothing (it carries the selector's text), where there is no parent
/// element, and where there are fewer than `n` following element siblings or
/// `n` is 0. `@text` and `@(name)` move nowhere: this is not asked of them.
pub open spec fn moved<'a>(expression: ExpressionView, roots: Roots<'a>) -> Result<
    Roots<'a>,
    MissView,
> {
    if roots.len() == 0 {
        Err(MissView::EmptyRoot)
    } else {
        match expression {
            ExpressionView::Selector(compiled, source) => {
                let found = matches_below(roots[0], compiled);
                if found.len() == 0 {
                    Err(MissView::EmptySelector(source))
                } else {
                    Ok(found)
                }
            },
            ExpressionView::Parent => match parent_element(roots[0]) {
                Some(parent) => Ok(seq![parent]),
                None => Err(MissView::EmptyRoot),
            },
            ExpressionView::Sibling(n) => {
                let siblings = elements_among(following_siblings(roots[0]));
                if 1 <= n <= siblings.len() {
                    Ok(seq![siblings[n - 1]])
                } else {
                    Err(MissView::EmptyRoot)
                }
            },
            _ => Ok(roots),
        }
    }
}

/// What an expression and what may follow its pipe give on `roots`.
///
/// `@text` gives the text below the first root and `@(name)` the trimmed
/// value of its attribute `name`, or null if it has none; neither looks at
/// what follows the pipe. Any other expression moves to other elements
/// ([`moved`]): what follows the pipe is then evaluated on those, and with no
/// pipe the text below the first of them is given.
pub open spec fn expression_outcome(
    expression: ExpressionView,
    next: Option<Box<ActionView>>,
    roots: Roots,
) -> Result<Json, MissView>
    decreases next, 0nat,
{
    match moved(expression, roots) {
        Err(miss) => Err(miss),
        Ok(found) => match expression {
            ExpressionView::Text => Ok(Json::String(text_below(roots[0]))),
            ExpressionView::Attribute(name) => Ok(
                match attribute_value(roots[0], name) {
                    Some(value) => Json::String(trimmed(value)),
                    None => Json::Null,
                },
            ),
            _ => match next {
                Some(inner) => Ok(output(*inner, found)),
                None => Ok(Json::String(text_below(found[0]))),
            },
        },
    }
}

/// What `action` gives on `roots`.
///
/// An object evaluates every entry on the same roots. The two bracketed forms
/// give an array with one item for each root, in the order of the roots:
/// what the object or the value gives on that root alone. An expression that
/// misses gives null.
pub open spec fn output(action: ActionView, roots: Roots) -> Json
    decreases action, 0nat,
{
    match action {
        ActionView::Child(entries) => Json::Object(fields_of(entries, roots, entries.len())),
        ActionView::ForEachChild(entries) => Json::Array(
            Seq::new(
                roots.len(),
                |i: int| Json::Object(fields_of(entries, seq![roots[i]], entries.len())),
            ),
        ),
        ActionView::ForEachChildArray(inner) => Json::Array(
            Seq::new(roots.len(), |i: int| output(*inner, seq![roots[i]])),
        ),
        ActionView::Expression(expression, next) => match expression_outcome(
            expression,
            next,
            roots,
        ) {
            Ok(value) => value,
            Err(_) => Json::Null,
        },
    }
}

/// The fields that the first `count` of `entries` give on `roots`: each key
/// with what its value gives, a later entry replacing an earlier one with the
/// same key.
pub open spec fn fields_of(entries: EntriesView, roots: Roots, count: nat) -> FieldsModel
    decreases entries, count,
{
    if 0 < count <= entries.len() {
        fields_of(entries, roots, (count - 1) as nat).insert(
            entries[count - 1].0,
            output(entries[count - 1].1, roots),
        )
    } else {
        Map::empty()
    }
}

/// The keys of the first `count` of `entries`.
pub open spec fn keys_of(entries: EntriesView, count: nat) -> Set<Seq<char>> {
    Set::new(
        |key: Seq<char>|
            exists|i: int| 0 <= i < count && i < entries.len() && entries[i].0 == key,
    )
}

/// The fields that entries give are those of their keys, whatever the roots.
pub proof fn lemma_fields_have_the_keys(entries: EntriesView, roots: Roots, count: nat)
    requires
        count <= entries.len(),
    ensures
        fields_of(entries, roots, count).dom() == keys_of(entries, count),
    decreases count,
{
    if count > 0 {
        let before = (count - 1) as nat;
        lemma_fields_have_the_keys(entries, roots, before);
        assert(keys_of(entries, count) =~= keys_of(entries, before).insert(entries[count - 1].0));
    }
    assert(fields_of(entries, roots, count).dom() =~= keys_of(entries, count));
}

/// What a query gives on a document: the object that its entries give on the
/// root element of the document, parsed as an HTML fragment.
pub open spec fn extracted(document: Seq<char>, entries: EntriesView) -> Json {
    Json::Object(fields_of(entries, seq![fragment_root(&parsed_fragment(document))], entries.len()))
}

} // verus!
