//! What holds of every query and every document.

use crate::ast::{entries_view, ActionView, Entries, EntriesView, ExpressionView};
use crate::dom::{
    attribute_value, following_siblings, fragment_root, matches_below, parsed_fragment, text_nodes,
};
use crate::evaluation::{
    elements_among, expression_outcome, extracted, fields_of, joined, keys_of,
    lemma_fields_have_the_keys, moved, output, parent_element, Roots,
};
use crate::error::ParseError;
use crate::grammar::query_outcome;
use crate::json::Json;
use crate::parser::compiles_to;
use crate::text::{is_trimmed, lemma_trimmed_is_trimmed};
use vstd::prelude::*;

verus! {

/// Whether entry `i` is the last of `entries` with its key.
pub open spec fn is_last_of_its_key(entries: EntriesView, i: int) -> bool {
    &&& 0 <= i < entries.len()
    &&& forall|j: int| i < j < entries.len() ==> (#[trigger] entries[j]).0 != entries[i].0
}

/// A field holds what the last entry with its key gives, whatever the other
/// entries are.
pub proof fn lemma_field_is_of_its_entry(entries: EntriesView, roots: Roots, count: nat, i: int)
    requires
        0 <= i < count <= entries.len(),
        forall|j: int| i < j < count ==> (#[trigger] entries[j]).0 != entries[i].0,
    ensures
        fields_of(entries, roots, count).dom().contains(entries[i].0),
        fields_of(entries, roots, count)[entries[i].0] == output(entries[i].1, roots),
    decreases count,
{
    if i < count - 1 {
        lemma_field_is_of_its_entry(entries, roots, (count - 1) as nat, i);
    }
}

/// Whatever the document holds, the object that a compiled query gives has
/// exactly the keys of the query.
pub proof fn law_output_has_the_keys_of_the_query(query: Seq<char>, document: Seq<char>)
    requires
        query_outcome(query) is Ok,
    ensures
        ({
            let entries = query_outcome(query)->Ok_0;
            &&& extracted(document, entries) is Object
            &&& extracted(document, entries)->Object_0.dom() == keys_of(entries, entries.len())
        }),
{
    let entries = query_outcome(query)->Ok_0;
    lemma_fields_have_the_keys(
        entries,
        seq![fragment_root(&parsed_fragment(document))],
        entries.len(),
    );
}

/// Compiling the same text twice gives the same: queries that hold the same,
/// or diagnostics that hold the same.
pub proof fn law_compiling_is_repeatable(
    input: Seq<char>,
    first: Result<Entries, ParseError>,
    second: Result<Entries, ParseError>,
)
    requires
        compiles_to(input, first),
        compiles_to(input, second),
    ensures
        match (first, second) {
            (Ok(one), Ok(other)) => entries_view(one) == entries_view(other),
            (Err(one), Err(other)) => one@ == other@,
            _ => false,
        },
{
}

/// A selector that matches nothing gives null, whatever follows its pipe.
pub proof fn law_selector_without_match_gives_null(
    compiled: scraper::Selector,
    source: Seq<char>,
    next: Option<Box<ActionView>>,
    roots: Roots,
)
    requires
        roots.len() == 0 || matches_below(roots[0], compiled).len() == 0,
    ensures
        output(ActionView::Expression(ExpressionView::Selector(compiled, source), next), roots)
            == Json::Null,
{
    reveal_with_fuel(output, 2);
    reveal_with_fuel(expression_outcome, 2);
}

/// Where the first root has no parent element, `@parent` gives null; where
/// it has fewer than `n` following element siblings, or `n` is 0,
/// `@sibling(n)` gives null; and with no root both give null. What follows
/// the pipe makes no difference.
pub proof fn law_missing_parent_or_sibling_gives_null(
    n: nat,
    next: Option<Box<ActionView>>,
    roots: Roots,
)
    ensures
        roots.len() == 0 || parent_element(roots[0]) is None ==> output(
            ActionView::Expression(ExpressionView::Parent, next),
            roots,
        ) == Json::Null,
        roots.len() == 0 || n == 0 || n > elements_among(following_siblings(roots[0])).len()
            ==> output(ActionView::Expression(ExpressionView::Sibling(n), next), roots)
            == Json::Null,
{
    reveal_with_fuel(output, 2);
    reveal_with_fuel(expression_outcome, 2);
}

/// In an object, a selector that matches nothing makes its own field null
/// and leaves every other field what that field's entry gives.
pub proof fn law_null_on_miss(
    entries: EntriesView,
    roots: Roots,
    miss: int,
    other: int,
)
    requires
        is_last_of_its_key(entries, miss),
        is_last_of_its_key(entries, other),
        entries[miss].1 matches ActionView::Expression(ExpressionView::Selector(compiled, _), _)
            && (roots.len() == 0 || matches_below(roots[0], compiled).len() == 0),
    ensures
        ({
            let fields = fields_of(entries, roots, entries.len());
            &&& output(ActionView::Child(entries), roots) == Json::Object(fields)
            &&& fields[entries[miss].0] == Json::Null
            &&& fields[entries[other].0] == output(entries[other].1, roots)
        }),
{
    lemma_field_is_of_its_entry(entries, roots, entries.len(), miss);
    lemma_field_is_of_its_entry(entries, roots, entries.len(), other);
    match entries[miss].1 {
        ActionView::Expression(ExpressionView::Selector(compiled, source), next) => {
            law_selector_without_match_gives_null(compiled, source, next, roots);
        },
        _ => {},
    }
}

/// What `@text` and `@(name)` give is null or a text that neither starts nor
/// ends with whitespace.
pub proof fn law_text_and_attribute_are_trimmed(
    expression: ExpressionView,
    next: Option<Box<ActionView>>,
    roots: Roots,
)
    requires
        expression is Text || expression is Attribute,
    ensures
        match output(ActionView::Expression(expression, next), roots) {
            Json::String(text) => is_trimmed(text),
            Json::Null => true,
            _ => false,
        },
{
    reveal_with_fuel(output, 2);
    reveal_with_fuel(expression_outcome, 2);
    if roots.len() > 0 {
        match expression {
            ExpressionView::Text => {
                lemma_trimmed_is_trimmed(joined(text_nodes(roots[0])));
            },
            ExpressionView::Attribute(name) => {
                if let Some(value) = attribute_value(roots[0], name) {
                    lemma_trimmed_is_trimmed(value);
                }
            },
            _ => {},
        }
    }
}

/// The text that an expression gives where nothing follows its pipe neither
/// starts nor ends with whitespace.
pub proof fn law_bare_expression_is_trimmed(expression: ExpressionView, roots: Roots)
    ensures
        match output(ActionView::Expression(expression, None), roots) {
            Json::String(text) => is_trimmed(text),
            Json::Null => true,
            _ => false,
        },
{
    reveal_with_fuel(output, 2);
    reveal_with_fuel(expression_outcome, 2);
    if expression is Text || expression is Attribute {
        law_text_and_attribute_are_trimmed(expression, None, roots);
    } else if let Ok(found) = moved(expression, roots) {
        lemma_trimmed_is_trimmed(joined(text_nodes(found[0])));
    }
}

/// The two bracketed forms give one item for each root, in the order of the
/// roots: the item at a place is what the object or the value gives on the
/// root at that place.
pub proof fn law_arrays_follow_the_roots(entries: EntriesView, inner: ActionView, roots: Roots)
    ensures
        output(ActionView::ForEachChild(entries), roots) matches Json::Array(items) && items.len()
            == roots.len() && forall|i: int|
            0 <= i < roots.len() ==> #[trigger] items[i] == output(
                ActionView::Child(entries),
                seq![roots[i]],
            ),
        output(ActionView::ForEachChildArray(Box::new(inner)), roots) matches Json::Array(items)
            && items.len() == roots.len() && forall|i: int|
            0 <= i < roots.len() ==> #[trigger] items[i] == output(inner, seq![roots[i]]),
{
}

/// A selector piped into a bracketed value gives one item for each element
/// that it matches below the first root, in document order.
pub proof fn law_matches_keep_document_order(
    compiled: scraper::Selector,
    source: Seq<char>,
    inner: ActionView,
    roots: Roots,
)
    requires
        roots.len() > 0,
        matches_below(roots[0], compiled).len() > 0,
    ensures
        ({
            let found = matches_below(roots[0], compiled);
            output(
                ActionView::Expression(
                    ExpressionView::Selector(compiled, source),
                    Some(Box::new(ActionView::ForEachChildArray(Box::new(inner)))),
                ),
                roots,
            ) matches Json::Array(items) && items.len() == found.len() && forall|i: int|
                0 <= i < found.len() ==> #[trigger] items[i] == output(inner, seq![found[i]])
        }),
{
    reveal_with_fuel(output, 3);
    reveal_with_fuel(expression_outcome, 2);
}

} // verus!
