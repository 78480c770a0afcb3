//! The evaluator: it computes what [`crate::evaluation`] defines.

use crate::ast::{action_view, entries_view, Action, ActionView, Entries, Expression};
use crate::dom::{
    attribute, following_siblings, next_siblings, parent, parse_fragment, parsed_fragment,
    root_element, select, text_pieces, wrap,
};
use crate::evaluation::{
    elements_among, expression_outcome, extracted, fields_of, joined, keys_of,
    lemma_fields_have_the_keys, output, parent_element, text_below, MissView,
};
use crate::json;
use crate::json::{fields_model, json_model, Fields, Json};
use crate::text::{trim_whitespace, trimmed};
use vstd::prelude::*;
use vstd::string::StringExecFns;

verus! {

/// Why an expression found nothing to work on. No caller of [`extract`] or
/// [`convert_to_output`] sees one: there a miss becomes null.
#[derive(Debug, PartialEq, Eq)]
pub enum ExpressionError {
    /// The selector with this text matched no element.
    EmptySelector(String),
    /// There was no element to work on: no root, no parent element, or not
    /// as many following element siblings as were asked for.
    EmptyRoot,
}

impl View for ExpressionError {
    type V = MissView;

    open spec fn view(&self) -> MissView {
        match *self {
            ExpressionError::EmptySelector(source) => MissView::EmptySelector(source@),
            ExpressionError::EmptyRoot => MissView::EmptyRoot,
        }
    }
}

impl ExpressionError {
    /// What the error says to a reader.
    pub fn message(&self) -> (text: String)
        ensures
            text@ == match *self {
                ExpressionError::EmptySelector(source) => "Selector `"@ + source@
                    + " returned no results"@,
                ExpressionError::EmptyRoot => "Unexpected empty root node"@,
            },
    {
        match self {
            ExpressionError::EmptySelector(source) => {
                let mut text = String::from_str("Selector `");
                text.append(source.as_str());
                text.append(" returned no results");
                text
            },
            ExpressionError::EmptyRoot => String::from_str("Unexpected empty root node"),
        }
    }
}

/// What may follow a pipe, as mathematical values.
pub open spec fn next_view(next: Option<Box<Action>>) -> Option<Box<ActionView>> {
    match next {
        Some(inner) => Some(Box::new(action_view(*inner))),
        None => None,
    }
}

/// The pieces joined, without the whitespace at either end.
pub fn joined_text(pieces: &Vec<String>) -> (text: String)
    ensures
        text@ == trimmed(joined(pieces.deep_view())),
{
    let ghost all_pieces = pieces.deep_view();
    let mut all = String::new();
    let mut i: usize = 0;
    assert(all_pieces.take(0) =~= Seq::<Seq<char>>::empty());
    while i < pieces.len()
        invariant
            i <= pieces@.len(),
            all_pieces == pieces.deep_view(),
            all@ == joined(all_pieces.take(i as int)),
        decreases pieces@.len() - i,
    {
        all.append(pieces[i].as_str());
        proof {
            assert(all_pieces.take(i + 1).drop_last() =~= all_pieces.take(i as int));
            assert(all_pieces.take(i + 1).last() == pieces@[i as int]@);
        }
        i += 1;
    }
    assert(all_pieces.take(i as int) =~= all_pieces);
    trim_whitespace(all)
}

/// The text below `element`: the contents of its text nodes joined, without
/// the whitespace at either end.
pub fn element_text(element: scraper::ElementRef) -> (text: String)
    ensures
        text@ == text_below(element),
{
    joined_text(&text_pieces(element))
}

/// The element siblings that follow `element`, nearest first.
pub fn element_siblings<'a>(element: scraper::ElementRef<'a>) -> (siblings: Vec<
    scraper::ElementRef<'a>,
>)
    ensures
        siblings@ == elements_among(following_siblings(element)),
{
    let nodes = next_siblings(element);
    let mut siblings: Vec<scraper::ElementRef<'a>> = Vec::new();
    let mut i: usize = 0;
    assert(nodes@.take(0) =~= Seq::empty());
    while i < nodes.len()
        invariant
            i <= nodes@.len(),
            nodes@ == following_siblings(element),
            siblings@ == elements_among(nodes@.take(i as int)),
        decreases nodes@.len() - i,
    {
        assert(nodes@.take(i + 1).drop_last() =~= nodes@.take(i as int));
        if let Some(sibling) = wrap(nodes[i]) {
            siblings.push(sibling);
        }
        i += 1;
    }
    assert(nodes@.take(i as int) =~= nodes@);
    siblings
}

/// The parent of `element`, if it has one and that is an element.
pub fn element_parent<'a>(element: scraper::ElementRef<'a>) -> (found: Option<
    scraper::ElementRef<'a>,
>)
    ensures
        found == parent_element(element),
{
    match parent(element) {
        Some(node) => wrap(node),
        None => None,
    }
}

/// Goes on after an expression has moved to `found`: evaluates what follows
/// the pipe on all of `found`, or with no pipe gives the text below the first
/// of them.
pub fn follow(lhs: &Option<Box<Action>>, found: &Vec<scraper::ElementRef>) -> (value:
    serde_json::Value)
    requires
        found@.len() > 0,
    ensures
        json_model(value) == match next_view(*lhs) {
            Some(inner) => output(*inner, found@),
            None => Json::String(text_below(found@[0])),
        },
    decreases *lhs, 0nat,
{
    match lhs {
        Some(inner) => convert_to_output(inner, found),
        None => json::string(element_text(found[0])),
    }
}

/// Evaluates an expression (`rhs`), and what may follow its pipe (`lhs`), on
/// `roots`, of which only the first counts. Says which miss there was, if
/// there was one.
pub fn handle_expression(
    roots: &Vec<scraper::ElementRef>,
    rhs: &Expression,
    lhs: &Option<Box<Action>>,
) -> (outcome: Result<serde_json::Value, ExpressionError>)
    ensures
        match outcome {
            Ok(value) => expression_outcome(rhs@, next_view(*lhs), roots@) matches Ok(json)
                && json == json_model(value),
            Err(error) => expression_outcome(rhs@, next_view(*lhs), roots@) matches Err(miss)
                && miss == error@,
        },
    decreases *lhs, 1nat,
{
    if roots.len() == 0 {
        return Err(ExpressionError::EmptyRoot);
    }
    let first = roots[0];
    match rhs {
        Expression::Selector(compiled, source) => {
            let found = select(first, compiled);
            if found.len() == 0 {
                Err(ExpressionError::EmptySelector(source.clone()))
            } else {
                Ok(follow(lhs, &found))
            }
        },
        Expression::Attribute(name) => match attribute(first, name.as_str()) {
            Some(value) => Ok(json::string(trim_whitespace(value))),
            None => Ok(json::null()),
        },
        Expression::Text => Ok(json::string(element_text(first))),
        Expression::Parent => match element_parent(first) {
            Some(parent) => {
                let found = vec![parent];
                assert(found@ =~= seq![parent]);
                Ok(follow(lhs, &found))
            },
            None => Err(ExpressionError::EmptyRoot),
        },
        Expression::Sibling(n) => {
            let siblings = element_siblings(first);
            if 1 <= *n && *n <= siblings.len() {
                let found = vec![siblings[*n - 1]];
                assert(found@ =~= seq![siblings@[*n - 1]]);
                Ok(follow(lhs, &found))
            } else {
                Err(ExpressionError::EmptyRoot)
            }
        },
    }
}

/// Evaluates the entries of an object on `roots`.
pub fn object_fields(entries: &Entries, roots: &Vec<scraper::ElementRef>) -> (fields: Fields)
    ensures
        fields_model(fields) == fields_of(entries_view(*entries), roots@, entries@.len() as nat),
    decreases *entries, 0nat,
{
    let mut fields = json::no_fields();
    let mut i: usize = 0;
    while i < entries.len()
        invariant
            i <= entries@.len(),
            fields_model(fields) == fields_of(entries_view(*entries), roots@, i as nat),
        decreases entries@.len() - i,
    {
        let value = convert_to_output(&entries[i].1, roots);
        json::set_field(&mut fields, entries[i].0.clone(), value);
        i += 1;
    }
    fields
}

/// Evaluates `item` on `roots`. An expression that misses gives null: no
/// miss goes further up than the expression in which it occurs.
#[verifier::loop_isolation(false)]
pub fn convert_to_output(item: &Action, roots: &Vec<scraper::ElementRef>) -> (value:
    serde_json::Value)
    ensures
        json_model(value) == output(item@, roots@),
    decreases *item, 2nat,
{
    match item {
        Action::ForEachChild(entries) => {
            let mut items: Vec<serde_json::Value> = Vec::new();
            let mut i: usize = 0;
            while i < roots.len()
                invariant
                    i <= roots@.len(),
                    items@.len() == i,
                    forall|k: int|
                        0 <= k < i ==> json_model(#[trigger] items@[k]) == Json::Object(
                            fields_of(
                                entries_view(*entries),
                                seq![roots@[k]],
                                entries@.len() as nat,
                            ),
                        ),
                decreases roots@.len() - i,
            {
                let single = vec![roots[i]];
                assert(single@ =~= seq![roots@[i as int]]);
                items.push(json::object(object_fields(entries, &single)));
                i += 1;
            }
            let value = json::array(items);
            assert(json_model(value)->Array_0 =~= output(item@, roots@)->Array_0);
            value
        },
        Action::ForEachChildArray(inner) => {
            let mut items: Vec<serde_json::Value> = Vec::new();
            let mut i: usize = 0;
            while i < roots.len()
                invariant
                    i <= roots@.len(),
                    items@.len() == i,
                    forall|k: int|
                        0 <= k < i ==> json_model(#[trigger] items@[k]) == output(
                            action_view(**inner),
                            seq![roots@[k]],
                        ),
                decreases roots@.len() - i,
            {
                let single = vec![roots[i]];
                assert(single@ =~= seq![roots@[i as int]]);
                items.push(convert_to_output(inner, &single));
                i += 1;
            }
            let value = json::array(items);
            assert(json_model(value)->Array_0 =~= output(item@, roots@)->Array_0);
            value
        },
        Action::Child(entries) => json::object(object_fields(entries, roots)),
        Action::Expression(rhs, lhs) => match handle_expression(roots, rhs, lhs) {
            Ok(value) => value,
            Err(_) => json::null(),
        },
    }
}

/// Evaluates a compiled query on a document: parses `input` as an HTML
/// fragment and evaluates the entries on its root element. Gives an object
/// with the keys of the query, whatever the document holds.
pub fn extract(input: &str, actions: &Entries) -> (value: serde_json::Value)
    ensures
        json_model(value) == extracted(input@, entries_view(*actions)),
        json_model(value) matches Json::Object(fields) && fields.dom() == keys_of(
            entries_view(*actions),
            actions@.len() as nat,
        ),
{
    let fragment = parse_fragment(input);
    assert(fragment == parsed_fragment(input@));
    let root = root_element(&fragment);
    let roots = vec![root];
    assert(roots@ =~= seq![root]);
    proof {
        lemma_fields_have_the_keys(entries_view(*actions), roots@, actions@.len() as nat);
    }
    json::object(object_fields(actions, &roots))
}

} // verus!
