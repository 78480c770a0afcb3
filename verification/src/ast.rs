//! The queries that the parser gives and the evaluator reads.

use crate::dom::compiled_selector;
use vstd::prelude::*;

verus! {

/// A leaf operator of a query: it reads a value from the current element or
/// moves to other elements.
#[derive(Debug, PartialEq)]
pub enum Expression {
    /// `@text`: the text below the current element.
    Text,
    /// `@(name)`: the value of the attribute `name`.
    Attribute(String),
    /// `@parent`: the parent element.
    Parent,
    /// `@sibling(n)`: the `n`-th following element sibling, counted from 1.
    Sibling(usize),
    /// A CSS selector: its compiled form and the text it was compiled from.
    Selector(scraper::Selector, String),
}

/// A node of a query. An object is held as the list of its entries in the
/// order in which they were written, so that what an object gives can be
/// stated entry by entry; where a key occurs more than once, its last entry is
/// the one that counts, as in a map that is filled in that order.
#[derive(Debug, PartialEq)]
pub enum Action {
    /// `[{key: value, ..}]`: one object for each current element.
    ForEachChild(Entries),
    /// `[value]`: one value for each current element.
    ForEachChildArray(Box<Action>),
    /// `{key: value, ..}`: one object for the current elements.
    Child(Entries),
    /// `expression`, or `expression | value`.
    Expression(Expression, Option<Box<Action>>),
}

/// The entries of an object, in the order in which they were written.
pub type Entries = Vec<(String, Action)>;

/// What an [`Expression`] holds, as mathematical values.
pub enum ExpressionView {
    Text,
    Attribute(Seq<char>),
    Parent,
    Sibling(nat),
    Selector(scraper::Selector, Seq<char>),
}

/// What an [`Action`] holds, as mathematical values.
pub enum ActionView {
    ForEachChild(EntriesView),
    ForEachChildArray(Box<ActionView>),
    Child(EntriesView),
    Expression(ExpressionView, Option<Box<ActionView>>),
}

/// What the entries of an object hold, in their order.
pub type EntriesView = Seq<(Seq<char>, ActionView)>;

impl ExpressionView {
    /// Whether the expression is one that a query can hold: a selector is the
    /// compiled form of its text, and a sibling offset is 1 at least.
    pub open spec fn well_formed(self) -> bool {
        match self {
            ExpressionView::Selector(compiled, source) => compiled_selector(source) == Some(
                compiled,
            ),
            ExpressionView::Sibling(n) => n >= 1,
            _ => true,
        }
    }
}

/// Whether every expression in `action` is well formed.
pub open spec fn well_formed(action: ActionView) -> bool
    decreases action,
{
    match action {
        ActionView::ForEachChild(entries) => forall|i: int|
            0 <= i < entries.len() ==> well_formed((#[trigger] entries[i]).1),
        ActionView::ForEachChildArray(inner) => well_formed(*inner),
        ActionView::Child(entries) => forall|i: int|
            0 <= i < entries.len() ==> well_formed((#[trigger] entries[i]).1),
        ActionView::Expression(expression, next) => expression.well_formed() && match next {
            Some(inner) => well_formed(*inner),
            None => true,
        },
    }
}

/// Whether every expression in `entries` is well formed.
pub open spec fn all_well_formed(entries: EntriesView) -> bool {
    forall|i: int| 0 <= i < entries.len() ==> well_formed((#[trigger] entries[i]).1)
}

impl View for Expression {
    type V = ExpressionView;

    open spec fn view(&self) -> ExpressionView {
        match *self {
            Expression::Text => ExpressionView::Text,
            Expression::Attribute(name) => ExpressionView::Attribute(name@),
            Expression::Parent => ExpressionView::Parent,
            Expression::Sibling(n) => ExpressionView::Sibling(n as nat),
            Expression::Selector(compiled, source) => ExpressionView::Selector(compiled, source@),
        }
    }
}

/// What the entries of an object hold, in their order.
pub open spec fn entries_view(entries: Entries) -> EntriesView
    decreases entries,
{
    Seq::new(
        entries@.len(),
        |i: int|
            if 0 <= i < entries@.len() {
                (entries@[i].0@, action_view(entries@[i].1))
            } else {
                arbitrary()
            },
    )
}

/// What `action` holds.
pub open spec fn action_view(action: Action) -> ActionView
    decreases action,
{
    match action {
        Action::ForEachChild(entries) => ActionView::ForEachChild(entries_view(entries)),
        Action::ForEachChildArray(inner) => ActionView::ForEachChildArray(
            Box::new(action_view(*inner)),
        ),
        Action::Child(entries) => ActionView::Child(entries_view(entries)),
        Action::Expression(expression, next) => ActionView::Expression(
            expression@,
            match next {
                Some(inner) => Some(Box::new(action_view(*inner))),
                None => None,
            },
        ),
    }
}

impl View for Action {
    type V = ActionView;

    open spec fn view(&self) -> ActionView {
        action_view(*self)
    }
}

} // verus!
