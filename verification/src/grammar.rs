//! The grammar of queries, as functions from a text and a place in it to what
//! stands at that place.
//!
//! Places count characters from 0. A function whose name ends in `_at` gives
//! what it reads at a place together with the place where that ends, or
//! nothing where the text does not fit. Alternatives are tried in order and
//! the first that fits is taken, whatever comes after it.
//!
//! Blanks (space, tab, carriage return, line feed) may stand around every
//! token and mean nothing: around braces, brackets, commas, colons and pipes,
//! around keys, `@parent`, `@text`, `@(`, `@sibling(`, `)`, names and digits.
//! Within a token none may stand. The text of a selector is kept as it was
//! written, up to the `,`, `}`, `]` or `|` that ends it.

use crate::ast::{all_well_formed, well_formed, ActionView, EntriesView, ExpressionView};
use crate::dom::compiled_selector;
use crate::error::{failure_in_object, trailing_text, ErrorFrame, ErrorKind};
use crate::scan::{
    blanks_end, blanks_start, first_at, lemma_run_end, literal_end, padded_end, run_end, CharClass,
};
use vstd::prelude::*;

verus! {

/// The number that a run of decimal digits writes.
pub open spec fn decimal(digits: Seq<char>) -> nat
    decreases digits.len(),
{
    if digits.len() == 0 {
        0
    } else {
        decimal(digits.drop_last()) * 10 + (digits.last() as u32 - '0' as u32) as nat
    }
}

/// A key and its colon at `i`: one or more key characters, then `:`, with
/// blanks allowed between the two. Gives the key and where the colon ends.
pub open spec fn key_at(s: Seq<char>, i: int) -> Option<(Seq<char>, int)> {
    let end = run_end(s, i, CharClass::Key);
    let colon = blanks_end(s, end);
    if 0 <= i < end && 0 <= colon < s.len() && s[colon] == ':' {
        Some((s.subrange(i, end), colon + 1))
    } else {
        None
    }
}

/// The start of a further entry at `i`: a comma with blanks allowed around
/// it, then a key and its colon. Gives where the colon ends.
pub open spec fn key_suffix_at(s: Seq<char>, i: int) -> Option<int> {
    match padded_end(s, i, ","@) {
        Some(j) => match key_at(s, j) {
            Some((_, next)) => Some(next),
            None => None,
        },
        None => None,
    }
}

/// Whether a value that stops at `i` is at its end there: whether, after
/// blanks, the start of a further entry or a `}` follows.
pub open spec fn value_ends_at(s: Seq<char>, i: int) -> bool {
    let j = blanks_end(s, i);
    key_suffix_at(s, j) is Some || literal_end(s, j, "}"@) is Some
}

/// `@(name)` at `i`, with blanks allowed around `@(`, around the name and
/// around `)`. The name is all that stands before the next `)`, without the
/// blanks at its ends.
pub open spec fn attribute_at(s: Seq<char>, i: int) -> Option<(Seq<char>, int)> {
    match padded_end(s, i, "@("@) {
        Some(from) => {
            let to = run_end(s, from, CharClass::AttributeName);
            match padded_end(s, to, ")"@) {
                Some(next) => Some((s.subrange(from, blanks_start(s, from, to)), next)),
                None => None,
            }
        },
        None => None,
    }
}

/// `@text` at `i`, with blanks allowed before the `@`, between the `@` and
/// `text`, and after `text`.
pub open spec fn text_at(s: Seq<char>, i: int) -> Option<int> {
    match padded_end(s, i, "@"@) {
        Some(j) => padded_end(s, j, "text"@),
        None => None,
    }
}

/// `@sibling(n)` at `i`, with blanks allowed around `@sibling(`, around the
/// digits and around `)`. The number is at least 1 and fits the machine.
pub open spec fn sibling_at(s: Seq<char>, i: int) -> Option<(nat, int)> {
    match padded_end(s, i, "@sibling("@) {
        Some(from) => {
            let to = run_end(s, from, CharClass::Digit);
            let n = decimal(s.subrange(from, to));
            match padded_end(s, to, ")"@) {
                Some(next) => if from < to && 1 <= n <= usize::MAX {
                    Some((n, next))
                } else {
                    None
                },
                None => None,
            }
        },
        None => None,
    }
}

/// A selector at `i`: all that stands before the next `,`, `}` or `]`, if it
/// compiles.
pub open spec fn selector_at(s: Seq<char>, i: int) -> Option<(ExpressionView, int)> {
    let end = run_end(s, i, CharClass::SelectorText);
    let source = s.subrange(i, end);
    match compiled_selector(source) {
        Some(compiled) => Some((ExpressionView::Selector(compiled, source), end)),
        None => None,
    }
}

/// An expression at `i`: the first that fits of `@parent`, `@(name)`,
/// `@text`, `@sibling(n)` and a selector.
pub open spec fn expression_at(s: Seq<char>, i: int) -> Option<(ExpressionView, int)> {
    if let Some(next) = padded_end(s, i, "@parent"@) {
        Some((ExpressionView::Parent, next))
    } else if let Some((name, next)) = attribute_at(s, i) {
        Some((ExpressionView::Attribute(name), next))
    } else if let Some(next) = text_at(s, i) {
        Some((ExpressionView::Text, next))
    } else if let Some((n, next)) = sibling_at(s, i) {
        Some((ExpressionView::Sibling(n), next))
    } else {
        selector_at(s, i)
    }
}

/// The expression before a pipe at `i`. The text is scanned from `i`, after
/// blanks, up to the first `,` or `}`; there the value must be at its end
/// ([`value_ends_at`]). If that stretch holds a `|`, what stands before its
/// first `|` is read as an expression, as if the text ended at that `|`; how
/// much of it the expression takes does not matter. Gives the expression and
/// where that `|` stands.
pub open spec fn piped_expression_at(s: Seq<char>, i: int) -> Option<(ExpressionView, int)> {
    let start = blanks_end(s, i);
    let stop = run_end(s, start, CharClass::Chunk);
    let bar = first_at(s, start, stop, '|');
    if bar < stop && value_ends_at(s, stop) {
        match expression_at(s.take(bar), start) {
            Some((expression, _)) => Some((expression, bar)),
            None => None,
        }
    } else {
        None
    }
}

/// A value at `i`: the first that fits of an object, an object in square
/// brackets, a value in square brackets, an expression piped into a value,
/// and an expression.
pub open spec fn value_at(s: Seq<char>, i: int) -> Option<(ActionView, int)>
    decreases s.len() - i, 2int,
    via value_at_decreases
{
    if !(0 <= i <= s.len()) {
        None
    } else if let Some((entries, next)) = object_at(s, i) {
        Some((ActionView::Child(entries), next))
    } else if let Some((entries, next)) = bracketed_object_at(s, i) {
        Some((ActionView::ForEachChild(entries), next))
    } else if let Some((inner, next)) = bracketed_value_at(s, i) {
        Some((ActionView::ForEachChildArray(Box::new(inner)), next))
    } else if let Some((expression, inner, next)) = piped_value_at(s, i) {
        Some((ActionView::Expression(expression, Some(Box::new(inner))), next))
    } else if let Some((expression, next)) = expression_at(s, i) {
        Some((ActionView::Expression(expression, None), next))
    } else {
        None
    }
}

/// `[`, an object and `]` at `i`, with blanks allowed around the brackets.
pub open spec fn bracketed_object_at(s: Seq<char>, i: int) -> Option<(EntriesView, int)>
    decreases s.len() - i, 0int,
    via bracketed_object_at_decreases
{
    if !(0 <= i <= s.len()) {
        None
    } else {
        match padded_end(s, i, "["@) {
            Some(j) => match object_at(s, j) {
                Some((entries, k)) => match padded_end(s, k, "]"@) {
                    Some(next) => Some((entries, next)),
                    None => None,
                },
                None => None,
            },
            None => None,
        }
    }
}

/// `[`, a value and `]` at `i`, with blanks allowed around the brackets.
pub open spec fn bracketed_value_at(s: Seq<char>, i: int) -> Option<(ActionView, int)>
    decreases s.len() - i, 0int,
    via bracketed_value_at_decreases
{
    if !(0 <= i <= s.len()) {
        None
    } else {
        match padded_end(s, i, "["@) {
            Some(j) => match value_at(s, j) {
                Some((inner, k)) => match padded_end(s, k, "]"@) {
                    Some(next) => Some((inner, next)),
                    None => None,
                },
                None => None,
            },
            None => None,
        }
    }
}

/// An expression, `|` and a value at `i`, with blanks allowed around the
/// `|`.
pub open spec fn piped_value_at(s: Seq<char>, i: int) -> Option<(ExpressionView, ActionView, int)>
    decreases s.len() - i, 0int,
    via piped_value_at_decreases
{
    if !(0 <= i <= s.len()) {
        None
    } else {
        match piped_expression_at(s, i) {
            Some((expression, bar)) => match padded_end(s, bar, "|"@) {
                Some(j) => match value_at(s, j) {
                    Some((inner, next)) => Some((expression, inner, next)),
                    None => None,
                },
                None => None,
            },
            None => None,
        }
    }
}

/// What reading an object at `i` comes to. An object is `{`, the entries and
/// `}`, with blanks allowed around each of them. Where a brace is missed, the
/// diagnostic says which and where, and names the place where the object
/// starts after the blanks before it.
pub open spec fn object_outcome(s: Seq<char>, i: int) -> Result<(EntriesView, int), Seq<ErrorFrame>>
    decreases s.len() - i, 0int,
    via object_outcome_decreases
{
    let open = blanks_end(s, i);
    if 0 <= i <= open < s.len() && s[open] == '{' {
        let (entries, j) = entries_at(s, blanks_end(s, open + 1));
        let close = blanks_end(s, j);
        if 0 <= close < s.len() && s[close] == '}' {
            Ok((entries, blanks_end(s, close + 1)))
        } else {
            Err(failure_in_object(close, ErrorKind::Char('}'), open))
        }
    } else {
        Err(failure_in_object(open, ErrorKind::Char('{'), open))
    }
}

/// An object at `i`, if there is one.
pub open spec fn object_at(s: Seq<char>, i: int) -> Option<(EntriesView, int)>
    decreases s.len() - i, 1int,
{
    match object_outcome(s, i) {
        Ok(found) => Some(found),
        Err(_) => None,
    }
}

/// An entry at `i`: a key and its colon, then a value with blanks allowed
/// around it.
pub open spec fn entry_at(s: Seq<char>, i: int) -> Option<((Seq<char>, ActionView), int)>
    decreases s.len() - i, 0int,
    via entry_at_decreases
{
    match key_at(s, i) {
        Some((key, j)) => match value_at(s, blanks_end(s, j)) {
            Some((value, k)) => Some(((key, value), blanks_end(s, k))),
            None => None,
        },
        None => None,
    }
}

/// The entries at `i`, separated by commas with blanks allowed around them:
/// as many as there are, which may be none. Gives them and where the last
/// one ends; a comma that no entry follows is not taken. (An entry always
/// ends after its start and within the text, as [`lemma_entry_at`] shows:
/// the test of that only makes the definition well founded.)
pub open spec fn entries_at(s: Seq<char>, i: int) -> (EntriesView, int)
    decreases s.len() - i, 1int,
{
    match entry_at(s, i) {
        Some((entry, j)) => if i < j <= s.len() {
            further_entries_at(s, j, seq![entry])
        } else {
            (seq![entry], j)
        },
        None => (Seq::empty(), i),
    }
}

/// The entries that follow `found`, which end at `i`.
pub open spec fn further_entries_at(s: Seq<char>, i: int, found: EntriesView) -> (EntriesView, int)
    decreases s.len() - i, 0int,
    via further_entries_at_decreases
{
    match padded_end(s, i, ","@) {
        Some(j) => match entry_at(s, j) {
            Some((entry, k)) => if i < k <= s.len() {
                further_entries_at(s, k, found.push(entry))
            } else {
                (found.push(entry), k)
            },
            None => (found, i),
        },
        None => (found, i),
    }
}

/// What reading a whole query comes to: the entries of its object, which
/// may have blanks before and after it and nothing else, or the diagnostic.
pub open spec fn query_outcome(s: Seq<char>) -> Result<EntriesView, Seq<ErrorFrame>> {
    match object_outcome(s, 0) {
        Ok((entries, end)) => if end == s.len() {
            Ok(entries)
        } else {
            Err(trailing_text(end))
        },
        Err(frames) => Err(frames),
    }
}

/// A run of digits writes no less than any of its beginnings.
pub proof fn lemma_decimal_grows(digits: Seq<char>, shorter: int)
    requires
        0 <= shorter <= digits.len(),
        forall|k: int| 0 <= k < digits.len() ==> CharClass::Digit.holds(#[trigger] digits[k]),
    ensures
        decimal(digits.take(shorter)) <= decimal(digits),
    decreases digits.len(),
{
    if shorter == digits.len() {
        assert(digits.take(shorter) =~= digits);
    } else {
        assert(digits.drop_last().take(shorter) =~= digits.take(shorter));
        lemma_decimal_grows(digits.drop_last(), shorter);
    }
}

/// A key and its colon end after their start and within the text.
pub proof fn lemma_key_at(s: Seq<char>, i: int)
    ensures
        key_at(s, i) matches Some((_, next)) ==> 0 <= i < next <= s.len(),
{
    if 0 <= i <= s.len() {
        lemma_run_end(s, i, CharClass::Key);
        lemma_run_end(s, run_end(s, i, CharClass::Key), CharClass::Blank);
    }
}

/// A literal with blanks around it ends after where it starts, by its length
/// at least, and within the text.
pub proof fn lemma_padded_end(s: Seq<char>, i: int, literal: Seq<char>)
    requires
        0 <= i <= s.len(),
    ensures
        padded_end(s, i, literal) matches Some(j) ==> i + literal.len() <= j <= s.len(),
{
    lemma_run_end(s, i, CharClass::Blank);
    if let Some(j) = literal_end(s, blanks_end(s, i), literal) {
        lemma_run_end(s, j, CharClass::Blank);
    }
}

#[via_fn]
proof fn value_at_decreases(s: Seq<char>, i: int) {
}

#[via_fn]
proof fn object_outcome_decreases(s: Seq<char>, i: int) {
    if 0 <= i <= s.len() {
        lemma_run_end(s, i, CharClass::Blank);
        let open = blanks_end(s, i);
        if open < s.len() {
            lemma_run_end(s, open + 1, CharClass::Blank);
        }
    }
}

#[via_fn]
proof fn entry_at_decreases(s: Seq<char>, i: int) {
    if let Some((_, j)) = key_at(s, i) {
        lemma_key_at(s, i);
        lemma_run_end(s, j, CharClass::Blank);
    }
}

#[via_fn]
proof fn bracketed_object_at_decreases(s: Seq<char>, i: int) {
    reveal_strlit("[");
    if 0 <= i <= s.len() {
        lemma_padded_end(s, i, "["@);
    }
}

#[via_fn]
proof fn bracketed_value_at_decreases(s: Seq<char>, i: int) {
    reveal_strlit("[");
    if 0 <= i <= s.len() {
        lemma_padded_end(s, i, "["@);
    }
}

#[via_fn]
proof fn piped_value_at_decreases(s: Seq<char>, i: int) {
    reveal_strlit("|");
    if 0 <= i <= s.len() {
        lemma_run_end(s, i, CharClass::Blank);
        let start = blanks_end(s, i);
        lemma_run_end(s, start, CharClass::Chunk);
        lemma_first_at(s, start, run_end(s, start, CharClass::Chunk), '|');
        if let Some((_, bar)) = piped_expression_at(s, i) {
            lemma_padded_end(s, bar, "|"@);
        }
    }
}

#[via_fn]
proof fn further_entries_at_decreases(s: Seq<char>, i: int, found: EntriesView) {
    reveal_strlit(",");
    if 0 <= i <= s.len() {
        lemma_padded_end(s, i, ","@);
    }
}

/// The first place of a character in a stretch lies in the stretch or at its
/// end; where it lies in the stretch, the character stands there, and it
/// stands nowhere before.
pub proof fn lemma_first_at(s: Seq<char>, from: int, to: int, c: char)
    requires
        0 <= from <= to <= s.len(),
    ensures
        from <= first_at(s, from, to, c) <= to,
        first_at(s, from, to, c) < to ==> s[first_at(s, from, to, c)] == c,
        forall|k: int| from <= k < first_at(s, from, to, c) ==> #[trigger] s[k] != c,
    decreases to - from,
{
    if from < to && s[from] != c {
        lemma_first_at(s, from + 1, to, c);
    }
}

/// An expression that the grammar reads is well formed and ends within the
/// text, not before its start.
pub proof fn lemma_expression_at(s: Seq<char>, i: int)
    requires
        0 <= i <= s.len(),
    ensures
        expression_at(s, i) matches Some((expression, next)) ==> expression.well_formed() && i
            <= next <= s.len(),
{
    lemma_padded_end(s, i, "@parent"@);
    lemma_padded_end(s, i, "@("@);
    lemma_padded_end(s, i, "@"@);
    if let Some(from) = padded_end(s, i, "@("@) {
        lemma_run_end(s, from, CharClass::AttributeName);
        lemma_padded_end(s, run_end(s, from, CharClass::AttributeName), ")"@);
    }
    if let Some(text) = padded_end(s, i, "@"@) {
        lemma_padded_end(s, text, "text"@);
    }
    lemma_padded_end(s, i, "@sibling("@);
    if let Some(from) = padded_end(s, i, "@sibling("@) {
        lemma_run_end(s, from, CharClass::Digit);
        lemma_padded_end(s, run_end(s, from, CharClass::Digit), ")"@);
    }
    lemma_run_end(s, i, CharClass::SelectorText);
}

/// The expression before a pipe is well formed, and the pipe stands where
/// the grammar says, not before the start.
pub proof fn lemma_piped_expression_at(s: Seq<char>, i: int)
    requires
        0 <= i <= s.len(),
    ensures
        piped_expression_at(s, i) matches Some((expression, bar)) ==> expression.well_formed()
            && i <= bar < s.len() && s[bar] == '|',
{
    lemma_run_end(s, i, CharClass::Blank);
    let start = blanks_end(s, i);
    lemma_run_end(s, start, CharClass::Chunk);
    let stop = run_end(s, start, CharClass::Chunk);
    lemma_first_at(s, start, stop, '|');
    let bar = first_at(s, start, stop, '|');
    if bar < stop {
        lemma_expression_at(s.take(bar), start);
    }
}

/// A value that the grammar reads is well formed and ends within the text,
/// not before its start.
pub proof fn lemma_value_at(s: Seq<char>, i: int)
    requires
        0 <= i <= s.len(),
    ensures
        value_at(s, i) matches Some((action, next)) ==> well_formed(action) && i <= next
            <= s.len(),
    decreases s.len() - i, 2int,
{
    reveal_strlit("[");
    reveal_strlit("|");
    lemma_object_at(s, i);
    lemma_padded_end(s, i, "["@);
    if let Some(inside) = padded_end(s, i, "["@) {
        lemma_object_at(s, inside);
        if let Some((_, close)) = object_at(s, inside) {
            lemma_padded_end(s, close, "]"@);
        }
        lemma_value_at(s, inside);
        if let Some((_, close)) = value_at(s, inside) {
            lemma_padded_end(s, close, "]"@);
        }
    }
    lemma_piped_expression_at(s, i);
    if let Some((_, bar)) = piped_expression_at(s, i) {
        lemma_padded_end(s, bar, "|"@);
        if let Some(inside) = padded_end(s, bar, "|"@) {
            lemma_value_at(s, inside);
        }
    }
    lemma_expression_at(s, i);
}

/// The entries of an object that the grammar reads are well formed, and the
/// object ends within the text, after its start.
pub proof fn lemma_object_at(s: Seq<char>, i: int)
    requires
        0 <= i <= s.len(),
    ensures
        object_at(s, i) matches Some((entries, next)) ==> all_well_formed(entries) && i < next
            <= s.len(),
    decreases s.len() - i, 1int,
{
    lemma_run_end(s, i, CharClass::Blank);
    let open = blanks_end(s, i);
    if open < s.len() && s[open] == '{' {
        lemma_run_end(s, open + 1, CharClass::Blank);
        lemma_entries_at(s, blanks_end(s, open + 1));
        let close = blanks_end(s, entries_at(s, blanks_end(s, open + 1)).1);
        lemma_run_end(s, entries_at(s, blanks_end(s, open + 1)).1, CharClass::Blank);
        if close < s.len() {
            lemma_run_end(s, close + 1, CharClass::Blank);
        }
    }
}

/// An entry that the grammar reads is well formed and ends within the text,
/// after its start.
pub proof fn lemma_entry_at(s: Seq<char>, i: int)
    requires
        0 <= i <= s.len(),
    ensures
        entry_at(s, i) matches Some((entry, next)) ==> well_formed(entry.1) && i < next
            <= s.len(),
    decreases s.len() - i, 0int,
{
    lemma_key_at(s, i);
    if let Some((_, colon)) = key_at(s, i) {
        lemma_run_end(s, colon, CharClass::Blank);
        lemma_value_at(s, blanks_end(s, colon));
        if let Some((_, end)) = value_at(s, blanks_end(s, colon)) {
            lemma_run_end(s, end, CharClass::Blank);
        }
    }
}

/// The entries that the grammar reads are well formed and end within the
/// text, not before their start.
pub proof fn lemma_entries_at(s: Seq<char>, i: int)
    requires
        0 <= i <= s.len(),
    ensures
        all_well_formed(entries_at(s, i).0),
        i <= entries_at(s, i).1 <= s.len(),
    decreases s.len() - i, 1int,
{
    lemma_entry_at(s, i);
    if let Some((entry, next)) = entry_at(s, i) {
        lemma_further_entries_at(s, next, seq![entry]);
    }
}

/// Entries that follow well-formed ones leave all of them well formed, and
/// end within the text, not before their start.
pub proof fn lemma_further_entries_at(s: Seq<char>, i: int, found: EntriesView)
    requires
        0 <= i <= s.len(),
        all_well_formed(found),
    ensures
        all_well_formed(further_entries_at(s, i, found).0),
        i <= further_entries_at(s, i, found).1 <= s.len(),
    decreases s.len() - i, 0int,
{
    reveal_strlit(",");
    lemma_padded_end(s, i, ","@);
    if let Some(from) = padded_end(s, i, ","@) {
        lemma_entry_at(s, from);
        if let Some((entry, next)) = entry_at(s, from) {
            lemma_further_entries_at(s, next, found.push(entry));
        }
    }
}

} // verus!
