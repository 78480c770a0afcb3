//! The parser: it reads what [`crate::grammar`] defines.

use crate::ast::{all_well_formed, entries_view, Action, Entries, Expression};
use crate::dom::compile;
use crate::error::{ErrorKind, ParseError};
use crate::grammar::{
    attribute_at, decimal, entries_at, entry_at, expression_at, further_entries_at, key_at,
    key_suffix_at, lemma_decimal_grows, lemma_expression_at, lemma_object_at, object_at,
    object_outcome, piped_expression_at, query_outcome, selector_at, sibling_at, text_at,
    value_at, value_ends_at,
};
use crate::scan::{lemma_run_end, run_end, CharClass, Source};
use vstd::prelude::*;

verus! {

/// Skips the key characters at `start`, of which there must be one at least.
pub fn alphanum_dash_underscore1(source: &Source, start: usize) -> (end: Option<usize>)
    requires
        start <= source@.len(),
    ensures
        match end {
            Some(end) => end == run_end(source@, start as int, CharClass::Key) && start < end
                <= source@.len(),
            None => run_end(source@, start as int, CharClass::Key) == start,
        },
{
    let end = source.run(start, CharClass::Key);
    if end > start {
        Some(end)
    } else {
        None
    }
}

/// Reads a key and its colon at `start`, with blanks allowed between the two.
pub fn object_key(source: &Source, start: usize) -> (found: Option<(String, usize)>)
    requires
        start <= source@.len(),
    ensures
        match found {
            Some((key, next)) => key_at(source@, start as int) == Some((key@, next as int))
                && start < next <= source@.len(),
            None => key_at(source@, start as int) is None,
        },
{
    match alphanum_dash_underscore1(source, start) {
        Some(end) => {
            let colon = source.ws(end);
            if colon < source.len() && source.at(colon) == ':' {
                Some((source.slice(start, end), colon + 1))
            } else {
                None
            }
        },
        None => None,
    }
}

/// Reads the start of a further entry at `start`: a comma, then a key and
/// its colon.
pub fn object_key_suffix(source: &Source, start: usize) -> (found: Option<usize>)
    requires
        start <= source@.len(),
    ensures
        match found {
            Some(next) => key_suffix_at(source@, start as int) == Some(next as int) && start < next
                <= source@.len(),
            None => key_suffix_at(source@, start as int) is None,
        },
{
    match source.padded(start, ",") {
        Some(from) => match object_key(source, from) {
            Some((_, next)) => Some(next),
            None => None,
        },
        None => None,
    }
}

/// Whether a value that stops at `at` is at its end there.
pub fn value_ends(source: &Source, at: usize) -> (ends: bool)
    requires
        at <= source@.len(),
    ensures
        ends == value_ends_at(source@, at as int),
{
    let from = source.ws(at);
    object_key_suffix(source, from).is_some() || source.literal(from, "}").is_some()
}

/// Reads the number that the digits `from..to` write, if it fits the machine.
pub fn number(source: &Source, from: usize, to: usize) -> (value: Option<usize>)
    requires
        from <= to <= source@.len(),
        forall|k: int| from <= k < to ==> CharClass::Digit.holds(#[trigger] source@[k]),
    ensures
        match value {
            Some(n) => n == decimal(source@.subrange(from as int, to as int)),
            None => decimal(source@.subrange(from as int, to as int)) > usize::MAX,
        },
{
    let ghost digits = source@.subrange(from as int, to as int);
    let mut n: usize = 0;
    let mut at = from;
    assert(digits.take(0) =~= Seq::<char>::empty());
    while at < to
        invariant
            from <= at <= to <= source@.len(),
            digits == source@.subrange(from as int, to as int),
            forall|k: int| 0 <= k < digits.len() ==> CharClass::Digit.holds(#[trigger] digits[k]),
            n == decimal(digits.take(at - from)),
        decreases to - at,
    {
        let c = source.at(at);
        assert(c == digits[at - from]);
        let digit = (c as u32 - '0' as u32) as usize;
        proof {
            assert(digits.take(at - from + 1).drop_last() =~= digits.take(at - from));
            lemma_decimal_grows(digits, at - from + 1);
        }
        match n.checked_mul(10) {
            Some(tens) => match tens.checked_add(digit) {
                Some(sum) => {
                    n = sum;
                },
                None => {
                    return None;
                },
            },
            None => {
                return None;
            },
        }
        at += 1;
    }
    assert(digits.take(to - from) =~= digits);
    Some(n)
}

/// Reads `@(name)` at `start`: the name is given without the blanks at its
/// ends.
pub fn attribute_name(source: &Source, start: usize) -> (found: Option<(String, usize)>)
    requires
        start <= source@.len(),
    ensures
        match found {
            Some((name, next)) => attribute_at(source@, start as int) == Some(
                (name@, next as int),
            ) && start <= next <= source@.len(),
            None => attribute_at(source@, start as int) is None,
        },
{
    match source.padded(start, "@(") {
        Some(from) => {
            let to = source.run(from, CharClass::AttributeName);
            match source.padded(to, ")") {
                Some(next) => Some((source.slice(from, source.without_blanks(from, to)), next)),
                None => None,
            }
        },
        None => None,
    }
}

/// Reads `@text` at `start`, with the blanks around it.
pub fn text_keyword(source: &Source, start: usize) -> (found: Option<usize>)
    requires
        start <= source@.len(),
    ensures
        match found {
            Some(next) => text_at(source@, start as int) == Some(next as int) && start <= next
                <= source@.len(),
            None => text_at(source@, start as int) is None,
        },
{
    match source.padded(start, "@") {
        Some(from) => source.padded(from, "text"),
        None => None,
    }
}

/// Reads `@sibling(n)` at `start`, with the blanks around it and around the
/// digits.
pub fn sibling_offset(source: &Source, start: usize) -> (found: Option<(usize, usize)>)
    requires
        start <= source@.len(),
    ensures
        match found {
            Some((n, next)) => sibling_at(source@, start as int) == Some((n as nat, next as int))
                && start <= next <= source@.len(),
            None => sibling_at(source@, start as int) is None,
        },
{
    match source.padded(start, "@sibling(") {
        Some(from) => {
            let to = source.run(from, CharClass::Digit);
            match source.padded(to, ")") {
                Some(next) => {
                    if from == to {
                        return None;
                    }
                    proof {
                        lemma_run_end(source@, from as int, CharClass::Digit);
                    }
                    match number(source, from, to) {
                        Some(n) => if n >= 1 {
                            Some((n, next))
                        } else {
                            None
                        },
                        None => None,
                    }
                },
                None => None,
            }
        },
        None => None,
    }
}

/// Reads a selector at `start`: all that stands before the next `,`, `}` or
/// `]`, compiled.
pub fn selector(source: &Source, start: usize) -> (found: Option<(Expression, usize)>)
    requires
        start <= source@.len(),
    ensures
        match found {
            Some((expression, next)) => selector_at(source@, start as int) == Some(
                (expression@, next as int),
            ) && start <= next <= source@.len(),
            None => selector_at(source@, start as int) is None,
        },
{
    let end = source.run(start, CharClass::SelectorText);
    let text = source.slice(start, end);
    match compile(text.as_str()) {
        Some(compiled) => Some((Expression::Selector(compiled, text), end)),
        None => None,
    }
}

/// Reads an expression at `start`.
pub fn expression_in(source: &Source, start: usize) -> (found: Option<(Expression, usize)>)
    requires
        start <= source@.len(),
    ensures
        match found {
            Some((expression, next)) => expression_at(source@, start as int) == Some(
                (expression@, next as int),
            ) && start <= next <= source@.len(),
            None => expression_at(source@, start as int) is None,
        },
{
    if let Some(next) = source.padded(start, "@parent") {
        return Some((Expression::Parent, next));
    }
    if let Some((name, next)) = attribute_name(source, start) {
        return Some((Expression::Attribute(name), next));
    }
    if let Some(next) = text_keyword(source, start) {
        return Some((Expression::Text, next));
    }
    if let Some((n, next)) = sibling_offset(source, start) {
        return Some((Expression::Sibling(n), next));
    }
    selector(source, start)
}

/// Reads the expression before a pipe at `start`, and finds the pipe.
pub fn expression_rhs(source: &Source, start: usize) -> (found: Option<(Expression, usize)>)
    requires
        start <= source@.len(),
    ensures
        match found {
            Some((expression, bar)) => piped_expression_at(source@, start as int) == Some(
                (expression@, bar as int),
            ) && start <= bar < source@.len(),
            None => piped_expression_at(source@, start as int) is None,
        },
{
    let from = source.ws(start);
    let stop = source.run(from, CharClass::Chunk);
    let bar = source.find(from, stop, '|');
    if bar == stop || !value_ends(source, stop) {
        return None;
    }
    let head = source.prefix(bar);
    match expression_in(&head, from) {
        Some((expression, _)) => Some((expression, bar)),
        None => None,
    }
}

/// Reads a value at `start`.
pub fn object_value(source: &Source, start: usize) -> (found: Option<(Action, usize)>)
    requires
        start <= source@.len(),
    ensures
        match found {
            Some((action, next)) => value_at(source@, start as int) == Some((action@, next as int))
                && start <= next <= source@.len(),
            None => value_at(source@, start as int) is None,
        },
    decreases source@.len() - start, 2int,
{
    if let Some((entries, next)) = object_in(source, start) {
        return Some((Action::Child(entries), next));
    }
    if let Some(inside) = source.padded(start, "[") {
        proof {
            reveal_strlit("[");
        }
        if let Some((entries, close)) = object_in(source, inside) {
            if let Some(next) = source.padded(close, "]") {
                return Some((Action::ForEachChild(entries), next));
            }
        }
        if let Some((inner, close)) = object_value(source, inside) {
            if let Some(next) = source.padded(close, "]") {
                return Some((Action::ForEachChildArray(Box::new(inner)), next));
            }
        }
    }
    if let Some((expression, bar)) = expression_rhs(source, start) {
        if let Some(inside) = source.padded(bar, "|") {
            proof {
                reveal_strlit("|");
            }
            if let Some((inner, next)) = object_value(source, inside) {
                return Some((Action::Expression(expression, Some(Box::new(inner))), next));
            }
        }
    }
    match expression_in(source, start) {
        Some((expression, next)) => Some((Action::Expression(expression, None), next)),
        None => None,
    }
}

/// Reads an entry at `start`: a key and its colon, then a value.
pub fn object_entry(source: &Source, start: usize) -> (found: Option<((String, Action), usize)>)
    requires
        start <= source@.len(),
    ensures
        match found {
            Some((entry, next)) => entry_at(source@, start as int) == Some(
                ((entry.0@, entry.1@), next as int),
            ) && start < next <= source@.len(),
            None => entry_at(source@, start as int) is None,
        },
    decreases source@.len() - start, 0int,
{
    match object_key(source, start) {
        Some((key, colon)) => {
            let from = source.ws(colon);
            match object_value(source, from) {
                Some((action, end)) => Some(((key, action), source.ws(end))),
                None => None,
            }
        },
        None => None,
    }
}

/// Reads an object at `start`, if there is one.
pub fn object_in(source: &Source, start: usize) -> (found: Option<(Entries, usize)>)
    requires
        start <= source@.len(),
    ensures
        match found {
            Some((entries, next)) => object_at(source@, start as int) == Some(
                (entries_view(entries), next as int),
            ) && start < next <= source@.len(),
            None => object_at(source@, start as int) is None,
        },
    decreases source@.len() - start, 1int,
{
    match object_or_failure(source, start) {
        Ok(found) => Some(found),
        Err(_) => None,
    }
}

/// Reads an object at `start`, or says which brace was missed and where.
pub fn object_or_failure(source: &Source, start: usize) -> (outcome: Result<
    (Entries, usize),
    ParseError,
>)
    requires
        start <= source@.len(),
    ensures
        match outcome {
            Ok((entries, next)) => object_outcome(source@, start as int) matches Ok(read) && read
                == (entries_view(entries), next as int) && start < next <= source@.len(),
            Err(error) => object_outcome(source@, start as int) matches Err(frames) && frames
                == error@ && error.within(source@.len()),
        },
    decreases source@.len() - start, 0int,
{
    let open = source.ws(start);
    if !(open < source.len() && source.at(open) == '{') {
        return Err(ParseError::in_object(open, ErrorKind::Char('{'), open));
    }
    let first = source.ws(open + 1);
    let mut entries: Entries = Vec::new();
    let mut end = first;
    match object_entry(source, first) {
        Some((entry, next)) => {
            entries.push(entry);
            end = next;
            assert(entries_view(entries) =~= seq![(entry.0@, entry.1@)]);
            loop
                invariant
                    start < first < end <= source@.len(),
                    entries_at(source@, first as int) == further_entries_at(
                        source@,
                        end as int,
                        entries_view(entries),
                    ),
                ensures
                    start < end <= source@.len(),
                    entries_at(source@, first as int) == (entries_view(entries), end as int),
                decreases source@.len() - end,
            {
                let from = match source.padded(end, ",") {
                    Some(from) => from,
                    None => {
                        break ;
                    },
                };
                proof {
                    reveal_strlit(",");
                }
                match object_entry(source, from) {
                    Some((entry, next)) => {
                        let ghost before = entries_view(entries);
                        entries.push(entry);
                        assert(entries_view(entries) =~= before.push((entry.0@, entry.1@)));
                        end = next;
                    },
                    None => {
                        break ;
                    },
                }
            }
        },
        None => {
            assert(entries_view(entries) =~= Seq::empty());
        },
    }
    let close = source.ws(end);
    if close < source.len() && source.at(close) == '}' {
        Ok((entries, source.ws(close + 1)))
    } else {
        Err(ParseError::in_object(close, ErrorKind::Char('}'), open))
    }
}

/// Reads an expression at the start of `input`. Gives the rest of `input`
/// and the expression, which is well formed.
pub fn expression(input: &str) -> (found: Option<(&str, Expression)>)
    ensures
        match found {
            Some((rest, expression)) => expression_at(input@, 0) matches Some((read, next))
                && read == expression@ && rest@ == input@.skip(next)
                && expression@.well_formed(),
            None => expression_at(input@, 0) is None,
        },
{
    let source = Source::new(input);
    proof {
        lemma_expression_at(input@, 0);
    }
    match expression_in(&source, 0) {
        Some((expression, next)) => Some((source.rest(next), expression)),
        None => None,
    }
}

/// Reads an object at the start of `input`, with the blanks around it. Gives
/// the rest of `input` and the entries, which are well formed, or the
/// diagnostic: which brace was missed and where.
pub fn object(input: &str) -> (outcome: Result<(&str, Entries), ParseError>)
    ensures
        match outcome {
            Ok((rest, entries)) => object_outcome(input@, 0) matches Ok((read, next)) && read
                == entries_view(entries) && rest@ == input@.skip(next) && all_well_formed(
                entries_view(entries),
            ),
            Err(error) => object_outcome(input@, 0) matches Err(frames) && frames == error@
                && error.within(input@.len()),
        },
{
    let source = Source::new(input);
    proof {
        lemma_object_at(input@, 0);
    }
    match object_or_failure(&source, 0) {
        Ok((entries, next)) => Ok((source.rest(next), entries)),
        Err(error) => Err(error),
    }
}

/// Whether `outcome` is what compiling `input` comes to: the entries that
/// the grammar reads, which are well formed, or the diagnostic that it gives,
/// which lies within `input`.
pub open spec fn compiles_to(input: Seq<char>, outcome: Result<Entries, ParseError>) -> bool {
    match outcome {
        Ok(entries) => query_outcome(input) matches Ok(read) && read == entries_view(entries)
            && all_well_formed(entries_view(entries)),
        Err(error) => query_outcome(input) matches Err(frames) && frames == error@ && error.within(
            input.len(),
        ),
    }
}

/// Compiles a query: reads the object that `input` holds, which may have
/// blanks before and after it and nothing else. Gives its entries, which are
/// well formed, or the diagnostic.
pub fn parse_string(input: &str) -> (outcome: Result<Entries, ParseError>)
    ensures
        compiles_to(input@, outcome),
{
    let source = Source::new(input);
    proof {
        lemma_object_at(input@, 0);
    }
    match object_or_failure(&source, 0) {
        Ok((entries, end)) => {
            if end == source.len() {
                Ok(entries)
            } else {
                Err(ParseError::trailing(end))
            }
        },
        Err(error) => Err(error),
    }
}

} // verus!
