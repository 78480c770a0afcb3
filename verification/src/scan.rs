//! Reading a text by position: runs of characters of a class, literals, and
//! the blanks around them.

use crate::text::to_chars;
use vstd::prelude::*;
use vstd::string::StrSliceExecFns;

verus! {

/// Whether `c` is alphanumeric to `char::is_alphanumeric`: whether Unicode
/// classes it as alphabetic or numeric.
pub uninterp spec fn alphanumeric(c: char) -> bool;

/// `char::is_alphanumeric` decides the property that [`alphanumeric`] names.
pub assume_specification[ char::is_alphanumeric ](c: char) -> (b: bool)
    ensures
        b == alphanumeric(c),
;

/// The sets of characters that the query language scans runs of.
#[derive(Debug, Clone, Copy, PartialEq, Eq)]
pub enum CharClass {
    /// The blanks between tokens: space, tab, carriage return, line feed.
    Blank,
    /// What a key is made of: alphanumeric characters, `_` and `-`.
    Key,
    /// The decimal digits `0` to `9`.
    Digit,
    /// What an attribute name may hold: anything but `)`.
    AttributeName,
    /// What the scan for a pipe runs over: anything but `,` and `}`.
    Chunk,
    /// What a selector may hold: anything but `,`, `}` and `]`.
    SelectorText,
}

impl CharClass {
    /// Whether `c` belongs to the class.
    pub open spec fn holds(self, c: char) -> bool {
        match self {
            CharClass::Blank => c == ' ' || c == '\t' || c == '\r' || c == '\n',
            CharClass::Key => alphanumeric(c) || c == '_' || c == '-',
            CharClass::Digit => '0' <= c && c <= '9',
            CharClass::AttributeName => c != ')',
            CharClass::Chunk => c != ',' && c != '}',
            CharClass::SelectorText => c != ',' && c != '}' && c != ']',
        }
    }

    /// Tests `c` for belonging to the class.
    pub fn accepts(&self, c: char) -> (b: bool)
        ensures
            b == self.holds(c),
    {
        match self {
            CharClass::Blank => c == ' ' || c == '\t' || c == '\r' || c == '\n',
            CharClass::Key => c.is_alphanumeric() || c == '_' || c == '-',
            CharClass::Digit => '0' <= c && c <= '9',
            CharClass::AttributeName => c != ')',
            CharClass::Chunk => c != ',' && c != '}',
            CharClass::SelectorText => c != ',' && c != '}' && c != ']',
        }
    }
}

/// Where the longest run of `class` characters that starts at `i` ends.
pub open spec fn run_end(s: Seq<char>, i: int, class: CharClass) -> int
    decreases s.len() - i,
{
    if 0 <= i < s.len() && class.holds(s[i]) {
        run_end(s, i + 1, class)
    } else {
        i
    }
}

/// Where the blanks that start at `i` end.
pub open spec fn blanks_end(s: Seq<char>, i: int) -> int {
    run_end(s, i, CharClass::Blank)
}

/// Where the blanks that end at `to` start, not before `from`: the end of
/// what stands in `from..to` without the blanks at its end.
pub open spec fn blanks_start(s: Seq<char>, from: int, to: int) -> int
    decreases to - from,
{
    if from < to && 0 < to <= s.len() && CharClass::Blank.holds(s[to - 1]) {
        blanks_start(s, from, to - 1)
    } else {
        to
    }
}

/// Where `literal` ends if it stands at `i`.
pub open spec fn literal_end(s: Seq<char>, i: int, literal: Seq<char>) -> Option<int> {
    if 0 <= i && i + literal.len() <= s.len() && s.subrange(i, i + literal.len()) == literal {
        Some(i + literal.len())
    } else {
        None
    }
}

/// Where `literal` with the blanks on both sides of it ends, if it stands at
/// `i` after blanks.
pub open spec fn padded_end(s: Seq<char>, i: int, literal: Seq<char>) -> Option<int> {
    match literal_end(s, blanks_end(s, i), literal) {
        Some(j) => Some(blanks_end(s, j)),
        None => None,
    }
}

/// The first place in `from..to` where `c` stands, or `to` if there is none.
pub open spec fn first_at(s: Seq<char>, from: int, to: int, c: char) -> int
    decreases to - from,
{
    if from < to && !(0 <= from < s.len() && s[from] == c) {
        first_at(s, from + 1, to, c)
    } else {
        from
    }
}

/// A run ends between its start and the end of the text, on a character that
/// is not of the class, and holds only characters of the class.
pub proof fn lemma_run_end(s: Seq<char>, i: int, class: CharClass)
    requires
        0 <= i <= s.len(),
    ensures
        i <= run_end(s, i, class) <= s.len(),
        run_end(s, i, class) < s.len() ==> !class.holds(s[run_end(s, i, class)]),
        forall|k: int| i <= k < run_end(s, i, class) ==> class.holds(#[trigger] s[k]),
    decreases s.len() - i,
{
    if i < s.len() && class.holds(s[i]) {
        lemma_run_end(s, i + 1, class);
    }
}

/// A query text together with its characters, for reading by position.
pub struct Source<'a> {
    text: &'a str,
    chars: Vec<char>,
}

impl<'a> View for Source<'a> {
    type V = Seq<char>;

    /// The characters. The text holds the same characters, as the type's
    /// invariant says, so that nothing is left out.
    closed spec fn view(&self) -> Seq<char> {
        self.chars@
    }
}

impl<'a> Source<'a> {
    #[verifier::type_invariant]
    spec fn wf(self) -> bool {
        self.chars@ == self.text@
    }

    /// The source that reads `text`.
    pub fn new(text: &'a str) -> (source: Self)
        ensures
            source@ == text@,
    {
        Source { text, chars: to_chars(text) }
    }

    /// The number of characters.
    pub fn len(&self) -> (n: usize)
        ensures
            n == self@.len(),
    {
        self.chars.len()
    }

    /// The characters `from..to` as a string.
    pub fn slice(&self, from: usize, to: usize) -> (piece: String)
        requires
            from <= to <= self@.len(),
        ensures
            piece@ == self@.subrange(from as int, to as int),
    {
        proof {
            use_type_invariant(self);
        }
        self.text.substring_char(from, to).to_owned()
    }

    /// The text from `from` on.
    pub fn rest(&self, from: usize) -> (tail: &'a str)
        requires
            from <= self@.len(),
        ensures
            tail@ == self@.skip(from as int),
    {
        proof {
            use_type_invariant(self);
        }
        self.text.substring_char(from, self.chars.len())
    }

    /// The source that reads only the first `to` characters.
    pub fn prefix(&self, to: usize) -> (head: Source<'a>)
        requires
            to <= self@.len(),
        ensures
            head@ == self@.take(to as int),
    {
        proof {
            use_type_invariant(self);
        }
        Source::new(self.text.substring_char(0, to))
    }

    /// Skips the longest run of `class` characters that starts at `start`.
    pub fn run(&self, start: usize, class: CharClass) -> (end: usize)
        requires
            start <= self@.len(),
        ensures
            end == run_end(self@, start as int, class),
            start <= end <= self@.len(),
    {
        let mut end = start;
        while end < self.chars.len() && class.accepts(self.chars[end])
            invariant
                start <= end <= self.chars@.len(),
                run_end(self.chars@, start as int, class) == run_end(
                    self.chars@,
                    end as int,
                    class,
                ),
            decreases self.chars@.len() - end,
        {
            end += 1;
        }
        end
    }

    /// Skips the blanks that start at `start`.
    pub fn ws(&self, start: usize) -> (end: usize)
        requires
            start <= self@.len(),
        ensures
            end == blanks_end(self@, start as int),
            start <= end <= self@.len(),
    {
        self.run(start, CharClass::Blank)
    }

    /// Finds where the blanks that end at `to` start, not before `from`.
    pub fn without_blanks(&self, from: usize, to: usize) -> (end: usize)
        requires
            from <= to <= self@.len(),
        ensures
            end == blanks_start(self@, from as int, to as int),
            from <= end <= to,
    {
        let mut end = to;
        while end > from && CharClass::Blank.accepts(self.chars[end - 1])
            invariant
                from <= end <= to <= self.chars@.len(),
                blanks_start(self.chars@, from as int, to as int) == blanks_start(
                    self.chars@,
                    from as int,
                    end as int,
                ),
            decreases end,
        {
            end -= 1;
        }
        end
    }

    /// Matches `literal` at `start`.
    pub fn literal(&self, start: usize, literal: &str) -> (end: Option<usize>)
        requires
            start <= self@.len(),
        ensures
            match end {
                Some(end) => literal_end(self@, start as int, literal@) == Some(end as int),
                None => literal_end(self@, start as int, literal@) is None,
            },
    {
        let wanted = to_chars(literal);
        let n = wanted.len();
        let len = self.chars.len();
        if n > len - start {
            return None;
        }
        let mut k: usize = 0;
        while k < n
            invariant
                k <= n == wanted@.len(),
                start + n <= len == self.chars@.len(),
                wanted@ == literal@,
                forall|j: int| 0 <= j < k ==> self.chars@[start + j] == wanted@[j],
            decreases n - k,
        {
            if self.chars[start + k] != wanted[k] {
                assert(self.chars@.subrange(start as int, start + n)[k as int]
                    != wanted@[k as int]);
                return None;
            }
            k += 1;
        }
        assert(self.chars@.subrange(start as int, start + n) =~= wanted@);
        Some(start + n)
    }

    /// Matches `literal` at `start`, with blanks allowed before and after it.
    pub fn padded(&self, start: usize, literal: &str) -> (end: Option<usize>)
        requires
            start <= self@.len(),
        ensures
            match end {
                Some(end) => padded_end(self@, start as int, literal@) == Some(end as int) && start
                    + literal@.len() <= end <= self@.len(),
                None => padded_end(self@, start as int, literal@) is None,
            },
    {
        let from = self.ws(start);
        match self.literal(from, literal) {
            Some(to) => Some(self.ws(to)),
            None => None,
        }
    }

    /// The first place in `from..to` where `c` stands, or `to`.
    pub fn find(&self, from: usize, to: usize, c: char) -> (at: usize)
        requires
            from <= to <= self@.len(),
        ensures
            at == first_at(self@, from as int, to as int, c),
            from <= at <= to,
            at < to ==> self@[at as int] == c,
    {
        let mut at = from;
        while at < to && self.chars[at] != c
            invariant
                from <= at <= to <= self.chars@.len(),
                first_at(self.chars@, from as int, to as int, c) == first_at(
                    self.chars@,
                    at as int,
                    to as int,
                    c,
                ),
            decreases to - at,
        {
            at += 1;
        }
        at
    }

    /// The character at `at`.
    pub fn at(&self, at: usize) -> (c: char)
        requires
            at < self@.len(),
        ensures
            c == self@[at as int],
    {
        self.chars[at]
    }
}

} // verus!
