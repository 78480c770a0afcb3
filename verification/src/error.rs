//! Diagnostics of refused queries, and their rendering by `nom`.

use vstd::prelude::*;
use vstd::string::{StrSliceExecFns, StringSliceAdditionalSpecFns};
use vstd::utf8::{
    encode_scalar, encode_utf8, encode_utf8_first_scalar, encode_utf8_valid_utf8, is_char_boundary,
    length_of_first_scalar, pop_first_scalar,
};

verus! {

/// What a frame of a diagnostic says about its place in the query.
#[derive(Debug, Clone, Copy, PartialEq, Eq)]
pub enum ErrorKind {
    /// This character was expected there.
    Char(char),
    /// The construct of this name, which starts there, was being read.
    Context(&'static str),
    /// The query was expected to end there.
    Eof,
}

/// One frame of a diagnostic: a place in the query, counted in characters
/// from its start, and what is said about it.
#[derive(Debug, Clone, Copy, PartialEq, Eq)]
pub struct ErrorFrame {
    pub position: usize,
    pub kind: ErrorKind,
}

/// Why a query was refused: the failure itself first, then the constructs
/// that were being read when it occurred, innermost first.
#[derive(Debug, PartialEq, Eq)]
pub struct ParseError {
    pub frames: Vec<ErrorFrame>,
}

impl View for ParseError {
    type V = Seq<ErrorFrame>;

    open spec fn view(&self) -> Seq<ErrorFrame> {
        self.frames@
    }
}

/// The name of the construct that an object is.
pub open spec fn map_context() -> &'static str {
    "map"
}

/// The diagnostic of a failure of `kind` at `position` while the object that
/// starts at `start` was being read.
pub open spec fn failure_in_object(position: int, kind: ErrorKind, start: int) -> Seq<ErrorFrame> {
    seq![
        ErrorFrame { position: position as usize, kind },
        ErrorFrame { position: start as usize, kind: ErrorKind::Context(map_context()) },
    ]
}

/// The diagnostic of text that follows the query at `position`.
pub open spec fn trailing_text(position: int) -> Seq<ErrorFrame> {
    seq![ErrorFrame { position: position as usize, kind: ErrorKind::Eof }]
}

impl ParseError {
    /// Whether every frame lies within a text of `len` characters or at its end.
    pub open spec fn within(&self, len: nat) -> bool {
        forall|i: int| 0 <= i < self@.len() ==> (#[trigger] self@[i]).position <= len
    }

    /// The diagnostic of a failure of `kind` at `position` while the object
    /// that starts at `start` was being read.
    pub fn in_object(position: usize, kind: ErrorKind, start: usize) -> (error: ParseError)
        ensures
            error@ == failure_in_object(position as int, kind, start as int),
    {
        let mut frames = Vec::new();
        frames.push(ErrorFrame { position, kind });
        frames.push(ErrorFrame { position: start, kind: ErrorKind::Context("map") });
        assert(frames@ =~= failure_in_object(position as int, kind, start as int));
        ParseError { frames }
    }

    /// The diagnostic of text that follows the query at `position`.
    pub fn trailing(position: usize) -> (error: ParseError)
        ensures
            error@ == trailing_text(position as int),
    {
        let mut frames = Vec::new();
        frames.push(ErrorFrame { position, kind: ErrorKind::Eof });
        assert(frames@ =~= trailing_text(position as int));
        ParseError { frames }
    }
}

/// How many bytes the first `position` characters of `text` take in UTF-8.
pub open spec fn byte_offset(text: Seq<char>, position: int) -> int {
    encode_utf8(text.take(position)).len() as int
}

/// The frames of `error` with their places counted in bytes of `text`.
pub open spec fn byte_frames(text: Seq<char>, error: Seq<ErrorFrame>) -> Seq<(usize, ErrorKind)> {
    Seq::new(
        error.len(),
        |i: int| (byte_offset(text, error[i].position as int) as usize, error[i].kind),
    )
}

/// The text that `nom` renders a diagnostic as: for each frame, given by its
/// place in bytes of `input` and its kind, the line of `input` that holds the
/// place, a caret below the place, and what the kind says.
pub uninterp spec fn rendered(input: Seq<char>, frames: Seq<(usize, ErrorKind)>) -> Seq<char>;

/// `nom::error::convert_error`, on the frames of a `VerboseError`: each
/// frame's place becomes the rest of `input` from there on, its kind the
/// `VerboseErrorKind` of the same meaning.
#[verifier::external_body]
fn render(input: &str, frames: &Vec<(usize, ErrorKind)>) -> (text: String)
    requires
        forall|i: int|
            0 <= i < frames@.len() ==> is_char_boundary(
                input.spec_bytes(),
                (#[trigger] frames@[i]).0 as int,
            ),
    ensures
        text@ == rendered(input@, frames@),
{
    let errors = frames.iter().map(
        |frame| (&input[frame.0..], match frame.1 {
            ErrorKind::Char(c) => nom::error::VerboseErrorKind::Char(c),
            ErrorKind::Context(name) => nom::error::VerboseErrorKind::Context(name),
            ErrorKind::Eof => nom::error::VerboseErrorKind::Nom(nom::error::ErrorKind::Eof),
        }),
    ).collect();
    nom::error::convert_error(input, nom::error::VerboseError { errors })
}

/// The bytes of the first characters of a text end where a character of the
/// whole text ends.
pub proof fn lemma_byte_offset_is_boundary(text: Seq<char>, position: int)
    requires
        0 <= position <= text.len(),
    ensures
        is_char_boundary(encode_utf8(text), byte_offset(text, position)),
        0 <= byte_offset(text, position) <= encode_utf8(text).len(),
    decreases position,
{
    encode_utf8_valid_utf8(text);
    if position == 0 {
        assert(text.take(0) =~= Seq::<char>::empty());
    } else {
        let head = text.take(position);
        let rest = text.drop_first();
        encode_utf8_first_scalar(text);
        encode_utf8_first_scalar(head);
        assert(head.drop_first() =~= rest.take(position - 1));
        assert(pop_first_scalar(encode_utf8(text)) =~= encode_utf8(rest));
        lemma_byte_offset_is_boundary(rest, position - 1);
        assert(encode_utf8(head).len() == encode_scalar(text[0] as u32).len() + encode_utf8(
            rest.take(position - 1),
        ).len());
        assert(length_of_first_scalar(encode_utf8(text)) > 0);
    }
}

/// The diagnostic as a text for a reader: for each frame the line of `input`
/// that holds its place, a caret below the place, and what is said about it.
pub fn format_error(input: &str, error: ParseError) -> (text: String)
    requires
        error.within(input@.len()),
    ensures
        text@ == rendered(input@, byte_frames(input@, error@)),
{
    let mut frames: Vec<(usize, ErrorKind)> = Vec::new();
    let n = error.frames.len();
    let mut i: usize = 0;
    while i < n
        invariant
            i <= n == error@.len(),
            error.within(input@.len()),
            frames@ == byte_frames(input@, error@).take(i as int),
            forall|k: int|
                0 <= k < frames@.len() ==> is_char_boundary(
                    input.spec_bytes(),
                    (#[trigger] frames@[k]).0 as int,
                ),
        decreases n - i,
    {
        let frame = error.frames[i];
        let head = input.substring_char(0, frame.position);
        let offset = head.as_bytes().len();
        proof {
            lemma_byte_offset_is_boundary(input@, frame.position as int);
            assert(head@ =~= input@.take(frame.position as int));
        }
        frames.push((offset, frame.kind));
        assert(frames@ =~= byte_frames(input@, error@).take(i + 1));
        i += 1;
    }
    assert(frames@ =~= byte_frames(input@, error@));
    render(input, &frames)
}

} // verus!
