//! The grammar of the text notation.
//!
//! ```text
//! document   := blank* track* blank* (space | tab | CR | LF)* end
//! blank      := ws* ("#" not-newline*)? newline
//! track      := blank* track_name (blank* annotation)* blank*
//! track_name := ws* "trackname" ws* ":" ws* not-newline* newline
//! annotation := ws* float ws+ not-newline* newline
//! ```
//!
//! `ws` is a space or a tab, `newline` is a line feed or a carriage return
//! and a line feed, and the keyword is read without regard to case. Every
//! function here reads from the front of the text it is given and says how
//! many characters it takes.

use crate::chars::{lemma_run_len, run_len, CharClass};
use crate::model::{AnnotationTrackView, AnnotationView, NULL_CHAR};
use crate::words::same_text;
use vstd::prelude::*;
use winnow::error::{ContextError, ErrMode};
use winnow::Parser;

verus! {

/// The floating-point literal that `winnow::ascii::float` takes from the
/// front of `word`, if it takes one.
pub uninterp spec fn float_literal(word: Seq<char>) -> Option<Seq<char>>;

/// Whether a floating-point literal can begin with `c`: with a sign, a digit,
/// a dot, or the first letter of `nan`, `inf` or `infinity` in either case.
pub open spec fn can_start_float(c: char) -> bool {
    ||| c == '+' || c == '-' || c == '.'
    ||| c == 'n' || c == 'N' || c == 'i' || c == 'I'
    ||| c == '0' || c == '1' || c == '2' || c == '3' || c == '4'
    ||| c == '5' || c == '6' || c == '7' || c == '8' || c == '9'
}

/// `winnow::ascii::float`, asked for the literal as text: the floating-point
/// literal at the front of `word`, if there is one. Where there is one,
/// `word` begins as [`can_start_float`] says.
#[verifier::external_body]
pub(crate) fn float_prefix(word: &str) -> (taken: Option<String>)
    ensures
        taken matches Some(literal) ==> float_literal(word@) == Some(literal@) && word@.len() > 0
            && can_start_float(word@[0]),
        taken is None ==> float_literal(word@) is None,
{
    let mut rest: &str = word;
    let literal: Result<String, ErrMode<ContextError>> = winnow::ascii::float.parse_next(&mut rest);
    literal.ok()
}

/// Whether `word` is, as a whole, a floating-point literal.
pub open spec fn is_float_literal(word: Seq<char>) -> bool {
    &&& word.len() > 0
    &&& can_start_float(word[0])
    &&& float_literal(word) == Some(word)
}

/// Whether `word` is, as a whole, a floating-point literal.
pub fn word_is_float(word: &str) -> (b: bool)
    ensures
        b == is_float_literal(word@),
{
    match float_prefix(word) {
        Some(literal) => same_text(literal.as_str(), word),
        None => false,
    }
}

/// The length of the line ending at the front of `s`: 1 for a line feed, 2
/// for a carriage return and a line feed, 0 where there is neither.
pub open spec fn line_ending_len(s: Seq<char>) -> nat {
    if s.len() >= 1 && s[0] == '\n' {
        1
    } else if s.len() >= 2 && s[0] == '\r' && s[1] == '\n' {
        2
    } else {
        0
    }
}

/// The rest of a line: its characters up to the line ending, and the number
/// of characters with the line ending. There is none where the text ends, or
/// a carriage return stands alone, before a line ending is found.
pub open spec fn rest_of_line(s: Seq<char>) -> Option<(Seq<char>, nat)> {
    let n = run_len(s, CharClass::Inline);
    let e = line_ending_len(s.skip(n as int));
    if e > 0 {
        Some((s.take(n as int), n + e))
    } else {
        None
    }
}

/// The length of the blank line at the front of `s`: spaces and tabs, then a
/// comment from `#` to the end of the line or nothing, then the line ending.
pub open spec fn blank_line(s: Seq<char>) -> Option<nat> {
    let a = run_len(s, CharClass::Space);
    let s1 = s.skip(a as int);
    if s1.len() > 0 && s1[0] == '#' {
        match rest_of_line(s1.skip(1)) {
            Some((_, n)) => Some(a + 1 + n),
            None => None,
        }
    } else if line_ending_len(s1) > 0 {
        Some(a + line_ending_len(s1))
    } else {
        None
    }
}

/// The length of all the blank lines at the front of `s`.
pub open spec fn blank_lines_len(s: Seq<char>) -> nat
    decreases s.len(),
    via blank_lines_len_decreases
{
    match blank_line(s) {
        Some(n) => n + blank_lines_len(s.skip(n as int)),
        None => 0,
    }
}

#[via_fn]
proof fn blank_lines_len_decreases(s: Seq<char>) {
    lemma_blank_line(s);
}

/// Whether `s` begins with the keyword that opens a track, in whatever case.
pub open spec fn has_keyword(s: Seq<char>) -> bool {
    &&& s.len() >= 9
    &&& (s[0] == 't' || s[0] == 'T')
    &&& (s[1] == 'r' || s[1] == 'R')
    &&& (s[2] == 'a' || s[2] == 'A')
    &&& (s[3] == 'c' || s[3] == 'C')
    &&& (s[4] == 'k' || s[4] == 'K')
    &&& (s[5] == 'n' || s[5] == 'N')
    &&& (s[6] == 'a' || s[6] == 'A')
    &&& (s[7] == 'm' || s[7] == 'M')
    &&& (s[8] == 'e' || s[8] == 'E')
}

/// What a name or a text of the notation stands for: nothing where it is the
/// null glyph alone, else itself, be it empty.
pub open spec fn text_value(t: Seq<char>) -> Option<Seq<char>> {
    if t.len() == 1 && t[0] == NULL_CHAR {
        None
    } else {
        Some(t)
    }
}

/// The line at the front of `s` that opens a track: the name it gives, and
/// its length.
#[verifier::opaque]
pub open spec fn track_name_line(s: Seq<char>) -> Option<(Option<Seq<char>>, nat)> {
    let a = run_len(s, CharClass::Space);
    let s1 = s.skip(a as int);
    let s2 = s1.skip(9);
    let b = run_len(s2, CharClass::Space);
    let s3 = s2.skip(b as int);
    let s4 = s3.skip(1);
    let c = run_len(s4, CharClass::Space);
    if has_keyword(s1) && s3.len() > 0 && s3[0] == ':' {
        match rest_of_line(s4.skip(c as int)) {
            Some((name, n)) => Some((text_value(name), a + 9 + b + 1 + c + n)),
            None => None,
        }
    } else {
        None
    }
}

/// The annotation line at the front of `s`: a floating-point literal, spaces
/// or tabs, and the text up to the end of the line; and its length. The
/// literal is the first word of the line, as a whole.
#[verifier::opaque]
pub open spec fn annotation_line(s: Seq<char>) -> Option<(AnnotationView, nat)> {
    let a = run_len(s, CharClass::Space);
    let s1 = s.skip(a as int);
    let w = run_len(s1, CharClass::Solid);
    let s2 = s1.skip(w as int);
    let b = run_len(s2, CharClass::Space);
    if is_float_literal(s1.take(w as int)) && b > 0 {
        match rest_of_line(s2.skip(b as int)) {
            Some((text, n)) => Some(
                (AnnotationView { time: s1.take(w as int), text: text_value(text) }, a + w + b + n),
            ),
            None => None,
        }
    } else {
        None
    }
}

/// The annotations at the front of `s`, with the blank lines before, between
/// and after them, and the length of it all.
pub open spec fn annotations(s: Seq<char>) -> (Seq<AnnotationView>, nat)
    decreases s.len(),
    via annotations_decreases
{
    let b = blank_lines_len(s);
    match annotation_line(s.skip(b as int)) {
        Some((a, n)) => {
            let rest = annotations(s.skip((b + n) as int));
            (seq![a] + rest.0, b + n + rest.1)
        },
        None => (Seq::empty(), b),
    }
}

#[via_fn]
proof fn annotations_decreases(s: Seq<char>) {
    lemma_blank_lines_len(s);
    lemma_annotation_line(s.skip(blank_lines_len(s) as int));
}

/// The track at the front of `s`, with the blank lines before and after it,
/// and the length of it all.
pub open spec fn track(s: Seq<char>) -> Option<(AnnotationTrackView, nat)> {
    let b = blank_lines_len(s);
    match track_name_line(s.skip(b as int)) {
        Some((name, n)) => {
            let body = annotations(s.skip((b + n) as int));
            Some((AnnotationTrackView { track_name: name, annotations: body.0 }, b + n + body.1))
        },
        None => None,
    }
}

/// The tracks at the front of `s`, and the length of them all.
pub open spec fn tracks(s: Seq<char>) -> (Seq<AnnotationTrackView>, nat)
    decreases s.len(),
    via tracks_decreases
{
    match track(s) {
        Some((t, n)) => {
            let rest = tracks(s.skip(n as int));
            (seq![t] + rest.0, n + rest.1)
        },
        None => (Seq::empty(), 0),
    }
}

#[via_fn]
proof fn tracks_decreases(s: Seq<char>) {
    lemma_track(s);
}

/// How far into `s` a document reaches: over the tracks, the blank lines
/// after them, and the spaces, tabs, carriage returns and line feeds after
/// those.
pub open spec fn document_len(s: Seq<char>) -> nat {
    let n = tracks(s).1;
    let b = blank_lines_len(s.skip(n as int));
    n + b + run_len(s.skip((n + b) as int), CharClass::Blank)
}

/// The tracks of the document `s`, where `s` is one: where tracks, blank
/// lines and trailing white space take up the whole of it.
pub open spec fn document(s: Seq<char>) -> Option<Seq<AnnotationTrackView>> {
    if document_len(s) == s.len() {
        Some(tracks(s).0)
    } else {
        None
    }
}

/// The rest of a line takes at least its line ending, and stays inside the
/// text; the characters it yields hold no carriage return and no line feed.
pub proof fn lemma_rest_of_line(s: Seq<char>)
    ensures
        rest_of_line(s) matches Some((line, n)) ==> 0 < n <= s.len() && line.len() < n
            && crate::chars::all_of(line, CharClass::Inline),
{
    lemma_run_len(s, CharClass::Inline);
}

/// A blank line takes at least its line ending, and stays inside the text.
pub proof fn lemma_blank_line(s: Seq<char>)
    ensures
        blank_line(s) matches Some(n) ==> 0 < n <= s.len(),
{
    lemma_run_len(s, CharClass::Space);
    let a = run_len(s, CharClass::Space);
    let s1 = s.skip(a as int);
    if s1.len() > 0 && s1[0] == '#' {
        lemma_rest_of_line(s1.skip(1));
    }
}

/// The blank lines at the front of a text stay inside the text.
pub proof fn lemma_blank_lines_len(s: Seq<char>)
    ensures
        blank_lines_len(s) <= s.len(),
    decreases s.len(),
{
    lemma_blank_line(s);
    match blank_line(s) {
        Some(n) => {
            lemma_blank_lines_len(s.skip(n as int));
        },
        None => {},
    }
}

/// A line that opens a track takes at least its keyword, and stays inside
/// the text.
pub proof fn lemma_track_name_line(s: Seq<char>)
    ensures
        track_name_line(s) matches Some((_, n)) ==> 9 < n <= s.len(),
{
    let a = run_len(s, CharClass::Space);
    let s1 = s.skip(a as int);
    let s2 = s1.skip(9);
    let b = run_len(s2, CharClass::Space);
    let s3 = s2.skip(b as int);
    let s4 = s3.skip(1);
    let c = run_len(s4, CharClass::Space);
    reveal(track_name_line);
    lemma_run_len(s, CharClass::Space);
    if has_keyword(s1) && s3.len() > 0 && s3[0] == ':' {
        lemma_run_len(s2, CharClass::Space);
        lemma_run_len(s4, CharClass::Space);
        lemma_rest_of_line(s4.skip(c as int));
    }
}

/// An annotation line takes at least its literal, and stays inside the text.
pub proof fn lemma_annotation_line(s: Seq<char>)
    ensures
        annotation_line(s) matches Some((_, n)) ==> 0 < n <= s.len(),
{
    let a = run_len(s, CharClass::Space);
    let s1 = s.skip(a as int);
    let w = run_len(s1, CharClass::Solid);
    let s2 = s1.skip(w as int);
    let b = run_len(s2, CharClass::Space);
    reveal(annotation_line);
    lemma_run_len(s, CharClass::Space);
    lemma_run_len(s1, CharClass::Solid);
    lemma_run_len(s2, CharClass::Space);
    lemma_rest_of_line(s2.skip(b as int));
}

/// The annotations at the front of a text stay inside the text.
pub proof fn lemma_annotations(s: Seq<char>)
    ensures
        annotations(s).1 <= s.len(),
    decreases s.len(),
{
    let b = blank_lines_len(s);
    lemma_blank_lines_len(s);
    lemma_annotation_line(s.skip(b as int));
    match annotation_line(s.skip(b as int)) {
        Some((a, n)) => {
            lemma_annotations(s.skip((b + n) as int));
        },
        None => {},
    }
}

/// A track takes at least the line that opens it, and stays inside the text.
pub proof fn lemma_track(s: Seq<char>)
    ensures
        track(s) matches Some((_, n)) ==> 0 < n <= s.len(),
{
    let b = blank_lines_len(s);
    lemma_blank_lines_len(s);
    lemma_track_name_line(s.skip(b as int));
    match track_name_line(s.skip(b as int)) {
        Some((name, n)) => {
            lemma_annotations(s.skip((b + n) as int));
        },
        None => {},
    }
}

/// The tracks at the front of a text stay inside the text.
pub proof fn lemma_tracks(s: Seq<char>)
    ensures
        tracks(s).1 <= s.len(),
    decreases s.len(),
{
    lemma_track(s);
    match track(s) {
        Some((t, n)) => {
            lemma_tracks(s.skip(n as int));
        },
        None => {},
    }
}

} // verus!
