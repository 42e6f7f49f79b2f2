//! Reading the text notation.
//!
//! The names, texts and times of what is read are borrowed from the text.

use crate::chars::{chars_of, scan, CharClass};
use crate::decimal::{decimal_nat, push_decimal};
use crate::grammar;
use crate::grammar::word_is_float;
use crate::model::{
    annotations_view, text_view, tracks_view, Annotation, AnnotationTrack, Hkanno, NULL_CHAR,
};
use std::borrow::Cow;
use vstd::prelude::*;

verus! {

/// Says that a text does not follow the grammar of the notation.
///
/// Only the form of the text is judged: that a count given in a comment is
/// the count of what follows, say, is not.
#[derive(Debug)]
pub struct HkannoParseError {
    /// What is wrong, in words.
    pub message: String,
}

impl HkannoParseError {
    /// What the error shows to a reader.
    pub open spec fn shown(&self) -> Seq<char> {
        "Parse Error: "@ + self.message@
    }

    /// What the error shows to a reader.
    pub fn to_string(&self) -> (s: String)
        ensures
            s@ == self.shown(),
    {
        let mut s = String::from_str("Parse Error: ");
        s.append(self.message.as_str());
        s
    }
}

/// The message for a text in which the document ends before character `at`,
/// counted from 0.
pub open spec fn failure_message(at: nat) -> Seq<char> {
    "unexpected text at character "@ + decimal_nat(at)
}

/// The length of the line ending at `pos`, 0 where there is none.
fn line_ending(chars: &Vec<char>, pos: usize) -> (n: usize)
    requires
        pos <= chars.len(),
    ensures
        n == grammar::line_ending_len(chars@.skip(pos as int)),
        pos + n <= chars.len(),
{
    if pos < chars.len() && chars[pos] == '\n' {
        1
    } else if chars.len() - pos >= 2 && chars[pos] == '\r' && chars[pos + 1] == '\n' {
        2
    } else {
        0
    }
}

/// Where the line that goes on at `pos` stops, and where the next one starts.
fn rest_of_line(chars: &Vec<char>, pos: usize) -> (r: Option<(usize, usize)>)
    requires
        pos <= chars.len(),
    ensures
        match r {
            Some((stop, next)) => pos <= stop < next <= chars.len() && grammar::rest_of_line(
                chars@.skip(pos as int),
            ) == Some((chars@.subrange(pos as int, stop as int), (next - pos) as nat)),
            None => grammar::rest_of_line(chars@.skip(pos as int)) is None,
        },
{
    let stop = scan(chars, pos, CharClass::Inline);
    let e = line_ending(chars, stop);
    proof {
        let s = chars@.skip(pos as int);
        assert(s.skip(stop - pos) =~= chars@.skip(stop as int));
        assert(s.take(stop - pos) =~= chars@.subrange(pos as int, stop as int));
    }
    if e > 0 {
        Some((stop, stop + e))
    } else {
        None
    }
}

/// Where the line after the blank line at `pos` starts.
fn blank_line(chars: &Vec<char>, pos: usize) -> (r: Option<usize>)
    requires
        pos <= chars.len(),
    ensures
        match r {
            Some(next) => pos < next <= chars.len() && grammar::blank_line(chars@.skip(pos as int))
                == Some((next - pos) as nat),
            None => grammar::blank_line(chars@.skip(pos as int)) is None,
        },
{
    let start = scan(chars, pos, CharClass::Space);
    proof {
        let s = chars@.skip(pos as int);
        assert(s.skip(start - pos) =~= chars@.skip(start as int));
        if start < chars.len() {
            assert(chars@.skip(start as int).skip(1) =~= chars@.skip(start + 1));
        }
    }
    if start < chars.len() && chars[start] == '#' {
        match rest_of_line(chars, start + 1) {
            Some((_, next)) => Some(next),
            None => None,
        }
    } else {
        let e = line_ending(chars, start);
        if e > 0 {
            Some(start + e)
        } else {
            None
        }
    }
}

/// Where the blank lines at `pos` end.
fn skip_blank_lines(chars: &Vec<char>, pos: usize) -> (end: usize)
    requires
        pos <= chars.len(),
    ensures
        pos <= end <= chars.len(),
        end == pos + grammar::blank_lines_len(chars@.skip(pos as int)),
{
    let mut end: usize = pos;
    loop
        invariant
            pos <= end <= chars.len(),
            pos + grammar::blank_lines_len(chars@.skip(pos as int)) == end
                + grammar::blank_lines_len(chars@.skip(end as int)),
        decreases chars.len() - end,
    {
        match blank_line(chars, end) {
            Some(next) => {
                proof {
                    assert(chars@.skip(end as int).skip(next - end) =~= chars@.skip(next as int));
                }
                end = next;
            },
            None => {
                return end;
            },
        }
    }
}

/// Whether the keyword that opens a track stands at `pos`.
fn has_keyword(chars: &Vec<char>, pos: usize) -> (b: bool)
    requires
        pos <= chars.len(),
    ensures
        b == grammar::has_keyword(chars@.skip(pos as int)),
{
    if chars.len() - pos < 9 {
        return false;
    }
    (chars[pos] == 't' || chars[pos] == 'T') && (chars[pos + 1] == 'r' || chars[pos + 1] == 'R')
        && (chars[pos + 2] == 'a' || chars[pos + 2] == 'A') && (chars[pos + 3] == 'c' || chars[pos
        + 3] == 'C') && (chars[pos + 4] == 'k' || chars[pos + 4] == 'K') && (chars[pos + 5] == 'n'
        || chars[pos + 5] == 'N') && (chars[pos + 6] == 'a' || chars[pos + 6] == 'A') && (chars[pos
        + 7] == 'm' || chars[pos + 7] == 'M') && (chars[pos + 8] == 'e' || chars[pos + 8] == 'E')
}

/// What the name or text from `from` to `to` stands for.
fn text_value<'a>(input: &'a str, chars: &Vec<char>, from: usize, to: usize) -> (r: Option<
    Cow<'a, str>,
>)
    requires
        chars@ == input@,
        from <= to <= chars.len(),
    ensures
        text_view(r) == grammar::text_value(chars@.subrange(from as int, to as int)),
{
    if to - from == 1 && chars[from] == NULL_CHAR {
        None
    } else {
        Some(Cow::Borrowed(input.substring_char(from, to)))
    }
}

/// The name that the line at `pos` gives to a track, and where the next line
/// starts.
fn track_name_line<'a>(input: &'a str, chars: &Vec<char>, pos: usize) -> (r: Option<
    (Option<Cow<'a, str>>, usize),
>)
    requires
        chars@ == input@,
        pos <= chars.len(),
    ensures
        match r {
            Some((name, next)) => pos < next <= chars.len() && grammar::track_name_line(
                chars@.skip(pos as int),
            ) == Some((text_view(name), (next - pos) as nat)),
            None => grammar::track_name_line(chars@.skip(pos as int)) is None,
        },
{
    let keyword = scan(chars, pos, CharClass::Space);
    proof {
        reveal(grammar::track_name_line);
        assert(chars@.skip(pos as int).skip(keyword - pos) =~= chars@.skip(keyword as int));
    }
    if !has_keyword(chars, keyword) {
        return None;
    }
    let colon = scan(chars, keyword + 9, CharClass::Space);
    proof {
        let s2 = chars@.skip(keyword as int).skip(9);
        assert(s2 =~= chars@.skip(keyword + 9));
        assert(s2.skip(colon - (keyword + 9)) =~= chars@.skip(colon as int));
    }
    if colon >= chars.len() || chars[colon] != ':' {
        return None;
    }
    let name = scan(chars, colon + 1, CharClass::Space);
    proof {
        let s4 = chars@.skip(colon as int).skip(1);
        assert(s4 =~= chars@.skip(colon + 1));
        assert(s4.skip(name - (colon + 1)) =~= chars@.skip(name as int));
    }
    match rest_of_line(chars, name) {
        Some((stop, next)) => Some((text_value(input, chars, name, stop), next)),
        None => None,
    }
}

/// The annotation that the line at `pos` gives, and where the next line
/// starts.
fn annotation_line<'a>(input: &'a str, chars: &Vec<char>, pos: usize) -> (r: Option<
    (Annotation<'a>, usize),
>)
    requires
        chars@ == input@,
        pos <= chars.len(),
    ensures
        match r {
            Some((a, next)) => pos < next <= chars.len() && grammar::annotation_line(
                chars@.skip(pos as int),
            ) == Some((a@, (next - pos) as nat)),
            None => grammar::annotation_line(chars@.skip(pos as int)) is None,
        },
{
    let word = scan(chars, pos, CharClass::Space);
    let word_end = scan(chars, word, CharClass::Solid);
    let text = scan(chars, word_end, CharClass::Space);
    proof {
        reveal(grammar::annotation_line);
        let s1 = chars@.skip(pos as int).skip(word - pos);
        assert(s1 =~= chars@.skip(word as int));
        assert(s1.take(word_end - word) =~= chars@.subrange(word as int, word_end as int));
        let s2 = s1.skip(word_end - word);
        assert(s2 =~= chars@.skip(word_end as int));
        assert(s2.skip(text - word_end) =~= chars@.skip(text as int));
    }
    if word_end == word || text == word_end {
        return None;
    }
    let time = input.substring_char(word, word_end);
    if !word_is_float(time) {
        return None;
    }
    match rest_of_line(chars, text) {
        Some((stop, next)) => Some(
            (Annotation { time: Cow::Borrowed(time), text: text_value(input, chars, text, stop) }, next),
        ),
        None => None,
    }
}

/// The annotations from `pos` on, and where what follows them starts.
fn annotations<'a>(input: &'a str, chars: &Vec<char>, pos: usize) -> (r: (Vec<Annotation<'a>>, usize))
    requires
        chars@ == input@,
        pos <= chars.len(),
    ensures
        pos <= r.1 <= chars.len(),
        grammar::annotations(chars@.skip(pos as int)) == (
            annotations_view(r.0@),
            (r.1 - pos) as nat,
        ),
{
    let ghost whole = grammar::annotations(chars@.skip(pos as int));
    let mut found: Vec<Annotation<'a>> = Vec::new();
    let mut at: usize = pos;
    loop
        invariant
            chars@ == input@,
            pos <= at <= chars.len(),
            whole == grammar::annotations(chars@.skip(pos as int)),
            whole.0 == annotations_view(found@) + grammar::annotations(chars@.skip(at as int)).0,
            whole.1 == (at - pos) + grammar::annotations(chars@.skip(at as int)).1,
        decreases chars.len() - at,
    {
        let line = skip_blank_lines(chars, at);
        proof {
            assert(chars@.skip(at as int).skip(line - at) =~= chars@.skip(line as int));
        }
        match annotation_line(input, chars, line) {
            Some((a, next)) => {
                proof {
                    assert(chars@.skip(at as int).skip(next - at) =~= chars@.skip(next as int));
                    assert(annotations_view(found@.push(a)) =~= annotations_view(found@) + seq![
                        a@,
                    ]);
                    let rest = grammar::annotations(chars@.skip(next as int));
                    assert(annotations_view(found@) + (seq![a@] + rest.0) =~= annotations_view(
                        found@,
                    ) + seq![a@] + rest.0);
                }
                found.push(a);
                at = next;
            },
            None => {
                proof {
                    assert(annotations_view(found@) + Seq::<crate::model::AnnotationView>::empty()
                        =~= annotations_view(found@));
                }
                return (found, line);
            },
        }
    }
}

/// The track that starts at `pos`, and where what follows it starts.
fn track<'a>(input: &'a str, chars: &Vec<char>, pos: usize) -> (r: Option<
    (AnnotationTrack<'a>, usize),
>)
    requires
        chars@ == input@,
        pos <= chars.len(),
    ensures
        match r {
            Some((t, next)) => pos < next <= chars.len() && grammar::track(chars@.skip(pos as int))
                == Some((t@, (next - pos) as nat)),
            None => grammar::track(chars@.skip(pos as int)) is None,
        },
{
    let line = skip_blank_lines(chars, pos);
    proof {
        assert(chars@.skip(pos as int).skip(line - pos) =~= chars@.skip(line as int));
    }
    match track_name_line(input, chars, line) {
        Some((track_name, body)) => {
            proof {
                assert(chars@.skip(pos as int).skip(body - pos) =~= chars@.skip(body as int));
            }
            let (annotations, next) = annotations(input, chars, body);
            Some((AnnotationTrack { track_name, annotations }, next))
        },
        None => None,
    }
}

/// The tracks from `pos` on, and where what follows them starts.
fn tracks<'a>(input: &'a str, chars: &Vec<char>, pos: usize) -> (r: (Vec<AnnotationTrack<'a>>, usize))
    requires
        chars@ == input@,
        pos <= chars.len(),
    ensures
        pos <= r.1 <= chars.len(),
        grammar::tracks(chars@.skip(pos as int)) == (tracks_view(r.0@), (r.1 - pos) as nat),
{
    let ghost whole = grammar::tracks(chars@.skip(pos as int));
    let mut found: Vec<AnnotationTrack<'a>> = Vec::new();
    let mut at: usize = pos;
    loop
        invariant
            chars@ == input@,
            pos <= at <= chars.len(),
            whole == grammar::tracks(chars@.skip(pos as int)),
            whole.0 == tracks_view(found@) + grammar::tracks(chars@.skip(at as int)).0,
            whole.1 == (at - pos) + grammar::tracks(chars@.skip(at as int)).1,
        decreases chars.len() - at,
    {
        match track(input, chars, at) {
            Some((t, next)) => {
                proof {
                    assert(chars@.skip(at as int).skip(next - at) =~= chars@.skip(next as int));
                    assert(tracks_view(found@.push(t)) =~= tracks_view(found@) + seq![t@]);
                    let rest = grammar::tracks(chars@.skip(next as int));
                    assert(tracks_view(found@) + (seq![t@] + rest.0) =~= tracks_view(found@)
                        + seq![t@] + rest.0);
                }
                found.push(t);
                at = next;
            },
            None => {
                proof {
                    assert(tracks_view(found@) + Seq::<crate::model::AnnotationTrackView>::empty()
                        =~= tracks_view(found@));
                }
                return (found, at);
            },
        }
    }
}

/// Takes the blank lines off the front of `input`: lines that hold spaces
/// and tabs, a comment, or nothing. It never fails.
pub fn ignore_blank_lines<'a>(input: &mut &'a str) -> (r: Result<(), HkannoParseError>)
    ensures
        r is Ok,
        final(input)@ == old(input)@.skip(grammar::blank_lines_len(old(input)@) as int),
{
    let chars = chars_of(*input);
    assert(chars@.skip(0) =~= chars@);
    let end = skip_blank_lines(&chars, 0);
    *input = input.substring_char(end, chars.len());
    Ok(())
}

/// Reads a whole text in the notation.
///
/// The text is a document where tracks, blank lines and trailing white space
/// take up all of it; the tracks are then returned as they stand in the
/// text, under index 0, with no frames and the duration `0`: comments are
/// not read, whatever they say. Any other text is refused, and the message
/// names the character before which the document ends.
pub fn parse_hkanno_str<'a>(input: &'a str) -> (r: Result<Hkanno<'a>, HkannoParseError>)
    ensures
        match r {
            Ok(h) => {
                &&& grammar::document(input@) == Some(h@.annotation_tracks)
                &&& h.ptr == 0
                &&& h.num_original_frames == 0
                &&& h.duration@ == "0"@
            },
            Err(e) => {
                &&& grammar::document(input@) is None
                &&& e.message@ == failure_message(grammar::document_len(input@))
            },
        },
{
    let chars = chars_of(input);
    assert(chars@.skip(0) =~= chars@);
    let (annotation_tracks, after) = tracks(input, &chars, 0);
    let tail = skip_blank_lines(&chars, after);
    let end = scan(&chars, tail, CharClass::Blank);
    if end == chars.len() {
        Ok(Hkanno { ptr: 0, num_original_frames: 0, duration: Cow::Borrowed("0"), annotation_tracks })
    } else {
        let mut message = String::from_str("unexpected text at character ");
        push_decimal(&mut message, end as u64);
        Err(HkannoParseError { message })
    }
}

} // verus!
