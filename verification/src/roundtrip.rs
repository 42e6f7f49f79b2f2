//! What is written is read back.
//!
//! The text of a value is made of whole lines, so a name, a text or a time
//! comes back as it went out only if it can stand on a line: see
//! [`reads_back`] and [`time_reads_back`]. For such values the laws of this
//! module hold.

use crate::chars::{
    all_in, all_of, chars_of, lemma_run_len_is, lemma_run_len_prefix, run_len, CharClass,
};
use crate::decimal::{decimal_int, decimal_nat, is_digit, lemma_decimal_nat_digits};
use crate::grammar::{
    annotation_line, annotations, blank_line, blank_lines_len, can_start_float, document,
    has_keyword, is_float_literal, lemma_annotation_line, lemma_blank_line,
    lemma_blank_lines_len, lemma_track_name_line, rest_of_line, text_value, track, track_name_line,
    tracks, word_is_float,
};
use crate::model::{
    text_str, text_view, Annotation, AnnotationTrack, AnnotationTrackView, AnnotationView, Hkanno,
    HkannoView, NULL_CHAR,
};
use crate::writer::{
    render, render_annotation, render_annotations, render_track, render_tracks, text_or_null,
};
use std::borrow::Cow;
use vstd::prelude::*;

verus! {

/// Whether a name or a text is read back as it is written: it holds no
/// carriage return and no line feed, does not begin with a space or a tab,
/// and is not the null glyph alone.
pub open spec fn reads_back(text: Seq<char>) -> bool {
    &&& all_of(text, CharClass::Inline)
    &&& text.len() > 0 ==> !CharClass::Space.holds(text[0])
    &&& !(text.len() == 1 && text[0] == NULL_CHAR)
}

/// Whether a name or a text, where there is one, is read back as it is
/// written.
pub open spec fn optional_reads_back(text: Option<Seq<char>>) -> bool {
    match text {
        Some(t) => reads_back(t),
        None => true,
    }
}

/// Whether a time is read back as it is written: it is one word, and as a
/// whole a floating-point literal.
pub open spec fn time_reads_back(time: Seq<char>) -> bool {
    all_of(time, CharClass::Solid) && is_float_literal(time)
}

/// Whether an annotation is read back as it is written.
pub open spec fn annotation_reads_back(a: AnnotationView) -> bool {
    time_reads_back(a.time) && optional_reads_back(a.text)
}

/// Whether each of the annotations is read back as it is written.
pub open spec fn annotations_read_back(annotations: Seq<AnnotationView>) -> bool {
    forall|i: int| 0 <= i < annotations.len() ==> annotation_reads_back(#[trigger] annotations[i])
}

/// Whether a track is read back as it is written.
pub open spec fn track_reads_back(t: AnnotationTrackView) -> bool {
    optional_reads_back(t.track_name) && annotations_read_back(t.annotations)
}

/// Whether each of the tracks is read back as it is written.
pub open spec fn tracks_read_back(tracks: Seq<AnnotationTrackView>) -> bool {
    forall|i: int| 0 <= i < tracks.len() ==> track_reads_back(#[trigger] tracks[i])
}

/// The one-character texts of the notation hold what they show.
proof fn lemma_separators()
    ensures
        " "@ == seq![' '],
        "\n"@ == seq!['\n'],
{
    reveal_strlit(" ");
    reveal_strlit("\n");
    assert(" "@ =~= seq![' ']);
    assert("\n"@ =~= seq!['\n']);
}

/// A written name or text holds no carriage return and no line feed, and
/// does not begin with a space or a tab; and it is read as what was written.
proof fn lemma_text_or_null(text: Option<Seq<char>>)
    requires
        optional_reads_back(text),
    ensures
        all_of(text_or_null(text), CharClass::Inline),
        text_or_null(text).len() > 0 ==> !CharClass::Space.holds(text_or_null(text)[0]),
        text_value(text_or_null(text)) == text,
{
}

/// A line without a carriage return, closed by a line feed, is read as a
/// whole.
proof fn lemma_line(line: Seq<char>, tail: Seq<char>)
    requires
        all_of(line, CharClass::Inline),
    ensures
        rest_of_line(line + seq!['\n'] + tail) == Some((line, line.len() + 1)),
{
    let s = line + seq!['\n'] + tail;
    let after = seq!['\n'] + tail;
    assert(s =~= line + after);
    lemma_run_len_prefix(line, after, CharClass::Inline);
    assert(s.skip(line.len() as int) =~= after);
    assert(s.take(line.len() as int) =~= line);
}

/// A line that begins with `#` is blank.
proof fn lemma_comment_line(line: Seq<char>, tail: Seq<char>)
    requires
        line.len() > 0,
        line[0] == '#',
        all_of(line, CharClass::Inline),
    ensures
        blank_line(line + seq!['\n'] + tail) == Some(line.len() + 1),
{
    let s = line + seq!['\n'] + tail;
    assert(s[0] == '#');
    assert(s.take(0) =~= Seq::<char>::empty());
    lemma_run_len_is(s, CharClass::Space, 0);
    assert(s.skip(0) =~= s);
    let body = line.skip(1);
    assert(s.skip(1) =~= body + seq!['\n'] + tail);
    assert forall|k: int| 0 <= k < body.len() implies CharClass::Inline.holds(#[trigger] body[k]) by {
        assert(body[k] == line[k + 1]);
    }
    lemma_line(body, tail);
}

/// An empty line is blank.
proof fn lemma_empty_line(tail: Seq<char>)
    ensures
        blank_line(seq!['\n'] + tail) == Some(1nat),
{
    let s = seq!['\n'] + tail;
    assert(s[0] == '\n');
    assert(s.take(0) =~= Seq::<char>::empty());
    lemma_run_len_is(s, CharClass::Space, 0);
    assert(s.skip(0) =~= s);
}

/// A text that is empty, or begins with a character that is neither white
/// space nor `#`, does not begin with a blank line.
proof fn lemma_not_blank(s: Seq<char>)
    requires
        s.len() > 0 ==> CharClass::Solid.holds(s[0]) && s[0] != '#',
    ensures
        blank_line(s) is None,
        blank_lines_len(s) == 0,
{
    assert(s.take(0) =~= Seq::<char>::empty());
    lemma_run_len_is(s, CharClass::Space, 0);
    assert(s.skip(0) =~= s);
}

/// A text that is empty, or begins with a character with which no literal
/// begins, does not begin with an annotation line.
proof fn lemma_not_annotation(s: Seq<char>)
    requires
        s.len() > 0 ==> CharClass::Solid.holds(s[0]) && !can_start_float(s[0]),
    ensures
        annotation_line(s) is None,
{
    reveal(annotation_line);
    assert(s.take(0) =~= Seq::<char>::empty());
    lemma_run_len_is(s, CharClass::Space, 0);
    assert(s.skip(0) =~= s);
    let w = run_len(s, CharClass::Solid);
    crate::chars::lemma_run_len(s, CharClass::Solid);
    if w > 0 {
        assert(s.take(w as int)[0] == s[0]);
    }
}

/// The line of an annotation is read as the annotation.
proof fn lemma_annotation_is_read(a: AnnotationView, tail: Seq<char>)
    requires
        annotation_reads_back(a),
    ensures
        annotation_line(render_annotation(a) + tail) == Some((a, render_annotation(a).len())),
        render_annotation(a).len() > 0,
        CharClass::Solid.holds(render_annotation(a)[0]),
        can_start_float(render_annotation(a)[0]),
{
    reveal(annotation_line);
    lemma_separators();
    lemma_text_or_null(a.text);
    let text = text_or_null(a.text);
    let line = render_annotation(a);
    let s = line + tail;
    assert(a.time[0] == s[0]);
    assert(CharClass::Solid.holds(a.time[0]));
    // no space before the time
    assert(s.take(0) =~= Seq::<char>::empty());
    lemma_run_len_is(s, CharClass::Space, 0);
    assert(s.skip(0) =~= s);
    // the time is the first word
    let after_time = seq![' '] + text + seq!['\n'] + tail;
    assert(s =~= a.time + after_time);
    lemma_run_len_prefix(a.time, after_time, CharClass::Solid);
    let w = a.time.len();
    assert(s.take(w as int) =~= a.time);
    assert(s.skip(w as int) =~= after_time);
    // one space after the time
    let after_space = text + seq!['\n'] + tail;
    assert(after_time =~= seq![' '] + after_space);
    assert(after_space[0] == if text.len() > 0 {
        text[0]
    } else {
        '\n'
    });
    lemma_run_len_prefix(seq![' '], after_space, CharClass::Space);
    assert(after_time.skip(1) =~= after_space);
    // the text is the rest of the line
    lemma_line(text, tail);
    assert(line.len() == w + 1 + text.len() + 1);
}

/// The text that opens a track: what it holds.
proof fn lemma_keyword()
    ensures
        "trackName: "@.len() == 11,
        has_keyword("trackName: "@),
        "trackName: "@[0] == 't',
        "trackName: "@[9] == ':',
        "trackName: "@[10] == ' ',
{
    reveal_strlit("trackName: ");
}

/// The line that opens a track is read as the name of the track.
proof fn lemma_name_is_read(name: Option<Seq<char>>, tail: Seq<char>)
    requires
        optional_reads_back(name),
    ensures
        track_name_line("trackName: "@ + text_or_null(name) + "\n"@ + tail) == Some(
            (name, 11 + text_or_null(name).len() + 1),
        ),
{
    reveal(track_name_line);
    lemma_separators();
    lemma_keyword();
    lemma_text_or_null(name);
    let key = "trackName: "@;
    let text = text_or_null(name);
    let s = key + text + seq!['\n'] + tail;
    assert(s[0] == 't');
    assert(s.take(0) =~= Seq::<char>::empty());
    lemma_run_len_is(s, CharClass::Space, 0);
    let s1 = s.skip(0);
    assert(s1 =~= s);
    assert(has_keyword(s1)) by {
        assert(forall|k: int| 0 <= k < 11 ==> s1[k] == key[k]);
    }
    let s2 = s1.skip(9);
    assert(s2[0] == key[9]);
    assert(s2.take(0) =~= Seq::<char>::empty());
    lemma_run_len_is(s2, CharClass::Space, 0);
    let s3 = s2.skip(0);
    assert(s3 =~= s2);
    let s4 = s3.skip(1);
    let after_space = text + seq!['\n'] + tail;
    assert(s4 =~= seq![' '] + after_space) by {
        assert(s4[0] == key[10]);
    }
    assert(after_space[0] == if text.len() > 0 {
        text[0]
    } else {
        '\n'
    });
    lemma_run_len_prefix(seq![' '], after_space, CharClass::Space);
    assert(s4.skip(1) =~= after_space);
    lemma_line(text, tail);
}

/// Blank lines before annotations add to their length and to nothing else.
proof fn lemma_annotations_after_blank(s: Seq<char>, n: nat)
    requires
        blank_line(s) == Some(n),
    ensures
        annotations(s) == (annotations(s.skip(n as int)).0, n + annotations(s.skip(n as int)).1),
{
    lemma_blank_line(s);
    let t = s.skip(n as int);
    let b = blank_lines_len(t);
    lemma_blank_lines_len(t);
    assert(blank_lines_len(s) == n + b);
    assert(s.skip((n + b) as int) =~= t.skip(b as int));
    lemma_annotation_line(t.skip(b as int));
    match annotation_line(t.skip(b as int)) {
        Some((a, m)) => {
            assert(s.skip((n + b + m) as int) =~= t.skip((b + m) as int));
        },
        None => {},
    }
}

/// Blank lines before a track add to its length and to nothing else.
proof fn lemma_track_after_blank(s: Seq<char>, n: nat)
    requires
        blank_line(s) == Some(n),
    ensures
        track(s) == match track(s.skip(n as int)) {
            Some((t, m)) => Some((t, n + m)),
            None => None,
        },
{
    lemma_blank_line(s);
    let t = s.skip(n as int);
    let b = blank_lines_len(t);
    lemma_blank_lines_len(t);
    assert(blank_lines_len(s) == n + b);
    assert(s.skip((n + b) as int) =~= t.skip(b as int));
    lemma_track_name_line(t.skip(b as int));
    match track_name_line(t.skip(b as int)) {
        Some((name, m)) => {
            assert(s.skip((n + b + m) as int) =~= t.skip((b + m) as int));
        },
        None => {},
    }
}

/// The lines of annotations, closed by an empty line, are read as the
/// annotations, whatever follows, as long as no blank line and no annotation
/// line follows.
proof fn lemma_annotations_are_read(all: Seq<AnnotationView>, tail: Seq<char>)
    requires
        annotations_read_back(all),
        blank_line(tail) is None,
        annotation_line(tail) is None,
    ensures
        annotations(render_annotations(all) + seq!['\n'] + tail) == (
            all,
            render_annotations(all).len() + 1,
        ),
    decreases all.len(),
{
    let s = render_annotations(all) + seq!['\n'] + tail;
    if all.len() == 0 {
        assert(s =~= seq!['\n'] + tail);
        lemma_empty_line(tail);
        assert(s.skip(1) =~= tail);
        assert(blank_lines_len(tail) == 0);
        assert(blank_lines_len(s) == 1);
        assert(annotations(s).0 =~= all);
    } else {
        let first = all[0];
        let rest = all.drop_first();
        let line = render_annotation(first);
        let after = render_annotations(rest) + seq!['\n'] + tail;
        assert(s =~= line + after);
        lemma_annotation_is_read(first, after);
        assert(s[0] == line[0]);
        lemma_not_blank(s);
        assert(s.skip(0) =~= s);
        assert(s.skip((0 + line.len()) as int) =~= after);
        assert(annotations_read_back(rest)) by {
            assert forall|i: int| 0 <= i < rest.len() implies annotation_reads_back(
                #[trigger] rest[i],
            ) by {
                assert(rest[i] == all[i + 1]);
            }
        }
        lemma_annotations_are_read(rest, tail);
        assert(seq![first] + rest =~= all);
    }
}

/// The comment that gives the number of annotations: what it holds.
proof fn lemma_count_comment(n: nat)
    ensures
        ("# numAnnotations: "@ + decimal_nat(n)).len() > 0,
        ("# numAnnotations: "@ + decimal_nat(n))[0] == '#',
        all_of("# numAnnotations: "@ + decimal_nat(n), CharClass::Inline),
{
    reveal_strlit("# numAnnotations: ");
    lemma_decimal_is_inline(n);
}

/// A number written in decimal holds no carriage return and no line feed.
proof fn lemma_decimal_is_inline(n: nat)
    ensures
        all_of(decimal_nat(n), CharClass::Inline),
{
    lemma_decimal_nat_digits(n);
    assert forall|k: int| 0 <= k < decimal_nat(n).len() implies CharClass::Inline.holds(
        #[trigger] decimal_nat(n)[k],
    ) by {
        assert(is_digit(decimal_nat(n)[k]));
    }
}

/// The lines of tracks are empty or begin with the letter `t`: no blank
/// line and no annotation line stands at their front.
proof fn lemma_tracks_begin(all: Seq<AnnotationTrackView>)
    ensures
        render_tracks(all).len() > 0 ==> render_tracks(all)[0] == 't',
        blank_line(render_tracks(all)) is None,
        blank_lines_len(render_tracks(all)) == 0,
        annotation_line(render_tracks(all)) is None,
{
    lemma_keyword();
    let s = render_tracks(all);
    if all.len() > 0 {
        assert(s[0] == "trackName: "@[0]);
    }
    lemma_not_blank(s);
    lemma_not_annotation(s);
}

/// The lines of a track are read as the track, whatever follows, as long as
/// no blank line and no annotation line follows.
proof fn lemma_track_is_read(t: AnnotationTrackView, tail: Seq<char>)
    requires
        track_reads_back(t),
        blank_line(tail) is None,
        annotation_line(tail) is None,
    ensures
        track(render_track(t) + tail) == Some((t, render_track(t).len())),
{
    lemma_separators();
    lemma_keyword();
    let name = text_or_null(t.track_name);
    let count = "# numAnnotations: "@ + decimal_nat(t.annotations.len());
    let body = render_annotations(t.annotations) + seq!['\n'] + tail;
    let after_name = count + seq!['\n'] + body;
    let s = render_track(t) + tail;
    assert(s =~= "trackName: "@ + name + "\n"@ + after_name);
    assert(s[0] == 't');
    lemma_not_blank(s);
    assert(s.skip(0) =~= s);
    lemma_name_is_read(t.track_name, after_name);
    let n = 11 + name.len() + 1;
    assert(s.skip((0 + n) as int) =~= after_name);
    lemma_count_comment(t.annotations.len());
    lemma_comment_line(count, body);
    lemma_annotations_after_blank(after_name, count.len() + 1);
    assert(after_name.skip((count.len() + 1) as int) =~= body);
    lemma_annotations_are_read(t.annotations, tail);
    assert(render_track(t).len() == n + count.len() + 1 + render_annotations(t.annotations).len()
        + 1);
}

/// The lines of tracks are read as the tracks.
proof fn lemma_tracks_are_read(all: Seq<AnnotationTrackView>)
    requires
        tracks_read_back(all),
    ensures
        tracks(render_tracks(all)) == (all, render_tracks(all).len()),
    decreases all.len(),
{
    let s = render_tracks(all);
    if all.len() == 0 {
        reveal(track_name_line);
        lemma_not_blank(s);
        assert(s.skip(0) =~= s);
        assert(tracks(s).0 =~= all);
    } else {
        let first = all[0];
        let rest = all.drop_first();
        let after = render_tracks(rest);
        lemma_tracks_begin(rest);
        lemma_track_is_read(first, after);
        assert(s.skip(render_track(first).len() as int) =~= after);
        assert(tracks_read_back(rest)) by {
            assert forall|i: int| 0 <= i < rest.len() implies track_reads_back(#[trigger] rest[i]) by {
                assert(rest[i] == all[i + 1]);
            }
        }
        lemma_tracks_are_read(rest);
        assert(seq![first] + rest =~= all);
    }
}

/// Tracks that are written and then read are the same tracks.
///
/// This holds of tracks whose names and texts hold no carriage return and no
/// line feed, do not begin with a space or a tab and are not the null glyph
/// alone, and whose times are single words that are floating-point literals.
pub proof fn lemma_tracks_round_trip(all: Seq<AnnotationTrackView>)
    requires
        tracks_read_back(all),
    ensures
        document(render_tracks(all)) == Some(all),
{
    let s = render_tracks(all);
    lemma_tracks_are_read(all);
    let end = s.skip(s.len() as int);
    assert(end =~= Seq::<char>::empty());
    lemma_not_blank(end);
    assert(end.skip(0) =~= end);
    assert(s.skip((s.len() + 0) as int) =~= end);
}

/// A blank line before a document changes nothing of what the document
/// holds.
proof fn lemma_document_after_blank(s: Seq<char>, n: nat)
    requires
        blank_line(s) == Some(n),
    ensures
        document(s) == document(s.skip(n as int)),
{
    lemma_blank_line(s);
    let t = s.skip(n as int);
    lemma_track_after_blank(s, n);
    crate::grammar::lemma_track(t);
    match track(t) {
        Some((first, m)) => {
            assert(s.skip((n + m) as int) =~= t.skip(m as int));
            let consumed = tracks(t).1;
            crate::grammar::lemma_tracks(t);
            assert(tracks(s) == (tracks(t).0, n + consumed));
            assert(s.skip((n + consumed) as int) =~= t.skip(consumed as int));
            let b = blank_lines_len(t.skip(consumed as int));
            lemma_blank_lines_len(t.skip(consumed as int));
            assert(s.skip((n + consumed + b) as int) =~= t.skip((consumed + b) as int));
        },
        None => {
            assert(s.skip(0) =~= s);
            assert(t.skip(0) =~= t);
            let b = blank_lines_len(t);
            lemma_blank_lines_len(t);
            assert(blank_lines_len(s) == n + b);
            assert(s.skip((0 + (n + b)) as int) =~= t.skip((0 + b) as int));
        },
    }
}

/// A whole number written in decimal holds no carriage return and no line
/// feed.
proof fn lemma_decimal_int_is_inline(i: int)
    ensures
        all_of(decimal_int(i), CharClass::Inline),
{
    if i < 0 {
        lemma_decimal_is_inline((-i) as nat);
    } else {
        lemma_decimal_is_inline(i as nat);
    }
}

/// A comment line before a document changes nothing of what the document
/// holds.
proof fn lemma_document_after_comment(line: Seq<char>, rest: Seq<char>)
    requires
        line.len() > 0,
        line[0] == '#',
        all_of(line, CharClass::Inline),
    ensures
        document(line + seq!['\n'] + rest) == document(rest),
{
    let s = line + seq!['\n'] + rest;
    lemma_comment_line(line, rest);
    lemma_document_after_blank(s, line.len() + 1);
    assert(s.skip((line.len() + 1) as int) =~= rest);
}

/// An empty line before a document changes nothing of what the document
/// holds.
proof fn lemma_document_after_empty_line(rest: Seq<char>)
    ensures
        document(seq!['\n'] + rest) == document(rest),
{
    let s = seq!['\n'] + rest;
    lemma_empty_line(rest);
    lemma_document_after_blank(s, 1);
    assert(s.skip(1) =~= rest);
}

/// A comment made of a text that begins with `#` and of a text without a
/// carriage return or a line feed is a comment line.
proof fn lemma_comment(label: Seq<char>, value: Seq<char>)
    requires
        label.len() > 0,
        label[0] == '#',
        all_of(label, CharClass::Inline),
        all_of(value, CharClass::Inline),
    ensures
        (label + value).len() > 0,
        (label + value)[0] == '#',
        all_of(label + value, CharClass::Inline),
{
    let line = label + value;
    assert forall|k: int| 0 <= k < line.len() implies CharClass::Inline.holds(#[trigger] line[k]) by {
        if k < label.len() {
            assert(line[k] == label[k]);
        } else {
            assert(line[k] == value[k - label.len()]);
        }
    }
}

/// The labels of the comments that open a text begin with `#` and hold no
/// carriage return and no line feed.
proof fn lemma_labels()
    ensures
        "# numOriginalFrames: "@.len() > 0,
        "# numOriginalFrames: "@[0] == '#',
        all_of("# numOriginalFrames: "@, CharClass::Inline),
        "# duration: "@.len() > 0,
        "# duration: "@[0] == '#',
        all_of("# duration: "@, CharClass::Inline),
        "# numAnnotationTracks: "@.len() > 0,
        "# numAnnotationTracks: "@[0] == '#',
        all_of("# numAnnotationTracks: "@, CharClass::Inline),
{
    reveal_strlit("# numOriginalFrames: ");
    reveal_strlit("# duration: ");
    reveal_strlit("# numAnnotationTracks: ");
}

/// The text of a value is read as the tracks of the value.
///
/// This holds of values whose tracks are as [`lemma_tracks_round_trip`]
/// wants them and whose duration holds no carriage return and no line feed.
/// What the comments of the text say of frames, duration and counts is not
/// read.
pub proof fn lemma_text_round_trip(h: HkannoView)
    requires
        tracks_read_back(h.annotation_tracks),
        all_of(h.duration, CharClass::Inline),
    ensures
        document(render(h)) == Some(h.annotation_tracks),
{
    lemma_separators();
    lemma_labels();
    lemma_decimal_int_is_inline(h.num_original_frames as int);
    lemma_decimal_is_inline(h.annotation_tracks.len());
    let frames = "# numOriginalFrames: "@ + decimal_int(h.num_original_frames as int);
    let duration = "# duration: "@ + h.duration;
    let count = "# numAnnotationTracks: "@ + decimal_nat(h.annotation_tracks.len());
    lemma_comment("# numOriginalFrames: "@, decimal_int(h.num_original_frames as int));
    lemma_comment("# duration: "@, h.duration);
    lemma_comment("# numAnnotationTracks: "@, decimal_nat(h.annotation_tracks.len()));
    let body = render_tracks(h.annotation_tracks);
    let s3 = seq!['\n'] + body;
    let s2 = count + seq!['\n'] + s3;
    let s1 = duration + seq!['\n'] + s2;
    let s0 = frames + seq!['\n'] + s1;
    assert(render(h) =~= s0);
    lemma_document_after_comment(frames, s1);
    lemma_document_after_comment(duration, s2);
    lemma_document_after_comment(count, s3);
    lemma_document_after_empty_line(body);
    lemma_tracks_round_trip(h.annotation_tracks);
}

/// The null glyph, and nothing else, is read as an absent name or text.
///
/// A line that gives the null glyph as the name of a track gives no name,
/// and one that gives nothing after the colon gives the empty name. A line
/// that gives the null glyph as the text of an annotation gives no text, and
/// one that gives nothing after the space gives the empty text.
pub proof fn lemma_null_glyph_is_absence(time: Seq<char>, tail: Seq<char>)
    requires
        time_reads_back(time),
    ensures
        text_value(crate::model::null_text()) is None,
        forall|t: Seq<char>| t != crate::model::null_text() ==> #[trigger] text_value(t) == Some(t),
        track_name_line("trackName: "@ + crate::model::null_text() + "\n"@ + tail) == Some(
            (None::<Seq<char>>, 13nat),
        ),
        track_name_line("trackName: "@ + "\n"@ + tail) == Some((Some(Seq::<char>::empty()), 12nat)),
        annotation_line(time + " "@ + crate::model::null_text() + "\n"@ + tail) == Some(
            (AnnotationView { time, text: None }, time.len() + 3),
        ),
        annotation_line(time + " "@ + "\n"@ + tail) == Some(
            (AnnotationView { time, text: Some(Seq::empty()) }, time.len() + 2),
        ),
{
    lemma_separators();
    assert forall|t: Seq<char>| t != crate::model::null_text() implies #[trigger] text_value(t)
        == Some(t) by {
        if t.len() == 1 && t[0] == NULL_CHAR {
            assert(t =~= crate::model::null_text());
        }
    }
    lemma_name_is_read(None, tail);
    lemma_name_is_read(Some(Seq::empty()), tail);
    assert("trackName: "@ + "\n"@ + tail =~= "trackName: "@ + Seq::<char>::empty() + "\n"@ + tail);
    let absent = AnnotationView { time, text: None };
    let empty = AnnotationView { time, text: Some(Seq::empty()) };
    lemma_annotation_is_read(absent, tail);
    lemma_annotation_is_read(empty, tail);
    assert(time + " "@ + "\n"@ + tail =~= render_annotation(empty) + tail);
}

/// Whether a name or a text is read back as it is written.
pub fn text_reads_back(text: &str) -> (b: bool)
    ensures
        b == reads_back(text@),
{
    let chars = chars_of(text);
    if chars.len() == 1 && chars[0] == NULL_CHAR {
        return false;
    }
    if chars.len() > 0 && (chars[0] == ' ' || chars[0] == '\t') {
        return false;
    }
    all_in(&chars, CharClass::Inline)
}

/// Whether a name or a text, where there is one, is read back as it is
/// written.
pub fn optional_text_reads_back<'a>(text: &Option<Cow<'a, str>>) -> (b: bool)
    ensures
        b == optional_reads_back(text_view(*text)),
{
    match text {
        Some(t) => text_reads_back(text_str(t)),
        None => true,
    }
}

/// Whether a time is read back as it is written.
pub fn time_is_read_back(time: &str) -> (b: bool)
    ensures
        b == time_reads_back(time@),
{
    let chars = chars_of(time);
    if !all_in(&chars, CharClass::Solid) {
        return false;
    }
    word_is_float(time)
}

impl<'a> Annotation<'a> {
    /// Whether the annotation is read back as it is written.
    pub fn reads_back(&self) -> (b: bool)
        ensures
            b == annotation_reads_back(self@),
    {
        time_is_read_back(text_str(&self.time)) && optional_text_reads_back(&self.text)
    }
}

impl<'a> AnnotationTrack<'a> {
    /// Whether the track is read back as it is written.
    pub fn reads_back(&self) -> (b: bool)
        ensures
            b == track_reads_back(self@),
    {
        if !optional_text_reads_back(&self.track_name) {
            return false;
        }
        let mut i: usize = 0;
        while i < self.annotations.len()
            invariant
                i <= self.annotations.len(),
                forall|k: int| 0 <= k < i ==> annotation_reads_back(#[trigger] self@.annotations[k]),
            decreases self.annotations.len() - i,
        {
            if !self.annotations[i].reads_back() {
                assert(self@.annotations[i as int] == self.annotations@[i as int]@);
                return false;
            }
            assert(self@.annotations[i as int] == self.annotations@[i as int]@);
            i += 1;
        }
        true
    }
}

impl<'a> Hkanno<'a> {
    /// Whether the text of this value is certain to be read back as the
    /// tracks of this value: whether its names, texts and times can stand on
    /// a line of their own, and its duration in a comment.
    pub fn reads_back(&self) -> (b: bool)
        ensures
            b == (tracks_read_back(self@.annotation_tracks) && all_of(
                self@.duration,
                CharClass::Inline,
            )),
            b ==> document(render(self@)) == Some(self@.annotation_tracks),
            b ==> document(render_tracks(self@.annotation_tracks)) == Some(self@.annotation_tracks),
    {
        let duration = chars_of(text_str(&self.duration));
        if !all_in(&duration, CharClass::Inline) {
            return false;
        }
        let mut i: usize = 0;
        while i < self.annotation_tracks.len()
            invariant
                i <= self.annotation_tracks.len(),
                forall|k: int| 0 <= k < i ==> track_reads_back(#[trigger] self@.annotation_tracks[k]),
            decreases self.annotation_tracks.len() - i,
        {
            if !self.annotation_tracks[i].reads_back() {
                assert(self@.annotation_tracks[i as int] == self.annotation_tracks@[i as int]@);
                return false;
            }
            assert(self@.annotation_tracks[i as int] == self.annotation_tracks@[i as int]@);
            i += 1;
        }
        proof {
            lemma_text_round_trip(self@);
            lemma_tracks_round_trip(self@.annotation_tracks);
        }
        true
    }
}

} // verus!
