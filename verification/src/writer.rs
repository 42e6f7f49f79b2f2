//! Writing the text notation.
//!
//! ```text
//! # numOriginalFrames: <frames>
//! # duration: <duration>
//! # numAnnotationTracks: <count>
//!
//! trackName: <name>
//! # numAnnotations: <count>
//! <time> <text>
//!
//! ```
//!
//! with the last four lines once for each track and the line before the last
//! once for each of its annotations. Every line ends in a line feed. An
//! absent name or text is written as the null glyph.

use crate::decimal::{decimal_int, decimal_nat, push_decimal, push_decimal_int};
use crate::model::{
    null_text, text_str, Annotation, AnnotationTrack, AnnotationTrackView, AnnotationView, Hkanno,
    HkannoView, NULL_STR,
};
use std::borrow::Cow;
use vstd::prelude::*;

verus! {

/// How a name or a text is written: as itself, or as the null glyph where
/// there is none.
pub open spec fn text_or_null(text: Option<Seq<char>>) -> Seq<char> {
    match text {
        Some(t) => t,
        None => null_text(),
    }
}

/// The line of one annotation.
pub open spec fn render_annotation(a: AnnotationView) -> Seq<char> {
    a.time + " "@ + text_or_null(a.text) + "\n"@
}

/// The lines of the annotations, in order.
pub open spec fn render_annotations(annotations: Seq<AnnotationView>) -> Seq<char>
    decreases annotations.len(),
{
    if annotations.len() == 0 {
        Seq::empty()
    } else {
        render_annotation(annotations[0]) + render_annotations(annotations.drop_first())
    }
}

/// The two lines that open a track.
pub open spec fn render_track_head(t: AnnotationTrackView) -> Seq<char> {
    "trackName: "@ + text_or_null(t.track_name) + "\n"@ + "# numAnnotations: "@ + decimal_nat(
        t.annotations.len(),
    ) + "\n"@
}

/// The lines of one track, with the empty line that closes it.
pub open spec fn render_track(t: AnnotationTrackView) -> Seq<char> {
    render_track_head(t) + render_annotations(t.annotations) + "\n"@
}

/// The lines of the tracks, in order.
pub open spec fn render_tracks(tracks: Seq<AnnotationTrackView>) -> Seq<char>
    decreases tracks.len(),
{
    if tracks.len() == 0 {
        Seq::empty()
    } else {
        render_track(tracks[0]) + render_tracks(tracks.drop_first())
    }
}

/// The three comment lines and the empty line that open the text.
pub open spec fn render_header(h: HkannoView) -> Seq<char> {
    "# numOriginalFrames: "@ + decimal_int(h.num_original_frames as int) + "\n"@ + "# duration: "@
        + h.duration + "\n"@ + "# numAnnotationTracks: "@ + decimal_nat(h.annotation_tracks.len())
        + "\n"@ + "\n"@
}

/// The whole text.
pub open spec fn render(h: HkannoView) -> Seq<char> {
    render_header(h) + render_tracks(h.annotation_tracks)
}

/// Appends a name or a text, or the null glyph where there is none.
fn push_text_or_null<'a>(out: &mut String, text: &Option<Cow<'a, str>>)
    ensures
        final(out)@ == old(out)@ + text_or_null(crate::model::text_view(*text)),
{
    proof {
        crate::model::lemma_null_str();
    }
    match text {
        Some(t) => out.append(text_str(t)),
        None => out.append(NULL_STR),
    }
}

impl<'a> Annotation<'a> {
    /// Appends the line of the annotation.
    pub fn write_to(&self, out: &mut String)
        ensures
            final(out)@ == old(out)@ + render_annotation(self@),
    {
        out.append(text_str(&self.time));
        out.append(" ");
        push_text_or_null(out, &self.text);
        out.append("\n");
        assert(final(out)@ =~= old(out)@ + render_annotation(self@));
    }
}

impl<'a> AnnotationTrack<'a> {
    /// Appends the lines of the track.
    pub fn write_to(&self, out: &mut String)
        ensures
            final(out)@ == old(out)@ + render_track(self@),
    {
        out.append("trackName: ");
        push_text_or_null(out, &self.track_name);
        out.append("\n");
        out.append("# numAnnotations: ");
        push_decimal(out, self.annotations.len() as u64);
        out.append("\n");
        assert(out@ =~= old(out)@ + render_track_head(self@));
        let ghost all = self@.annotations;
        assert(all.skip(0) =~= all);
        let mut i: usize = 0;
        while i < self.annotations.len()
            invariant
                i <= self.annotations.len(),
                all == self@.annotations,
                out@ + render_annotations(all.skip(i as int)) == old(out)@ + render_track_head(
                    self@,
                ) + render_annotations(all),
            decreases self.annotations.len() - i,
        {
            let ghost before = out@;
            let ghost rest = all.skip(i as int);
            self.annotations[i].write_to(out);
            proof {
                assert(rest[0] == self.annotations@[i as int]@);
                assert(rest.drop_first() =~= all.skip(i + 1));
                assert(before + render_annotations(rest) =~= out@ + render_annotations(
                    all.skip(i + 1),
                ));
            }
            i += 1;
        }
        out.append("\n");
        proof {
            assert(all.skip(i as int).len() == 0);
            assert(final(out)@ =~= old(out)@ + render_track(self@));
        }
    }
}

impl<'a> Hkanno<'a> {
    /// The text of the value: what is shown to whoever edits the
    /// annotations.
    pub fn to_string(&self) -> (s: String)
        ensures
            s@ == render(self@),
    {
        let mut out = String::new();
        out.append("# numOriginalFrames: ");
        push_decimal_int(&mut out, self.num_original_frames);
        out.append("\n");
        out.append("# duration: ");
        out.append(text_str(&self.duration));
        out.append("\n");
        out.append("# numAnnotationTracks: ");
        push_decimal(&mut out, self.annotation_tracks.len() as u64);
        out.append("\n");
        out.append("\n");
        assert(out@ =~= render_header(self@));
        let ghost all = self@.annotation_tracks;
        assert(all.skip(0) =~= all);
        let mut i: usize = 0;
        while i < self.annotation_tracks.len()
            invariant
                i <= self.annotation_tracks.len(),
                all == self@.annotation_tracks,
                out@ + render_tracks(all.skip(i as int)) == render(self@),
            decreases self.annotation_tracks.len() - i,
        {
            let ghost before = out@;
            let ghost rest = all.skip(i as int);
            self.annotation_tracks[i].write_to(&mut out);
            proof {
                assert(rest[0] == self.annotation_tracks@[i as int]@);
                assert(rest.drop_first() =~= all.skip(i + 1));
                assert(before + render_tracks(rest) =~= out@ + render_tracks(all.skip(i + 1)));
            }
            i += 1;
        }
        proof {
            assert(all.skip(i as int).len() == 0);
            assert(out@ =~= render(self@));
        }
        out
    }
}

} // verus!
