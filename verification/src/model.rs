//! The annotation data of one animation: tracks of timed text events.
//!
//! Names and texts are optional. An absent one is not an empty one: in the
//! text notation it is written as the glyph [`NULL_STR`].
//!
//! Times and durations are held as decimal text, the form in which the text
//! notation carries them. Turning such a text into a binary number, and a
//! binary number into such a text, is left to the caller.

use std::borrow::Cow;
use vstd::prelude::*;

verus! {

/// The text that stands for an absent name or text in the text notation.
pub const NULL_STR: &'static str = "\u{2400}";

/// The one character of [`NULL_STR`].
pub const NULL_CHAR: char = '\u{2400}';

/// The characters of [`NULL_STR`].
pub open spec fn null_text() -> Seq<char> {
    seq![NULL_CHAR]
}

/// [`NULL_STR`] holds [`NULL_CHAR`] and nothing else.
pub proof fn lemma_null_str()
    ensures
        NULL_STR@ == null_text(),
{
    reveal_strlit("\u{2400}");
    assert(NULL_STR@ =~= null_text());
}

/// A single timed event of a track.
#[derive(Debug)]
pub struct Annotation<'a> {
    /// The time in seconds at which the event occurs, as decimal text.
    pub time: Cow<'a, str>,
    /// The text of the event, typically the name of a signal.
    pub text: Option<Cow<'a, str>>,
}

/// A named or anonymous track: events in the order in which they were given.
#[derive(Debug)]
pub struct AnnotationTrack<'a> {
    /// The name of the track.
    pub track_name: Option<Cow<'a, str>>,
    /// The events of the track. The order is kept; it need not be by time.
    pub annotations: Vec<Annotation<'a>>,
}

/// The annotation data of one animation.
#[derive(Debug)]
pub struct Hkanno<'a> {
    /// The index of the animation among the objects it was taken from.
    pub ptr: usize,
    /// The number of frames of the animation. For display only.
    pub num_original_frames: i32,
    /// The duration of the animation in seconds, as decimal text. For display
    /// only.
    pub duration: Cow<'a, str>,
    /// The tracks, in the order in which they were given.
    pub annotation_tracks: Vec<AnnotationTrack<'a>>,
}

/// What an [`Annotation`] holds.
pub struct AnnotationView {
    pub time: Seq<char>,
    pub text: Option<Seq<char>>,
}

/// What an [`AnnotationTrack`] holds.
pub struct AnnotationTrackView {
    pub track_name: Option<Seq<char>>,
    pub annotations: Seq<AnnotationView>,
}

/// What an [`Hkanno`] holds.
pub struct HkannoView {
    pub ptr: usize,
    pub num_original_frames: i32,
    pub duration: Seq<char>,
    pub annotation_tracks: Seq<AnnotationTrackView>,
}

/// The characters of an optional text.
pub open spec fn text_view<'a>(text: Option<Cow<'a, str>>) -> Option<Seq<char>> {
    match text {
        Some(t) => Some(t@),
        None => None,
    }
}

/// Whether an optional text, where there is one, owns its characters.
pub open spec fn text_is_owned<'a>(text: Option<Cow<'a, str>>) -> bool {
    match text {
        Some(t) => t is Owned,
        None => true,
    }
}

/// What each of the annotations holds, in order.
pub open spec fn annotations_view<'a>(annotations: Seq<Annotation<'a>>) -> Seq<AnnotationView> {
    Seq::new(annotations.len(), |i: int| annotations[i]@)
}

/// What each of the tracks holds, in order.
pub open spec fn tracks_view<'a>(tracks: Seq<AnnotationTrack<'a>>) -> Seq<AnnotationTrackView> {
    Seq::new(tracks.len(), |i: int| tracks[i]@)
}

impl<'a> View for Annotation<'a> {
    type V = AnnotationView;

    open spec fn view(&self) -> AnnotationView {
        AnnotationView { time: self.time@, text: text_view(self.text) }
    }
}

impl<'a> View for AnnotationTrack<'a> {
    type V = AnnotationTrackView;

    open spec fn view(&self) -> AnnotationTrackView {
        AnnotationTrackView {
            track_name: text_view(self.track_name),
            annotations: annotations_view(self.annotations@),
        }
    }
}

impl<'a> View for Hkanno<'a> {
    type V = HkannoView;

    open spec fn view(&self) -> HkannoView {
        HkannoView {
            ptr: self.ptr,
            num_original_frames: self.num_original_frames,
            duration: self.duration@,
            annotation_tracks: tracks_view(self.annotation_tracks@),
        }
    }
}

/// The characters of a text, borrowed from it or from what it borrows.
pub fn text_str<'b, 'a>(text: &'b Cow<'a, str>) -> (s: &'b str)
    ensures
        s@ == text@,
{
    match text {
        Cow::Borrowed(b) => b,
        Cow::Owned(o) => o.as_str(),
    }
}

/// A copy of a text that borrows what the text borrows.
pub fn clone_text<'a>(text: &Cow<'a, str>) -> (r: Cow<'a, str>)
    ensures
        r@ == text@,
{
    match text {
        Cow::Borrowed(b) => Cow::Borrowed(b),
        Cow::Owned(o) => Cow::Owned(o.clone()),
    }
}

/// A copy of an optional text that borrows what the text borrows.
pub fn clone_optional_text<'a>(text: &Option<Cow<'a, str>>) -> (r: Option<Cow<'a, str>>)
    ensures
        text_view(r) == text_view(*text),
{
    match text {
        Some(t) => Some(clone_text(t)),
        None => None,
    }
}

/// A copy of a text that borrows from nothing.
pub fn owned_text<'a>(text: &Cow<'a, str>) -> (r: Cow<'static, str>)
    ensures
        r@ == text@,
        r is Owned,
{
    Cow::Owned(text_str(text).to_owned())
}

/// A copy of an optional text that borrows from nothing.
pub fn owned_optional_text<'a>(text: &Option<Cow<'a, str>>) -> (r: Option<Cow<'static, str>>)
    ensures
        text_view(r) == text_view(*text),
        text_is_owned(r),
{
    match text {
        Some(t) => Some(owned_text(t)),
        None => None,
    }
}

impl<'a> Clone for Annotation<'a> {
    fn clone(&self) -> (r: Self)
        ensures
            r@ == self@,
    {
        Annotation { time: clone_text(&self.time), text: clone_optional_text(&self.text) }
    }
}

impl<'a> Clone for AnnotationTrack<'a> {
    fn clone(&self) -> (r: Self)
        ensures
            r@ == self@,
    {
        let mut annotations: Vec<Annotation<'a>> = Vec::new();
        let mut i: usize = 0;
        while i < self.annotations.len()
            invariant
                i <= self.annotations.len(),
                annotations.len() == i,
                forall|k: int| 0 <= k < i ==> (#[trigger] annotations@[k])@ == self.annotations@[k]@,
            decreases self.annotations.len() - i,
        {
            annotations.push(self.annotations[i].clone());
            i += 1;
        }
        assert(annotations_view(annotations@) =~= annotations_view(self.annotations@));
        AnnotationTrack { track_name: clone_optional_text(&self.track_name), annotations }
    }
}

impl<'a> Clone for Hkanno<'a> {
    fn clone(&self) -> (r: Self)
        ensures
            r@ == self@,
    {
        let mut tracks: Vec<AnnotationTrack<'a>> = Vec::new();
        let mut i: usize = 0;
        while i < self.annotation_tracks.len()
            invariant
                i <= self.annotation_tracks.len(),
                tracks.len() == i,
                forall|k: int| 0 <= k < i ==> (#[trigger] tracks@[k])@ == self.annotation_tracks@[k]@,
            decreases self.annotation_tracks.len() - i,
        {
            tracks.push(self.annotation_tracks[i].clone());
            i += 1;
        }
        assert(tracks_view(tracks@) =~= tracks_view(self.annotation_tracks@));
        Hkanno {
            ptr: self.ptr,
            num_original_frames: self.num_original_frames,
            duration: clone_text(&self.duration),
            annotation_tracks: tracks,
        }
    }
}

impl<'a> Annotation<'a> {
    /// Whether the annotation borrows from nothing.
    pub open spec fn is_owned(&self) -> bool {
        self.time is Owned && text_is_owned(self.text)
    }

    /// A copy of the annotation that borrows from nothing.
    pub fn into_static(&self) -> (r: Annotation<'static>)
        ensures
            r@ == self@,
            r.is_owned(),
    {
        Annotation { time: owned_text(&self.time), text: owned_optional_text(&self.text) }
    }
}

impl<'a> AnnotationTrack<'a> {
    /// Whether the track borrows from nothing.
    pub open spec fn is_owned(&self) -> bool {
        &&& text_is_owned(self.track_name)
        &&& forall|i: int| 0 <= i < self.annotations@.len() ==> (#[trigger] self.annotations@[i]).is_owned()
    }

    /// A copy of the track that borrows from nothing.
    pub fn into_static(&self) -> (r: AnnotationTrack<'static>)
        ensures
            r@ == self@,
            r.is_owned(),
    {
        let mut annotations: Vec<Annotation<'static>> = Vec::new();
        let mut i: usize = 0;
        while i < self.annotations.len()
            invariant
                i <= self.annotations.len(),
                annotations.len() == i,
                forall|k: int| 0 <= k < i ==> (#[trigger] annotations@[k])@ == self.annotations@[k]@,
                forall|k: int| 0 <= k < i ==> (#[trigger] annotations@[k]).is_owned(),
            decreases self.annotations.len() - i,
        {
            annotations.push(self.annotations[i].into_static());
            i += 1;
        }
        assert(annotations_view(annotations@) =~= annotations_view(self.annotations@));
        AnnotationTrack { track_name: owned_optional_text(&self.track_name), annotations }
    }
}

impl<'a> Hkanno<'a> {
    /// Whether the value borrows from nothing.
    pub open spec fn is_owned(&self) -> bool {
        &&& self.duration is Owned
        &&& forall|i: int| 0 <= i < self.annotation_tracks@.len() ==> (#[trigger] self.annotation_tracks@[i]).is_owned()
    }

    /// Turns a value that may borrow from the text it was read from into one
    /// that holds the same data and borrows from nothing.
    pub fn into_static(self) -> (r: Hkanno<'static>)
        ensures
            r@ == self@,
            r.is_owned(),
    {
        let mut tracks: Vec<AnnotationTrack<'static>> = Vec::new();
        let mut i: usize = 0;
        while i < self.annotation_tracks.len()
            invariant
                i <= self.annotation_tracks.len(),
                tracks.len() == i,
                forall|k: int| 0 <= k < i ==> (#[trigger] tracks@[k])@ == self.annotation_tracks@[k]@,
                forall|k: int| 0 <= k < i ==> (#[trigger] tracks@[k]).is_owned(),
            decreases self.annotation_tracks.len() - i,
        {
            tracks.push(self.annotation_tracks[i].into_static());
            i += 1;
        }
        assert(tracks_view(tracks@) =~= tracks_view(self.annotation_tracks@));
        Hkanno {
            ptr: self.ptr,
            num_original_frames: self.num_original_frames,
            duration: owned_text(&self.duration),
            annotation_tracks: tracks,
        }
    }
}

} // verus!
