//! The objects of one animation file, and the way annotations are taken from
//! them and put back.
//!
//! A file holds many objects of many classes. One of them is expected to be
//! an animation, of one of six classes that keep their duration and their
//! tracks in different places. Nothing here reads or writes a file.

use crate::error::HkannoError;
use crate::model::{AnnotationTrack, Hkanno};
use std::borrow::Cow;
use vstd::prelude::*;

verus! {

/// What all animations have: the base class of the other five.
#[derive(Debug)]
pub struct HkaAnimation<'a> {
    /// The duration in seconds, as decimal text.
    pub duration: Cow<'a, str>,
    /// The number of frames that the duration makes at 30 frames a second,
    /// cut to a whole number.
    pub frames_at_30_fps: i32,
    /// The annotation tracks.
    pub annotation_tracks: Vec<AnnotationTrack<'a>>,
}

/// One object of a file, by its class.
#[derive(Debug)]
pub enum Class<'a> {
    HkaAnimation(HkaAnimation<'a>),
    HkaDeltaCompressedAnimation { parent: HkaAnimation<'a> },
    HkaInterleavedUncompressedAnimation { parent: HkaAnimation<'a> },
    HkaQuantizedAnimation { parent: HkaAnimation<'a> },
    HkaSplineCompressedAnimation { num_frames: i32, parent: HkaAnimation<'a> },
    HkaWaveletCompressedAnimation { parent: HkaAnimation<'a> },
    /// An object of any other class.
    Other,
}

/// An object with the index under which the file knows it.
#[derive(Debug)]
pub struct ClassEntry<'a> {
    pub ptr: usize,
    pub class: Class<'a>,
}

/// The objects of one file, in the order of the file.
#[derive(Debug)]
pub struct ClassMap<'a> {
    pub classes: Vec<ClassEntry<'a>>,
}

impl<'a> Class<'a> {
    /// What the object has as an animation, if it is one.
    pub open spec fn animation(&self) -> Option<HkaAnimation<'a>> {
        match self {
            Class::HkaAnimation(a) => Some(*a),
            Class::HkaDeltaCompressedAnimation { parent } => Some(*parent),
            Class::HkaInterleavedUncompressedAnimation { parent } => Some(*parent),
            Class::HkaQuantizedAnimation { parent } => Some(*parent),
            Class::HkaSplineCompressedAnimation { parent, .. } => Some(*parent),
            Class::HkaWaveletCompressedAnimation { parent } => Some(*parent),
            Class::Other => None,
        }
    }

    /// The number of frames, where the class keeps one.
    pub open spec fn num_frames(&self) -> Option<i32> {
        match self {
            Class::HkaSplineCompressedAnimation { num_frames, .. } => Some(*num_frames),
            _ => None,
        }
    }

    /// The number of frames of an animation: the one that its class keeps,
    /// or else the one that its duration makes at 30 frames a second.
    pub open spec fn frames(&self) -> i32 {
        match self.num_frames() {
            Some(n) => n,
            None => self.animation().unwrap().frames_at_30_fps,
        }
    }

    /// The same object with other annotation tracks, if it is an animation;
    /// the same object, if it is none.
    pub open spec fn with_tracks(&self, tracks: Vec<AnnotationTrack<'a>>) -> Class<'a> {
        match self {
            Class::HkaAnimation(a) => Class::HkaAnimation(
                HkaAnimation {
                    duration: a.duration,
                    frames_at_30_fps: a.frames_at_30_fps,
                    annotation_tracks: tracks,
                },
            ),
            Class::HkaDeltaCompressedAnimation { parent } => Class::HkaDeltaCompressedAnimation {
                parent: HkaAnimation {
                    duration: parent.duration,
                    frames_at_30_fps: parent.frames_at_30_fps,
                    annotation_tracks: tracks,
                },
            },
            Class::HkaInterleavedUncompressedAnimation {
                parent,
            } => Class::HkaInterleavedUncompressedAnimation {
                parent: HkaAnimation {
                    duration: parent.duration,
                    frames_at_30_fps: parent.frames_at_30_fps,
                    annotation_tracks: tracks,
                },
            },
            Class::HkaQuantizedAnimation { parent } => Class::HkaQuantizedAnimation {
                parent: HkaAnimation {
                    duration: parent.duration,
                    frames_at_30_fps: parent.frames_at_30_fps,
                    annotation_tracks: tracks,
                },
            },
            Class::HkaSplineCompressedAnimation {
                num_frames,
                parent,
            } => Class::HkaSplineCompressedAnimation {
                num_frames: *num_frames,
                parent: HkaAnimation {
                    duration: parent.duration,
                    frames_at_30_fps: parent.frames_at_30_fps,
                    annotation_tracks: tracks,
                },
            },
            Class::HkaWaveletCompressedAnimation { parent } => Class::HkaWaveletCompressedAnimation {
                parent: HkaAnimation {
                    duration: parent.duration,
                    frames_at_30_fps: parent.frames_at_30_fps,
                    annotation_tracks: tracks,
                },
            },
            Class::Other => Class::Other,
        }
    }

    /// Takes the object apart: the number of frames that its class keeps, if
    /// it keeps one, and what it has as an animation. Nothing, if it is no
    /// animation.
    pub fn into_animation(self) -> (r: Option<(Option<i32>, HkaAnimation<'a>)>)
        ensures
            match r {
                Some((n, a)) => self.animation() == Some(a) && self.num_frames() == n,
                None => self.animation() is None,
            },
    {
        match self {
            Class::HkaAnimation(a) => Some((None, a)),
            Class::HkaDeltaCompressedAnimation { parent } => Some((None, parent)),
            Class::HkaInterleavedUncompressedAnimation { parent } => Some((None, parent)),
            Class::HkaQuantizedAnimation { parent } => Some((None, parent)),
            Class::HkaSplineCompressedAnimation { num_frames, parent } => Some(
                (Some(num_frames), parent),
            ),
            Class::HkaWaveletCompressedAnimation { parent } => Some((None, parent)),
            Class::Other => None,
        }
    }

    /// Gives an animation other annotation tracks, and leaves everything else
    /// of it as it is. An object that is no animation stays as it is.
    pub fn set_annotation_tracks(&mut self, tracks: Vec<AnnotationTrack<'a>>)
        ensures
            *final(self) == old(self).with_tracks(tracks),
    {
        match self {
            Class::HkaAnimation(a) => {
                a.annotation_tracks = tracks;
            },
            Class::HkaDeltaCompressedAnimation { parent } => {
                parent.annotation_tracks = tracks;
            },
            Class::HkaInterleavedUncompressedAnimation { parent } => {
                parent.annotation_tracks = tracks;
            },
            Class::HkaQuantizedAnimation { parent } => {
                parent.annotation_tracks = tracks;
            },
            Class::HkaSplineCompressedAnimation { parent, .. } => {
                parent.annotation_tracks = tracks;
            },
            Class::HkaWaveletCompressedAnimation { parent } => {
                parent.annotation_tracks = tracks;
            },
            Class::Other => {},
        }
    }
}

impl<'a> ClassEntry<'a> {
    /// The annotations of an animation: its index, its number of frames, its
    /// duration and its tracks.
    pub open spec fn hkanno(&self) -> Hkanno<'a> {
        Hkanno {
            ptr: self.ptr,
            num_original_frames: self.class.frames(),
            duration: self.class.animation().unwrap().duration,
            annotation_tracks: self.class.animation().unwrap().annotation_tracks,
        }
    }
}

/// Whether the object is an animation: of the base class or of one of the
/// five classes derived from it.
pub fn is_hka_animation_derived(class: &Class<'_>) -> (b: bool)
    ensures
        b == class.animation().is_some(),
{
    match class {
        Class::HkaAnimation(_) => true,
        Class::HkaDeltaCompressedAnimation { .. } => true,
        Class::HkaInterleavedUncompressedAnimation { .. } => true,
        Class::HkaQuantizedAnimation { .. } => true,
        Class::HkaSplineCompressedAnimation { .. } => true,
        Class::HkaWaveletCompressedAnimation { .. } => true,
        Class::Other => false,
    }
}

/// How many of the objects are animations.
pub open spec fn animation_count(classes: Seq<ClassEntry<'_>>) -> nat
    decreases classes.len(),
{
    if classes.len() == 0 {
        0
    } else if classes.last().class.animation().is_some() {
        animation_count(classes.drop_last()) + 1
    } else {
        animation_count(classes.drop_last())
    }
}

/// The place of the first animation among the objects; their number, where
/// none is an animation.
pub open spec fn first_animation(classes: Seq<ClassEntry<'_>>) -> int
    decreases classes.len(),
{
    if classes.len() == 0 || classes[0].class.animation().is_some() {
        0
    } else {
        1 + first_animation(classes.drop_first())
    }
}

/// An animation before which no animation stands is the first one.
pub proof fn lemma_first_animation(classes: Seq<ClassEntry<'_>>, i: int)
    requires
        0 <= i < classes.len(),
        classes[i].class.animation().is_some(),
        forall|k: int| 0 <= k < i ==> (#[trigger] classes[k]).class.animation() is None,
    ensures
        first_animation(classes) == i,
    decreases i,
{
    if i > 0 {
        assert(classes[0].class.animation() is None);
        let rest = classes.drop_first();
        assert forall|k: int| 0 <= k < i - 1 implies (#[trigger] rest[k]).class.animation() is None by {
            assert(rest[k] == classes[k + 1]);
        }
        lemma_first_animation(rest, i - 1);
    }
}

/// Finds the one animation among the objects.
///
/// It is found where exactly one object is an animation, whichever of the
/// six classes it has. Where none is, it is said to be missing; where several
/// are, their number is reported. Nothing is ever chosen among several.
pub fn select_animation(classes: &Vec<ClassEntry<'_>>) -> (r: Result<usize, HkannoError>)
    ensures
        match r {
            Ok(i) => {
                &&& animation_count(classes@) == 1
                &&& i == first_animation(classes@)
                &&& i < classes@.len()
                &&& classes@[i as int].class.animation().is_some()
            },
            Err(HkannoError::MissingHkaAnimationClass) => animation_count(classes@) == 0,
            Err(HkannoError::MultipleHkaAnimationFound { count }) => animation_count(classes@) >= 2
                && count == animation_count(classes@),
            Err(_) => false,
        },
{
    let mut count: usize = 0;
    let mut first: usize = 0;
    let mut i: usize = 0;
    while i < classes.len()
        invariant
            i <= classes.len(),
            count <= i,
            count == animation_count(classes@.take(i as int)),
            count == 0 ==> forall|k: int|
                0 <= k < i ==> (#[trigger] classes@[k]).class.animation() is None,
            count > 0 ==> first < i && classes@[first as int].class.animation().is_some()
                && forall|k: int|
                0 <= k < first ==> (#[trigger] classes@[k]).class.animation() is None,
        decreases classes.len() - i,
    {
        proof {
            assert(classes@.take(i + 1).drop_last() =~= classes@.take(i as int));
            assert(classes@.take(i + 1).last() == classes@[i as int]);
        }
        if is_hka_animation_derived(&classes[i].class) {
            if count == 0 {
                first = i;
            }
            count += 1;
        }
        i += 1;
    }
    proof {
        assert(classes@.take(i as int) =~= classes@);
    }
    if count == 0 {
        Err(HkannoError::MissingHkaAnimationClass)
    } else if count == 1 {
        proof {
            lemma_first_animation(classes@, first as int);
        }
        Ok(first)
    } else {
        Err(HkannoError::MultipleHkaAnimationFound { count })
    }
}

/// Takes the annotations of the one animation among the objects.
///
/// The value holds the index of the animation, its duration and its tracks
/// as they stand, and as its number of frames the one that the class of the
/// animation keeps, or else the one that the duration makes at 30 frames a
/// second. Where not exactly one object is an animation, the failure of
/// [`select_animation`] is returned.
pub fn parse_hkanno_borrowed<'a>(class_map: ClassMap<'a>) -> (r: Result<Hkanno<'a>, HkannoError>)
    ensures
        match r {
            Ok(h) => {
                let entry = class_map.classes@[first_animation(class_map.classes@)];
                &&& animation_count(class_map.classes@) == 1
                &&& entry.class.animation().is_some()
                &&& h == entry.hkanno()
            },
            Err(HkannoError::MissingHkaAnimationClass) => animation_count(class_map.classes@) == 0,
            Err(HkannoError::MultipleHkaAnimationFound { count }) => animation_count(
                class_map.classes@,
            ) >= 2 && count == animation_count(class_map.classes@),
            Err(_) => false,
        },
{
    let mut classes = class_map.classes;
    let i = match select_animation(&classes) {
        Ok(i) => i,
        Err(e) => {
            return Err(e);
        },
    };
    let entry = classes.remove(i);
    let ptr = entry.ptr;
    match entry.class.into_animation() {
        Some((num_frames, animation)) => {
            let num_original_frames = match num_frames {
                Some(n) => n,
                None => animation.frames_at_30_fps,
            };
            Ok(
                Hkanno {
                    ptr,
                    num_original_frames,
                    duration: animation.duration,
                    annotation_tracks: animation.annotation_tracks,
                },
            )
        },
        None => Err(HkannoError::MissingHkaAnimationClass),
    }
}

impl<'a> Hkanno<'a> {
    /// Puts the tracks of this value in the place of the tracks of the one
    /// animation among the objects.
    ///
    /// Only the tracks are written. The duration and the number of frames of
    /// this value may come from a text that somebody edited, so they are not
    /// trusted, and the animation keeps its own. Every other object stays as
    /// it is. Where not exactly one object is an animation, the failure of
    /// [`select_animation`] is returned and nothing is changed.
    pub fn write_to_classmap(self, class_map: &mut ClassMap<'a>) -> (r: Result<(), HkannoError>)
        ensures
            final(class_map).classes@.len() == old(class_map).classes@.len(),
            match r {
                Ok(()) => {
                    let i = first_animation(old(class_map).classes@);
                    let before = old(class_map).classes@[i];
                    let after = final(class_map).classes@[i];
                    &&& animation_count(old(class_map).classes@) == 1
                    &&& before.class.animation().is_some()
                    &&& final(class_map).classes@ == old(class_map).classes@.update(
                        i,
                        ClassEntry {
                            ptr: before.ptr,
                            class: before.class.with_tracks(self.annotation_tracks),
                        },
                    )
                    &&& after.class.animation().unwrap().annotation_tracks == self.annotation_tracks
                    &&& after.class.animation().unwrap().duration
                        == before.class.animation().unwrap().duration
                    &&& after.class.animation().unwrap().frames_at_30_fps
                        == before.class.animation().unwrap().frames_at_30_fps
                    &&& after.class.num_frames() == before.class.num_frames()
                },
                Err(HkannoError::MissingHkaAnimationClass) => {
                    &&& animation_count(old(class_map).classes@) == 0
                    &&& *final(class_map) == *old(class_map)
                },
                Err(HkannoError::MultipleHkaAnimationFound { count }) => {
                    &&& animation_count(old(class_map).classes@) >= 2
                    &&& count == animation_count(old(class_map).classes@)
                    &&& *final(class_map) == *old(class_map)
                },
                Err(_) => false,
            },
    {
        let i = match select_animation(&class_map.classes) {
            Ok(i) => i,
            Err(e) => {
                return Err(e);
            },
        };
        class_map.classes[i].class.set_annotation_tracks(self.annotation_tracks);
        assert(final(class_map).classes@ =~= old(class_map).classes@.update(
            i as int,
            ClassEntry {
                ptr: old(class_map).classes@[i as int].ptr,
                class: old(class_map).classes@[i as int].class.with_tracks(self.annotation_tracks),
            },
        ));
        Ok(())
    }
}

} // verus!
