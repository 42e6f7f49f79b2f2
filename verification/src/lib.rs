//! Annotations of animation files as editable text.
//!
//! An animation file holds tracks of timed text events. This library shows
//! them as text that a person can read and edit, reads the edited text, and
//! puts what it holds back among the objects of the file.
//!
//! ```text
//! # numOriginalFrames: 38
//! # duration: 1.5
//! # numAnnotationTracks: 2
//!
//! trackName: PairedRoot
//! # numAnnotations: 2
//! 0.100000 MCO_DodgeOpen
//! 0.400000 MCO_DodgeClose
//!
//! trackName: 2_
//! # numAnnotations: 0
//!
//! ```

pub mod batch;
pub mod chars;
pub mod classmap;
pub mod collect;
pub mod decimal;
pub mod editor;
pub mod error;
pub mod grammar;
pub mod model;
pub mod parser;
pub mod roundtrip;
pub mod words;
pub mod writer;

pub use crate::classmap::{is_hka_animation_derived, parse_hkanno_borrowed, ClassMap};
pub use crate::editor::OutFormat;
pub use crate::error::HkannoError;
pub use crate::model::{Annotation, AnnotationTrack, Hkanno, NULL_STR};
pub use crate::parser::{parse_hkanno_str, HkannoParseError};
