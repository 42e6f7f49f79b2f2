//! What is decided, for one file, between reading its bytes and writing
//! them back.
//!
//! Reading and writing the file, and turning bytes into objects and objects
//! into bytes, are the caller's. The functions here take what the caller has
//! read and say what is to be shown or written.

use crate::classmap::{animation_count, first_animation, parse_hkanno_borrowed, ClassMap};
use crate::error::HkannoError;
use crate::grammar::document;
use crate::model::Hkanno;
use crate::parser::{failure_message, parse_hkanno_str};
use crate::words::{is_amd64_word, is_win32_word, is_word, is_xml_word};
use crate::writer::render;
use vstd::prelude::*;

verus! {

/// The form in which the objects of a file are written.
#[derive(Debug, Clone, Copy, PartialEq, Eq, Structural)]
pub enum OutFormat {
    /// Binary, for 64-bit machines.
    Amd64,
    /// Binary, for 32-bit machines.
    Win32,
    /// XML text.
    Xml,
}

impl OutFormat {
    /// The format that a word asks for: `amd64`, `win32` or `xml`, in
    /// whatever case. No other word asks for a format.
    pub open spec fn of(word: Seq<char>) -> Option<OutFormat> {
        if is_amd64_word(word) {
            Some(OutFormat::Amd64)
        } else if is_win32_word(word) {
            Some(OutFormat::Win32)
        } else if is_xml_word(word) {
            Some(OutFormat::Xml)
        } else {
            None
        }
    }

    /// The format that a word asks for. A word that asks for none is
    /// refused, and the failure holds the word.
    pub fn from_str(word: &str) -> (r: Result<OutFormat, HkannoError>)
        ensures
            match r {
                Ok(format) => OutFormat::of(word@) == Some(format),
                Err(HkannoError::InvalidOutputFormat { format }) => OutFormat::of(word@) is None
                    && format@ == word@,
                Err(_) => false,
            },
    {
        if is_word(word, "amd64", "AMD64") {
            Ok(OutFormat::Amd64)
        } else if is_word(word, "win32", "WIN32") {
            Ok(OutFormat::Win32)
        } else if is_word(word, "xml", "XML") {
            Ok(OutFormat::Xml)
        } else {
            Err(HkannoError::InvalidOutputFormat { format: String::from_str(word) })
        }
    }

    /// The extension of a file in this format: `xml` for XML, `hkx` for
    /// binary.
    pub fn as_extension(&self) -> (extension: &'static str)
        ensures
            extension@ == match self {
                OutFormat::Xml => "xml"@,
                _ => "hkx"@,
            },
    {
        match self {
            OutFormat::Xml => "xml",
            _ => "hkx",
        }
    }
}

/// The extension under which an updated file is written: `xml` where the
/// word that asks for the format is `xml` in whatever case, `hkx` for every
/// other word.
pub fn output_extension(format: &str) -> (extension: &'static str)
    ensures
        extension@ == if is_xml_word(format@) {
            "xml"@
        } else {
            "hkx"@
        },
{
    if is_word(format, "xml", "XML") {
        "xml"
    } else {
        "hkx"
    }
}

/// The text of the annotations of the one animation among the objects of a
/// file.
///
/// Where not exactly one object is an animation, the failure says whether
/// none or several were found.
pub fn read_hkanno<'a>(class_map: ClassMap<'a>) -> (r: Result<String, HkannoError>)
    ensures
        match r {
            Ok(text) => {
                let entry = class_map.classes@[first_animation(class_map.classes@)];
                &&& animation_count(class_map.classes@) == 1
                &&& text@ == render(entry.hkanno()@)
            },
            Err(HkannoError::MissingHkaAnimationClass) => animation_count(class_map.classes@) == 0,
            Err(HkannoError::MultipleHkaAnimationFound { count }) => animation_count(
                class_map.classes@,
            ) >= 2 && count == animation_count(class_map.classes@),
            Err(_) => false,
        },
{
    match parse_hkanno_borrowed(class_map) {
        Ok(hkanno) => Ok(hkanno.to_string()),
        Err(e) => Err(e),
    }
}

/// What is to be written into a file: the annotations that an edited text
/// holds, and the format that a word asks for.
///
/// The word is judged first: if it asks for no format, that is the failure.
/// Then the text: if it is no document, that is the failure.
pub fn apply_hkanno<'a>(hkanno: &'a str, format: &str) -> (r: Result<
    (Hkanno<'a>, OutFormat),
    HkannoError,
>)
    ensures
        match r {
            Ok((h, f)) => {
                &&& OutFormat::of(format@) == Some(f)
                &&& document(hkanno@) == Some(h@.annotation_tracks)
            },
            Err(HkannoError::InvalidOutputFormat { format: word }) => {
                &&& OutFormat::of(format@) is None
                &&& word@ == format@
            },
            Err(HkannoError::DeError { source }) => {
                &&& OutFormat::of(format@) is Some
                &&& document(hkanno@) is None
                &&& source.message@ == failure_message(crate::grammar::document_len(hkanno@))
            },
            Err(_) => false,
        },
{
    let format = match OutFormat::from_str(format) {
        Ok(f) => f,
        Err(e) => {
            return Err(e);
        },
    };
    match parse_hkanno_str(hkanno) {
        Ok(h) => Ok((h, format)),
        Err(source) => Err(HkannoError::DeError { source }),
    }
}

/// What is to be written for a preview: the annotations that an edited text
/// holds, as XML.
pub fn hkanno_apply_xml_string<'a>(hkanno: &'a str) -> (r: Result<
    (Hkanno<'a>, OutFormat),
    HkannoError,
>)
    ensures
        match r {
            Ok((h, f)) => f == OutFormat::Xml && document(hkanno@) == Some(h@.annotation_tracks),
            Err(HkannoError::DeError { source }) => {
                &&& document(hkanno@) is None
                &&& source.message@ == failure_message(crate::grammar::document_len(hkanno@))
            },
            Err(_) => false,
        },
{
    match parse_hkanno_str(hkanno) {
        Ok(h) => Ok((h, OutFormat::Xml)),
        Err(source) => Err(HkannoError::DeError { source }),
    }
}

} // verus!
