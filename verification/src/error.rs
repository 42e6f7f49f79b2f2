//! What can go wrong while annotations are read from, or written into, one
//! animation file.

use crate::decimal::{decimal_nat, push_decimal};
use crate::parser::HkannoParseError;
use vstd::prelude::*;

verus! {

/// A failure on one file. None of them ends the program: each is reported
/// for the file on which it arose.
#[derive(Debug)]
#[allow(inconsistent_fields)]
pub enum HkannoError {
    /// The bytes of the file could not be turned into objects, or the objects
    /// into bytes. `source` is what the codec said.
    SerdeHkxFeatureError { source: String },
    /// There is no animation among the objects.
    MissingHkaAnimationClass,
    /// There are `count` animations among the objects, where one was
    /// expected.
    MultipleHkaAnimationFound { count: usize },
    /// A whole number of the animation is given in a form that is not
    /// supported.
    UnsupportedI32Variant { variant: String },
    /// The file at `path` could not be read or written. `source` is what the
    /// system said.
    IoError { source: String, path: String },
    /// The failure `source`, with the file on which it arose.
    HkxError { source: Box<HkannoError>, path: String },
    /// The edited text does not follow the grammar of the notation.
    DeError { source: HkannoParseError },
    /// The word that asks for an output format is none of the three known
    /// ones.
    InvalidOutputFormat { format: String },
    /// The bytes that were written are not text. `source` is what the
    /// decoder said.
    Utf8Error { source: String },
}

impl HkannoError {
    /// What the error shows to a reader.
    pub open spec fn shown(&self) -> Seq<char>
        decreases self,
    {
        match self {
            HkannoError::SerdeHkxFeatureError { source } => "internal serde_hkx_features err: "@
                + source@,
            HkannoError::MissingHkaAnimationClass => "No `hkaAnimation`-derived class found"@,
            HkannoError::MultipleHkaAnimationFound { count } =>
                "expected one `hkaAnimation` per `hkx`, but multiple were obtained. Got count: "@
                + decimal_nat(*count as nat),
            HkannoError::UnsupportedI32Variant { variant } =>
                "Unsupported i32 in animation field: "@ + variant@,
            HkannoError::IoError { source, path } => "Failed to Read/Write. path: "@ + path@
                + ", err: "@ + source@,
            HkannoError::HkxError { source, path } => "path: "@ + path@ + ", err: "@
                + source.shown(),
            HkannoError::DeError { source } => source.shown(),
            HkannoError::InvalidOutputFormat { format } => "Unsupported output format: "@ + format@
                + ". Expected: `amd64`, `win32`, `xml`."@,
            HkannoError::Utf8Error { source } => source@,
        }
    }

    /// What the error shows to a reader.
    pub fn to_string(&self) -> (s: String)
        ensures
            s@ == self.shown(),
        decreases self,
    {
        match self {
            HkannoError::SerdeHkxFeatureError { source } => {
                let mut s = String::from_str("internal serde_hkx_features err: ");
                s.append(source.as_str());
                s
            },
            HkannoError::MissingHkaAnimationClass => String::from_str(
                "No `hkaAnimation`-derived class found",
            ),
            HkannoError::MultipleHkaAnimationFound { count } => {
                let mut s = String::from_str(
                    "expected one `hkaAnimation` per `hkx`, but multiple were obtained. Got count: ",
                );
                push_decimal(&mut s, *count as u64);
                s
            },
            HkannoError::UnsupportedI32Variant { variant } => {
                let mut s = String::from_str("Unsupported i32 in animation field: ");
                s.append(variant.as_str());
                s
            },
            HkannoError::IoError { source, path } => {
                let mut s = String::from_str("Failed to Read/Write. path: ");
                s.append(path.as_str());
                s.append(", err: ");
                s.append(source.as_str());
                s
            },
            HkannoError::HkxError { source, path } => {
                let mut s = String::from_str("path: ");
                s.append(path.as_str());
                s.append(", err: ");
                let inner = source.to_string();
                s.append(inner.as_str());
                s
            },
            HkannoError::DeError { source } => source.to_string(),
            HkannoError::InvalidOutputFormat { format } => {
                let mut s = String::from_str("Unsupported output format: ");
                s.append(format.as_str());
                s.append(". Expected: `amd64`, `win32`, `xml`.");
                s
            },
            HkannoError::Utf8Error { source } => source.clone(),
        }
    }
}

} // verus!
