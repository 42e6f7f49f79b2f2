//! Choosing the animation files among what a walk over files and directories
//! met.
//!
//! The walk itself is the caller's: it reports what it met, in order, and the
//! functions here decide what is kept and which failure is reported.

use crate::words::{is_hkx_word, is_word, is_xml_word};
use vstd::prelude::*;

verus! {

/// One thing that a walk over the given paths met.
#[derive(Debug)]
pub enum Found {
    /// A path that was given and does not exist.
    Missing { path: String },
    /// A file: a path that was given, or an entry below a directory that was
    /// given. `extension` is what follows the last dot of its name.
    File { path: String, extension: Option<String> },
    /// A directory that could not be listed.
    Unreadable { path: String, cause: String },
    /// An entry of a directory that could not be read.
    Broken { cause: String },
}

/// Whether a file with this extension holds an animation in binary form.
pub fn has_hkx_extension(extension: &str) -> (b: bool)
    ensures
        b == is_hkx_word(extension@),
{
    is_word(extension, "hkx", "HKX")
}

/// Whether a file with this extension, if it has one, can hold an animation:
/// in binary form (`hkx`) or as XML (`xml`).
pub fn is_hkx(extension: Option<&str>) -> (b: bool)
    ensures
        b == match extension {
            Some(e) => is_hkx_word(e@) || is_xml_word(e@),
            None => false,
        },
{
    match extension {
        Some(e) => is_word(e, "hkx", "HKX") || is_word(e, "xml", "XML"),
        None => false,
    }
}

impl Found {
    /// The message of the failure that this stands for, if it is one.
    pub open spec fn failure(&self) -> Option<Seq<char>> {
        match self {
            Found::Missing { path } => Some("Path does not exist: "@ + path@),
            Found::File { .. } => None,
            Found::Unreadable { path, cause } => Some(
                "Failed to read directory "@ + path@ + ": "@ + cause@,
            ),
            Found::Broken { cause } => Some("Failed to read entry: "@ + cause@),
        }
    }

    /// The path of the binary animation file that this stands for, if it is
    /// one.
    pub open spec fn hkx_path(&self) -> Option<Seq<char>> {
        match self {
            Found::File { path, extension: Some(e) } => if is_hkx_word(e@) {
                Some(path@)
            } else {
                None
            },
            _ => None,
        }
    }

    /// The message of the failure that this stands for, if it is one.
    pub fn failure_message(&self) -> (r: Option<String>)
        ensures
            match r {
                Some(m) => self.failure() == Some(m@),
                None => self.failure() is None,
            },
    {
        match self {
            Found::Missing { path } => {
                let mut m = String::from_str("Path does not exist: ");
                m.append(path.as_str());
                Some(m)
            },
            Found::File { .. } => None,
            Found::Unreadable { path, cause } => {
                let mut m = String::from_str("Failed to read directory ");
                m.append(path.as_str());
                m.append(": ");
                m.append(cause.as_str());
                Some(m)
            },
            Found::Broken { cause } => {
                let mut m = String::from_str("Failed to read entry: ");
                m.append(cause.as_str());
                Some(m)
            },
        }
    }
}

/// The paths of the binary animation files among `found`, in order.
pub open spec fn hkx_paths(found: Seq<Found>) -> Seq<Seq<char>>
    decreases found.len(),
{
    if found.len() == 0 {
        Seq::empty()
    } else {
        match found.last().hkx_path() {
            Some(path) => hkx_paths(found.drop_last()).push(path),
            None => hkx_paths(found.drop_last()),
        }
    }
}

/// The characters of each of the texts, in order.
pub open spec fn texts_view(texts: Seq<String>) -> Seq<Seq<char>> {
    Seq::new(texts.len(), |i: int| texts[i]@)
}

/// The binary animation files that a walk met.
///
/// Where the walk met a failure, the first one is reported and no file is.
/// Else every file whose extension is `hkx`, in whatever case, is returned,
/// in the order in which the walk met them.
pub fn collect_hkx_files(found: &Vec<Found>) -> (r: Result<Vec<String>, String>)
    ensures
        match r {
            Ok(files) => {
                &&& forall|k: int| 0 <= k < found@.len() ==> (#[trigger] found@[k]).failure() is None
                &&& texts_view(files@) == hkx_paths(found@)
            },
            Err(message) => exists|i: int|
                {
                    &&& 0 <= i < found@.len()
                    &&& (#[trigger] found@[i]).failure() == Some(message@)
                    &&& forall|k: int| 0 <= k < i ==> (#[trigger] found@[k]).failure() is None
                },
        },
{
    let mut files: Vec<String> = Vec::new();
    let mut i: usize = 0;
    while i < found.len()
        invariant
            i <= found.len(),
            forall|k: int| 0 <= k < i ==> (#[trigger] found@[k]).failure() is None,
            texts_view(files@) == hkx_paths(found@.take(i as int)),
        decreases found.len() - i,
    {
        proof {
            assert(found@.take(i + 1).drop_last() =~= found@.take(i as int));
            assert(found@.take(i + 1).last() == found@[i as int]);
        }
        match found[i].failure_message() {
            Some(message) => {
                return Err(message);
            },
            None => {},
        }
        match &found[i] {
            Found::File { path, extension: Some(e) } => {
                if has_hkx_extension(e.as_str()) {
                    let ghost before = files@;
                    files.push(path.clone());
                    assert(texts_view(files@) =~= texts_view(before).push(path@));
                }
            },
            _ => {},
        }
        i += 1;
    }
    assert(found@.take(i as int) =~= found@);
    Ok(files)
}

} // verus!
