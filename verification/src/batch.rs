//! What a run over many files reports, once every file has been dealt with.
//!
//! Each file is dealt with on its own and ends in a result or in a failure
//! that is already put into words. Reading reports what succeeded as long as
//! anything did; writing reports a failure as soon as anything failed.

use crate::decimal::{decimal_nat, push_decimal};
use vstd::prelude::*;

verus! {

/// The annotations of one file, as they are shown.
#[derive(Debug)]
pub struct AnnotationFile {
    /// The path of the animation file.
    pub hkx_path: String,
    /// The path of the text file that stands beside it.
    pub anno_path: String,
    /// The name under which the file is shown.
    pub display_name: String,
    /// The text of the annotations.
    pub content: String,
}

/// The name under which a file without a readable name is shown.
pub const UNKNOWN_NAME: &'static str = "unknown.hkx";

impl AnnotationFile {
    /// The annotations of one file, shown under the name of the file, or
    /// under [`UNKNOWN_NAME`] where it has none that can be shown.
    pub fn new(hkx_path: String, anno_path: String, file_name: Option<String>, content: String) -> (r:
        AnnotationFile)
        ensures
            r.hkx_path == hkx_path,
            r.anno_path == anno_path,
            r.content == content,
            r.display_name@ == match file_name {
                Some(name) => name@,
                None => UNKNOWN_NAME@,
            },
    {
        let display_name = match file_name {
            Some(name) => name,
            None => String::from_str(UNKNOWN_NAME),
        };
        AnnotationFile { hkx_path, anno_path, display_name, content }
    }
}

/// The lines, each on a line of its own: joined by line feeds, with none
/// after the last.
pub open spec fn join_lines(lines: Seq<Seq<char>>) -> Seq<char>
    decreases lines.len(),
{
    if lines.len() == 0 {
        Seq::empty()
    } else if lines.len() == 1 {
        lines[0]
    } else {
        join_lines(lines.drop_last()) + "\n"@ + lines.last()
    }
}

/// What succeeded, in order.
pub open spec fn successes<T>(outcomes: Seq<Result<T, String>>) -> Seq<T>
    decreases outcomes.len(),
{
    if outcomes.len() == 0 {
        Seq::empty()
    } else {
        match outcomes.last() {
            Ok(value) => successes(outcomes.drop_last()).push(value),
            Err(_) => successes(outcomes.drop_last()),
        }
    }
}

/// The messages of what failed, in order.
pub open spec fn failures<T>(outcomes: Seq<Result<T, String>>) -> Seq<Seq<char>>
    decreases outcomes.len(),
{
    if outcomes.len() == 0 {
        Seq::empty()
    } else {
        match outcomes.last() {
            Ok(_) => failures(outcomes.drop_last()),
            Err(message) => failures(outcomes.drop_last()).push(message@),
        }
    }
}

/// What the message of a writing run says of `count` files.
pub open spec fn updated_message(count: nat) -> Seq<char> {
    "Updated "@ + decimal_nat(count) + " file(s)"@
}

/// Adds a line to lines that are joined already.
fn push_line(joined: &mut String, line: &str, first: bool)
    ensures
        final(joined)@ == if first {
            old(joined)@ + line@
        } else {
            old(joined)@ + "\n"@ + line@
        },
{
    if !first {
        joined.append("\n");
    }
    joined.append(line);
}

/// Sorts outcomes into what succeeded and the joined messages of what
/// failed.
fn sort_outcomes<T>(outcomes: Vec<Result<T, String>>) -> (r: (Vec<T>, String, usize))
    ensures
        r.0@ == successes(outcomes@),
        r.1@ == join_lines(failures(outcomes@)),
        r.2 == failures(outcomes@).len(),
        r.0@.len() + r.2 == outcomes@.len(),
{
    let ghost all = outcomes@;
    let count = outcomes.len();
    let mut done: Vec<T> = Vec::new();
    let mut joined = String::new();
    let mut failed: usize = 0;
    for outcome in it: outcomes
        invariant
            it.seq() == all,
            all.len() == count,
            done@ == successes(all.take(it.index() as int)),
            joined@ == join_lines(failures(all.take(it.index() as int))),
            failed == failures(all.take(it.index() as int)).len(),
            done@.len() + failed == it.index(),
    {
        proof {
            let i = it.index() as int;
            assert(i < all.len());
            assert(all.take(i + 1).drop_last() =~= all.take(i));
            assert(all.take(i + 1).last() == all[i]);
        }
        match outcome {
            Ok(value) => {
                done.push(value);
            },
            Err(message) => {
                let ghost before = failures(all.take(it.index() as int));
                push_line(&mut joined, message.as_str(), failed == 0);
                proof {
                    let after = before.push(message@);
                    assert(after.drop_last() =~= before);
                    if before.len() == 0 {
                        assert(joined@ =~= message@);
                    }
                }
                failed += 1;
            },
        }
    }
    proof {
        assert(all.take(all.len() as int) =~= all);
    }
    (done, joined, failed)
}

/// What a reading run reports.
///
/// As long as one file could be read, what was read is returned, in order,
/// and the failures are passed over: among many files some are expected to
/// hold no animation. Only where nothing could be read and something failed,
/// the messages of the failures are returned, each on a line of its own.
pub fn dump_annotations(outcomes: Vec<Result<AnnotationFile, String>>) -> (r: Result<
    Vec<AnnotationFile>,
    String,
>)
    ensures
        match r {
            Ok(files) => {
                &&& files@ == successes(outcomes@)
                &&& files@.len() > 0 || failures(outcomes@).len() == 0
            },
            Err(message) => {
                &&& successes(outcomes@).len() == 0
                &&& failures(outcomes@).len() > 0
                &&& message@ == join_lines(failures(outcomes@))
            },
        },
{
    let (files, message, failed) = sort_outcomes(outcomes);
    if files.len() == 0 && failed > 0 {
        Err(message)
    } else {
        Ok(files)
    }
}

/// What a writing run reports.
///
/// Where any file failed, the messages of the failures are returned, each on
/// a line of its own, whatever was written for the other files. Else the
/// number of files is reported.
pub fn update_annotations(outcomes: Vec<Result<(), String>>) -> (r: Result<String, String>)
    ensures
        match r {
            Ok(message) => {
                &&& failures(outcomes@).len() == 0
                &&& message@ == updated_message(outcomes@.len())
            },
            Err(message) => {
                &&& failures(outcomes@).len() > 0
                &&& message@ == join_lines(failures(outcomes@))
            },
        },
{
    let (done, message, failed) = sort_outcomes(outcomes);
    if failed > 0 {
        Err(message)
    } else {
        let mut report = String::from_str("Updated ");
        push_decimal(&mut report, done.len() as u64);
        report.append(" file(s)");
        Ok(report)
    }
}

} // verus!
