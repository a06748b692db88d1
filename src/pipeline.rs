//! The decisions of the classification pipeline: what to do with each file
//! the walk yields, how its outcome is counted, and whether a run may start.

use vstd::prelude::*;
use crate::entry::{FileEntry, extension_key, extension_key_of};
use crate::metadata::{
    MetadataError,
    read_capture_date,
    container_decodes,
    capture_date_of,
    date_text_of,
};
use crate::router::{CaptureDate, route, target_dir, lemma_undated_route};
use crate::stats::{Outcome, StatsView, total_of, well_keyed, lemma_stays_consistent};

verus! {

/// What to do with one entry of the walk.
#[derive(Clone, Debug, PartialEq, Eq)]
pub enum Plan {
    /// Not a regular file: nothing is done and nothing is counted.
    Ignore,
    /// Its metadata container cannot be read: counted as skipped under the
    /// extension, and not copied.
    Skip(String),
    /// Copy it into `target_dir` under its own name, then count it under the
    /// extension.
    Copy { extension: String, target_dir: String },
}

/// The plan for a regular file, given what reading its capture date gave.
pub open spec fn plan_for(name: Seq<char>, reading: Result<Option<CaptureDate>, MetadataError>) -> (
    Seq<char>,
    Option<Seq<char>>,
) {
    match reading {
        Ok(date) => (extension_key_of(name), Some(route(date))),
        Err(_) => (extension_key_of(name), None),
    }
}

/// Whether `p` carries out `plan_for`'s decision for an entry that is a
/// regular file.
pub open spec fn carries_out(p: Plan, decision: (Seq<char>, Option<Seq<char>>)) -> bool {
    match p {
        Plan::Ignore => false,
        Plan::Skip(e) => decision.1 is None && e@ == decision.0,
        Plan::Copy { extension, target_dir } => decision.1 == Some(target_dir@) && extension@
            == decision.0,
    }
}

/// The plan for `entry`, given what reading its capture date gave: nothing
/// for a non-regular entry; a skip where the container could not be read; a
/// copy into the routed folder otherwise, with or without a date.
pub fn plan_for_reading(entry: &FileEntry, reading: Result<Option<CaptureDate>, MetadataError>) -> (r:
    Plan)
    ensures
        !entry.is_file ==> r is Ignore,
        entry.is_file ==> carries_out(r, plan_for(entry.file_name@, reading)),
{
    if !entry.is_file {
        return Plan::Ignore;
    }
    let extension = extension_key(entry.file_name.as_str());
    match reading {
        Ok(date) => Plan::Copy { extension, target_dir: target_dir(date) },
        Err(_) => Plan::Skip(extension),
    }
}

/// The view of optional file contents.
pub open spec fn contents_view(contents: Option<&[u8]>) -> Option<Seq<u8>> {
    match contents {
        Some(b) => Some(b@),
        None => None,
    }
}

/// The decision for a regular file named `name` with contents `contents`:
/// skip it where it could not be read or its container does not decode,
/// else copy it into the folder routed from the date its DateTimeOriginal
/// field gives.
pub open spec fn file_decision(name: Seq<char>, contents: Option<Seq<u8>>) -> (
    Seq<char>,
    Option<Seq<char>>,
) {
    match contents {
        Some(b) => if container_decodes(b) {
            (extension_key_of(name), Some(route(capture_date_of(date_text_of(b)))))
        } else {
            (extension_key_of(name), None)
        },
        None => (extension_key_of(name), None),
    }
}

/// The plan for `entry`, whose contents are `contents`, or none where the
/// file could not be read. An unreadable file or an undecodable container is
/// skipped; any other regular file is copied into the folder that its
/// capture date routes it to.
pub fn plan_file(entry: &FileEntry, contents: Option<&[u8]>) -> (r: Plan)
    ensures
        !entry.is_file ==> r is Ignore,
        entry.is_file ==> carries_out(r, file_decision(entry.file_name@, contents_view(contents))),
{
    if !entry.is_file {
        return Plan::Ignore;
    }
    match contents {
        Some(bytes) => {
            let reading = read_capture_date(bytes);
            plan_for_reading(entry, reading)
        },
        None => plan_for_reading(entry, Err(MetadataError::Undecodable)),
    }
}

/// A regular file whose container decodes but holds no DateTimeOriginal text
/// is not skipped: it is copied into `sorted/date-unknown` and counted as
/// moved under its extension once the copy succeeds.
pub proof fn lemma_undated_file_is_moved(name: Seq<char>, bytes: Seq<u8>, p: Plan)
    requires
        container_decodes(bytes),
        date_text_of(bytes) is None,
        carries_out(p, file_decision(name, Some(bytes))),
    ensures
        p matches Plan::Copy { extension, target_dir } && target_dir@ == "sorted/date-unknown"@
            && extension@ == extension_key_of(name),
        outcome_spec(p, true) matches Some(Outcome::Moved(e)) && e@ == extension_key_of(name),
{
    lemma_undated_route();
}

/// The outcome that a plan has, given whether its copy succeeded.
pub open spec fn outcome_spec(plan: Plan, copied: bool) -> Option<Outcome> {
    match plan {
        Plan::Ignore => None,
        Plan::Skip(e) => Some(Outcome::Skipped(e)),
        Plan::Copy { extension, .. } => if copied {
            Some(Outcome::Moved(extension))
        } else {
            Some(Outcome::CopyFailed)
        },
    }
}

/// The outcome to count for a file that was handled by `plan`, where
/// `copied` tells whether its copy succeeded; none for an ignored entry.
pub fn outcome_of(plan: &Plan, copied: bool) -> (r: Option<Outcome>)
    ensures
        r == outcome_spec(*plan, copied),
{
    match plan {
        Plan::Ignore => None,
        Plan::Skip(e) => Some(Outcome::Skipped(e.clone())),
        Plan::Copy { extension, .. } => {
            if copied {
                Some(Outcome::Moved(extension.clone()))
            } else {
                Some(Outcome::CopyFailed)
            }
        },
    }
}

/// The counts after the outcomes `os`, one after the other.
pub open spec fn recorded_all(v: StatsView, os: Seq<Outcome>) -> StatsView
    decreases os.len(),
{
    if os.len() == 0 {
        v
    } else {
        recorded_all(v, os.drop_last()).recorded(os.last())
    }
}

/// Each file counted adds one to exactly one of the skipped, copied and
/// failed counts: after any run of outcomes, the files visited grew by their
/// number, and so did the sum of the three.
pub proof fn lemma_every_file_counted_once(v: StatsView, os: Seq<Outcome>)
    requires
        well_keyed(v.skipped),
        well_keyed(v.moved),
    ensures
        well_keyed(recorded_all(v, os).skipped),
        well_keyed(recorded_all(v, os).moved),
        recorded_all(v, os).visited == v.visited + os.len(),
        total_of(recorded_all(v, os).skipped) + total_of(recorded_all(v, os).moved) + recorded_all(
            v,
            os,
        ).copy_failures == total_of(v.skipped) + total_of(v.moved) + v.copy_failures + os.len(),
        v.consistent() ==> recorded_all(v, os).consistent(),
    decreases os.len(),
{
    if os.len() > 0 {
        lemma_every_file_counted_once(v, os.drop_last());
        lemma_stays_consistent(recorded_all(v, os.drop_last()), os.last());
    }
}

/// Why a run cannot start.
#[derive(Clone, Copy, Debug, PartialEq, Eq, Structural)]
pub enum StartError {
    /// The input root does not exist.
    InputMissing,
    /// The output root exists already, from an earlier run or otherwise.
    OutputExists,
}

/// Whether a run may start: the input root must exist, and the output root
/// must not.
pub open spec fn start_decision(input_exists: bool, output_exists: bool) -> Result<(), StartError> {
    if !input_exists {
        Err(StartError::InputMissing)
    } else if output_exists {
        Err(StartError::OutputExists)
    } else {
        Ok(())
    }
}

/// Decides whether a run may start, before anything is created: a missing
/// input root comes first, then an output root that exists already.
pub fn check_start(input_exists: bool, output_exists: bool) -> (r: Result<(), StartError>)
    ensures
        r == start_decision(input_exists, output_exists),
{
    if !input_exists {
        Err(StartError::InputMissing)
    } else if output_exists {
        Err(StartError::OutputExists)
    } else {
        Ok(())
    }
}

/// A run over an existing input starts only where the output root does not
/// exist, and creates it; so a second run over the same input fails fast,
/// and never merges into the first run's output.
pub proof fn lemma_second_run_fails_fast()
    ensures
        start_decision(true, false) is Ok,
        start_decision(true, true) == Err::<(), StartError>(StartError::OutputExists),
{
}

} // verus!
