//! Where a script lands in the archive: below the archive root, in the
//! bucket of the day on which it is archived, under its own file name.

use vstd::prelude::*;
use crate::clock::today;
use crate::paths::{
    duplicate, file_name, file_name_of, is_component, join, joined, lemma_file_name_of_joined,
    lemma_name_start,
};
use crate::period::{bucket_of, LocalDate, Period};

verus! {

/// Why no destination can be given for a script.
#[derive(Clone, Copy, Debug, PartialEq, Eq, Structural)]
pub enum ArchiveError {
    /// The script's path names no file: it is empty or ends in a separator.
    MissingFileName,
    /// The wall clock shows a year that no bucket name can hold.
    ClockOutOfRange,
}

/// The place of one script in the archive.
#[derive(Debug, PartialEq, Eq)]
pub struct ArchiveTarget {
    /// The directory that has to exist before the copy.
    pub directory: Vec<u8>,
    /// The file that the script is copied to.
    pub file: Vec<u8>,
    /// The file in which the copy is made before it takes its place, so that
    /// a script is archived whole or not at all.
    pub staging: Vec<u8>,
}

/// The bytes of `.part`, which end the name of a copy that is under way.
pub open spec fn staging_suffix() -> Seq<u8> {
    seq![46u8, 112u8, 97u8, 114u8, 116u8]
}

/// The directory for the bucket named `bucket` below `root`: the root
/// itself where the name is empty.
pub open spec fn directory_in(root: Seq<u8>, bucket: Seq<u8>) -> Seq<u8> {
    if bucket.len() == 0 {
        root
    } else {
        joined(root, bucket)
    }
}

/// The directory in which scripts archived on `date` land: the archive root
/// itself where the archive is undated, else the date's bucket below it.
pub open spec fn directory_of(root: Seq<u8>, period: Period, date: LocalDate) -> Seq<u8> {
    directory_in(root, bucket_of(period, date))
}

/// The file to which the script at `script_path` is copied when it is
/// archived on `date`.
pub open spec fn destination_of(
    root: Seq<u8>,
    period: Period,
    date: LocalDate,
    script_path: Seq<u8>,
) -> Seq<u8> {
    joined(directory_of(root, period, date), file_name_of(script_path))
}

/// Whether `target` is the place of the script at `script_path` on `date`.
pub open spec fn is_target_on(
    target: ArchiveTarget,
    root: Seq<u8>,
    period: Period,
    date: LocalDate,
    script_path: Seq<u8>,
) -> bool {
    &&& target.directory@ == directory_of(root, period, date)
    &&& target.file@ == destination_of(root, period, date, script_path)
    &&& target.staging@ == target.file@ + staging_suffix()
}

/// A script keeps its file name in the archive.
pub proof fn lemma_destination_keeps_name(
    root: Seq<u8>,
    period: Period,
    date: LocalDate,
    script_path: Seq<u8>,
)
    requires
        file_name_of(script_path).len() > 0,
    ensures
        file_name_of(destination_of(root, period, date, script_path)) == file_name_of(
            script_path,
        ),
{
    lemma_name_start(script_path);
    let name = file_name_of(script_path);
    assert(is_component(name)) by {
        assert(forall|i: int|
            0 <= i < name.len() ==> name[i] == script_path[crate::paths::name_start(script_path)
                + i]);
    }
    lemma_file_name_of_joined(directory_of(root, period, date), name);
}

/// Gives the place of the script at `script_path` in the bucket named
/// `bucket` below `root`. Fails only where the path names no file.
pub fn place(root: &Vec<u8>, bucket: &Vec<u8>, script_path: &Vec<u8>) -> (out: Result<
    ArchiveTarget,
    ArchiveError,
>)
    ensures
        out is Err <==> file_name_of(script_path@).len() == 0,
        out matches Err(e) ==> e == ArchiveError::MissingFileName,
        out matches Ok(target) ==> {
            &&& target.directory@ == directory_in(root@, bucket@)
            &&& target.file@ == joined(directory_in(root@, bucket@), file_name_of(script_path@))
            &&& target.staging@ == target.file@ + staging_suffix()
        },
{
    let name = file_name(script_path);
    if name.len() == 0 {
        return Err(ArchiveError::MissingFileName);
    }
    let directory = if bucket.len() == 0 {
        duplicate(root)
    } else {
        join(root, bucket)
    };
    let file = join(&directory, &name);
    let mut staging = duplicate(&file);
    staging.push(46u8);
    staging.push(112u8);
    staging.push(97u8);
    staging.push(114u8);
    staging.push(116u8);
    assert(staging@ =~= file@ + staging_suffix());
    Ok(ArchiveTarget { directory, file, staging })
}

/// Gives the place at which the script at `script_path` is archived on
/// `date`, below `root`. Fails only where the path names no file.
pub fn resolve(root: &Vec<u8>, period: Period, date: &LocalDate, script_path: &Vec<u8>) -> (out:
    Result<ArchiveTarget, ArchiveError>)
    ensures
        out is Err <==> file_name_of(script_path@).len() == 0,
        out matches Err(e) ==> e == ArchiveError::MissingFileName,
        out matches Ok(target) ==> is_target_on(target, root@, period, *date, script_path@),
{
    let bucket = period.bucket(date);
    place(root, &bucket, script_path)
}

/// Gives the place at which the script at `script_path` is archived now: in
/// the bucket of today's date on the local wall clock. An undated archive
/// does not ask the clock.
pub fn resolve_now(root: &Vec<u8>, period: Period, script_path: &Vec<u8>) -> (out: Result<
    ArchiveTarget,
    ArchiveError,
>)
    ensures
        out matches Err(ArchiveError::MissingFileName) <==> file_name_of(script_path@).len() == 0,
        out matches Err(ArchiveError::ClockOutOfRange) ==> period != Period::Undated,
        out matches Ok(target) ==> exists|date: LocalDate|
            date.wf() && #[trigger] is_target_on(target, root@, period, date, script_path@),
        out matches Ok(target) ==> period == Period::Undated ==> forall|date: LocalDate|
            #[trigger] is_target_on(target, root@, period, date, script_path@),
{
    let name = file_name(script_path);
    if name.len() == 0 {
        return Err(ArchiveError::MissingFileName);
    }
    match period {
        Period::Undated => {
            let bucket: Vec<u8> = Vec::new();
            let out = place(root, &bucket, script_path);
            proof {
                let first = LocalDate { year: 0, month: 1, day: 1 };
                assert(first.wf());
                if out is Ok {
                    assert(is_target_on(out->Ok_0, root@, period, first, script_path@));
                }
            }
            out
        },
        _ => match today() {
            Some(date) => resolve(root, period, &date, script_path),
            None => Err(ArchiveError::ClockOutOfRange),
        },
    }
}

} // verus!
