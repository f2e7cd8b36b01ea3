//! The layout of the scheduler's spool: shard directories, job directories
//! below them, and job scripts below those.

use vstd::prelude::*;
use crate::digits::{decimal, lemma_decimal_injective, lemma_decimal_shape, render_decimal};
use crate::paths::{append, is_component, join, joined, SEPARATOR};

verus! {

/// The number of shards that the scheduler keeps.
pub const SHARD_COUNT: u32 = 10;

/// The bytes of `shard.`, with which the name of every shard directory
/// begins.
pub open spec fn shard_prefix() -> Seq<u8> {
    seq![115u8, 104u8, 97u8, 114u8, 100u8, 46u8]
}

/// The name of the directory of shard `id`: `shard.` and the number in
/// decimal.
pub open spec fn shard_name(id: nat) -> Seq<u8> {
    shard_prefix() + decimal(id)
}

/// The directory of shard `id` below `spool`.
pub open spec fn shard_root_of(spool: Seq<u8>, id: nat) -> Seq<u8> {
    joined(spool, shard_name(id))
}

/// Whether `path` names a file that lies in a job directory directly below
/// `root`: the root, a separator, one component for the job, a separator,
/// and one component for the script.
pub open spec fn is_job_script_path(root: Seq<u8>, path: Seq<u8>) -> bool {
    exists|job: Seq<u8>, name: Seq<u8>|
        is_component(job) && is_component(name) && path == #[trigger] script_path_of(
            root,
            job,
            name,
        )
}

/// The path of the script `name` in the job directory `job` below `root`.
pub open spec fn script_path_of(root: Seq<u8>, job: Seq<u8>, name: Seq<u8>) -> Seq<u8> {
    root.push(SEPARATOR) + job.push(SEPARATOR) + name
}

/// The name of a shard directory is a single path component.
pub proof fn lemma_shard_name_is_component(id: nat)
    ensures
        is_component(shard_name(id)),
{
    lemma_decimal_shape(id);
    let name = shard_name(id);
    assert forall|i: int| 0 <= i < name.len() implies name[i] != SEPARATOR by {
        if i >= 6 {
            assert(name[i] == decimal(id)[i - 6]);
        }
    }
}

/// Two shards of one spool have two directories.
pub proof fn lemma_shard_roots_distinct(spool: Seq<u8>, a: nat, b: nat)
    requires
        shard_root_of(spool, a) == shard_root_of(spool, b),
    ensures
        a == b,
{
    let head = if spool.len() == 0 || spool.last() == SEPARATOR {
        spool + shard_prefix()
    } else {
        spool.push(SEPARATOR) + shard_prefix()
    };
    let da = decimal(a);
    let db = decimal(b);
    assert(shard_root_of(spool, a) =~= head + da);
    assert(shard_root_of(spool, b) =~= head + db);
    assert(da =~= db) by {
        assert(da.len() == db.len());
        assert forall|k: int| 0 <= k < da.len() implies da[k] == db[k] by {
            assert((head + da)[head.len() + k] == da[k]);
            assert((head + db)[head.len() + k] == db[k]);
        }
    }
    lemma_decimal_injective(a, b);
}

/// A path lies in at most one shard: where it names a job script below the
/// directories of two shards of one spool, the two are the same shard.
pub proof fn lemma_shard_of_path_unique(spool: Seq<u8>, a: nat, b: nat, path: Seq<u8>)
    requires
        is_job_script_path(shard_root_of(spool, a), path),
        is_job_script_path(shard_root_of(spool, b), path),
    ensures
        a == b,
{
    let root_a = shard_root_of(spool, a);
    let root_b = shard_root_of(spool, b);
    let (job_a, name_a) = choose|job: Seq<u8>, name: Seq<u8>|
        is_component(job) && is_component(name) && path == #[trigger] script_path_of(
            root_a,
            job,
            name,
        );
    let (job_b, name_b) = choose|job: Seq<u8>, name: Seq<u8>|
        is_component(job) && is_component(name) && path == #[trigger] script_path_of(
            root_b,
            job,
            name,
        );
    lemma_script_path_layout(root_a, job_a, name_a);
    lemma_script_path_layout(root_b, job_b, name_b);
    lemma_decimal_shape(a);
    lemma_decimal_shape(b);
    let head = if spool.len() == 0 || spool.last() == SEPARATOR {
        spool + shard_prefix()
    } else {
        spool.push(SEPARATOR) + shard_prefix()
    };
    let da = decimal(a);
    let db = decimal(b);
    assert(root_a =~= head + da);
    assert(root_b =~= head + db);
    assert(forall|k: int| 0 <= k < da.len() ==> path[head.len() + k] == da[k]) by {
        assert(forall|k: int| 0 <= k < da.len() ==> root_a[head.len() + k] == da[k]);
    }
    assert(forall|k: int| 0 <= k < db.len() ==> path[head.len() + k] == db[k]) by {
        assert(forall|k: int| 0 <= k < db.len() ==> root_b[head.len() + k] == db[k]);
    }
    assert(path[(head.len() + da.len()) as int] == SEPARATOR);
    assert(path[(head.len() + db.len()) as int] == SEPARATOR);
    if da.len() < db.len() {
        assert(path[(head.len() + da.len()) as int] == db[da.len() as int]);
    }
    if db.len() < da.len() {
        assert(path[(head.len() + db.len()) as int] == da[db.len() as int]);
    }
    assert(da =~= db);
    lemma_decimal_injective(a, b);
}

/// Builds the directory of shard `id` below `spool`.
pub fn shard_root(spool: &Vec<u8>, id: u32) -> (root: Vec<u8>)
    ensures
        root@ == shard_root_of(spool@, id as nat),
{
    let mut name: Vec<u8> = Vec::new();
    name.push(115u8);
    name.push(104u8);
    name.push(97u8);
    name.push(114u8);
    name.push(100u8);
    name.push(46u8);
    assert(name@ =~= shard_prefix());
    let digits = render_decimal(id);
    append(&mut name, &digits);
    join(spool, &name)
}

/// Decides whether `path` names a job script below `root`.
pub fn names_job_script(root: &Vec<u8>, path: &Vec<u8>) -> (found: bool)
    ensures
        found == is_job_script_path(root@, path@),
{
    let n: usize = root.len();
    if path.len() <= n || path[n] != SEPARATOR {
        proof {
            lemma_not_below(root@, path@);
        }
        return false;
    }
    let mut i: usize = 0;
    while i < n
        invariant
            i <= n,
            n == root.len(),
            n < path.len(),
            forall|k: int| 0 <= k < i ==> path[k] == root[k],
        decreases n - i,
    {
        if path[i] != root[i] {
            proof {
                lemma_not_below(root@, path@);
            }
            return false;
        }
        i = i + 1;
    }
    // The job directory runs from `n + 1` to the next separator.
    let start: usize = n + 1;
    let mut cut: usize = start;
    while cut < path.len() && path[cut] != SEPARATOR
        invariant
            start == root.len() + 1,
            start <= cut <= path.len(),
            forall|k: int| start <= k < cut ==> path[k] != SEPARATOR,
        decreases path.len() - cut,
    {
        cut = cut + 1;
    }
    if cut == start || cut >= path.len() - 1 {
        proof {
            lemma_no_script_without_job(root@, path@, cut as int);
        }
        return false;
    }
    let mut j: usize = cut + 1;
    while j < path.len()
        invariant
            start == root.len() + 1,
            start < cut < j <= path.len(),
            path[cut as int] == SEPARATOR,
            forall|k: int| start <= k < cut ==> path[k] != SEPARATOR,
            forall|k: int| cut < k < j ==> path[k] != SEPARATOR,
        decreases path.len() - j,
    {
        if path[j] == SEPARATOR {
            proof {
                lemma_no_script_with_late_separator(root@, path@, cut as int, j as int);
            }
            return false;
        }
        j = j + 1;
    }
    proof {
        let job = path@.subrange(start as int, cut as int);
        let name = path@.subrange(cut + 1, path.len() as int);
        assert(is_component(job));
        assert(is_component(name));
        assert(path@ =~= script_path_of(root@, job, name));
    }
    true
}

/// A path that does not begin with the root and a separator names no job
/// script below it.
proof fn lemma_not_below(root: Seq<u8>, path: Seq<u8>)
    requires
        path.len() <= root.len() || path[root.len() as int] != SEPARATOR || exists|k: int|
            0 <= k < root.len() && path[k] != root[k],
    ensures
        !is_job_script_path(root, path),
{
    assert forall|job: Seq<u8>, name: Seq<u8>|
        is_component(job) && is_component(name) implies path != #[trigger] script_path_of(
        root,
        job,
        name,
    ) by {
        let full = script_path_of(root, job, name);
        assert(full.len() > root.len());
        assert(full[root.len() as int] == SEPARATOR);
        assert(forall|k: int| 0 <= k < root.len() ==> full[k] == root[k]);
    }
}

/// Where the first separator behind the root comes at once, or last, or not
/// at all, the path names no job script.
proof fn lemma_no_script_without_job(root: Seq<u8>, path: Seq<u8>, cut: int)
    requires
        root.len() + 1 <= cut <= path.len(),
        forall|k: int| root.len() + 1 <= k < cut ==> path[k] != SEPARATOR,
        cut < path.len() ==> path[cut] == SEPARATOR,
        cut == root.len() + 1 || cut >= path.len() - 1,
    ensures
        !is_job_script_path(root, path),
{
    assert forall|job: Seq<u8>, name: Seq<u8>|
        is_component(job) && is_component(name) implies path != #[trigger] script_path_of(
        root,
        job,
        name,
    ) by {
        let full = script_path_of(root, job, name);
        if path == full {
            lemma_script_path_layout(root, job, name);
            let sep: int = (root.len() + 1 + job.len()) as int;
            assert(path[sep] == SEPARATOR);
            assert(cut <= sep);
            if cut < sep {
                assert(path[cut] == job[cut - root.len() - 1]);
            }
        }
    }
}

/// Where a separator follows the one that ends the job directory, the path
/// names no job script.
proof fn lemma_no_script_with_late_separator(root: Seq<u8>, path: Seq<u8>, cut: int, late: int)
    requires
        root.len() + 1 < cut < late < path.len(),
        forall|k: int| root.len() + 1 <= k < cut ==> path[k] != SEPARATOR,
        path[cut] == SEPARATOR,
        path[late] == SEPARATOR,
    ensures
        !is_job_script_path(root, path),
{
    assert forall|job: Seq<u8>, name: Seq<u8>|
        is_component(job) && is_component(name) implies path != #[trigger] script_path_of(
        root,
        job,
        name,
    ) by {
        let full = script_path_of(root, job, name);
        if path == full {
            lemma_script_path_layout(root, job, name);
            let sep: int = (root.len() + 1 + job.len()) as int;
            assert(path[sep] == SEPARATOR);
            if cut < sep {
                assert(path[cut] == job[cut - root.len() - 1]);
            }
            assert(cut == sep);
            assert(path[late] == name[late - sep - 1]);
        }
    }
}

/// Where each byte of a script's path comes from.
pub proof fn lemma_script_path_layout(root: Seq<u8>, job: Seq<u8>, name: Seq<u8>)
    ensures
        script_path_of(root, job, name).len() == root.len() + job.len() + name.len() + 2,
        forall|k: int| 0 <= k < root.len() ==> script_path_of(root, job, name)[k] == root[k],
        script_path_of(root, job, name)[root.len() as int] == SEPARATOR,
        forall|k: int|
            0 <= k < job.len() ==> script_path_of(root, job, name)[root.len() + 1 + k] == job[k],
        script_path_of(root, job, name)[(root.len() + 1 + job.len()) as int] == SEPARATOR,
        forall|k: int|
            0 <= k < name.len() ==> script_path_of(root, job, name)[root.len() + 2 + job.len() + k]
                == name[k],
{
}

} // verus!
