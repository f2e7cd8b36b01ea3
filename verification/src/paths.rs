//! Filesystem paths as byte strings: joining, final components, prefixes.

use vstd::prelude::*;

verus! {

/// The byte that separates the components of a path.
pub const SEPARATOR: u8 = 47;

/// A single path component: not empty, and free of separators.
pub open spec fn is_component(s: Seq<u8>) -> bool {
    s.len() > 0 && forall|i: int| 0 <= i < s.len() ==> s[i] != SEPARATOR
}

/// `base` with `name` below it. A separator is put between the two unless
/// `base` is empty or already ends in one.
pub open spec fn joined(base: Seq<u8>, name: Seq<u8>) -> Seq<u8> {
    if base.len() == 0 || base.last() == SEPARATOR {
        base + name
    } else {
        base.push(SEPARATOR) + name
    }
}

/// The index at which the final component of `path` begins: just behind the
/// last separator, or 0 where there is none.
pub open spec fn name_start(path: Seq<u8>) -> int
    decreases path.len(),
{
    if path.len() == 0 {
        0
    } else if path.last() == SEPARATOR {
        path.len() as int
    } else {
        name_start(path.drop_last())
    }
}

/// The final component of `path`: everything behind its last separator.
/// Empty where the path is empty or ends in a separator.
pub open spec fn file_name_of(path: Seq<u8>) -> Seq<u8> {
    path.subrange(name_start(path), path.len() as int)
}

/// `name_start` lies within the path, sits at the start or right behind a
/// separator, and no separator follows it.
pub proof fn lemma_name_start(path: Seq<u8>)
    ensures
        0 <= name_start(path) <= path.len(),
        name_start(path) == 0 || path[name_start(path) - 1] == SEPARATOR,
        forall|i: int| name_start(path) <= i < path.len() ==> path[i] != SEPARATOR,
    decreases path.len(),
{
    if path.len() > 0 && path.last() != SEPARATOR {
        let head = path.drop_last();
        lemma_name_start(head);
        assert forall|i: int| name_start(path) <= i < path.len() implies path[i] != SEPARATOR by {
            if i < head.len() {
                assert(path[i] == head[i]);
            }
        }
        if name_start(path) > 0 {
            assert(path[name_start(path) - 1] == head[name_start(head) - 1]);
        }
    }
}

/// Below a directory, a single component is its own file name.
pub proof fn lemma_file_name_of_joined(base: Seq<u8>, name: Seq<u8>)
    requires
        is_component(name),
    ensures
        file_name_of(joined(base, name)) == name,
{
    let path = joined(base, name);
    let cut = path.len() - name.len();
    lemma_name_start(path);
    assert(forall|i: int| 0 <= i < name.len() ==> path[cut + i] == name[i]);
    if name_start(path) > cut {
        assert(path[name_start(path) - 1] == name[name_start(path) - 1 - cut]);
    }
    if name_start(path) < cut {
        assert(path[cut - 1] == SEPARATOR);
    }
    assert(file_name_of(path) =~= name);
}

/// Appends `bytes` to `out`.
pub fn append(out: &mut Vec<u8>, bytes: &Vec<u8>)
    ensures
        final(out)@ == old(out)@ + bytes@,
{
    let ghost before = out@;
    let mut i: usize = 0;
    while i < bytes.len()
        invariant
            i <= bytes.len(),
            out@ == before + bytes@.subrange(0, i as int),
        decreases bytes.len() - i,
    {
        out.push(bytes[i]);
        i = i + 1;
        assert(out@ =~= before + bytes@.subrange(0, i as int));
    }
    assert(bytes@.subrange(0, bytes.len() as int) =~= bytes@);
}

/// A copy of `bytes`.
pub fn duplicate(bytes: &Vec<u8>) -> (out: Vec<u8>)
    ensures
        out@ == bytes@,
{
    let mut out: Vec<u8> = Vec::new();
    append(&mut out, bytes);
    assert(Seq::<u8>::empty() + bytes@ =~= bytes@);
    out
}

/// Joins `name` below `base`.
pub fn join(base: &Vec<u8>, name: &Vec<u8>) -> (out: Vec<u8>)
    ensures
        out@ == joined(base@, name@),
{
    let mut out = duplicate(base);
    if base.len() > 0 && base[base.len() - 1] != SEPARATOR {
        out.push(SEPARATOR);
    }
    append(&mut out, name);
    out
}

/// The final component of `path`.
pub fn file_name(path: &Vec<u8>) -> (out: Vec<u8>)
    ensures
        out@ == file_name_of(path@),
{
    let mut start: usize = path.len();
    assert(path@.subrange(0, start as int) =~= path@);
    while start > 0 && path[start - 1] != SEPARATOR
        invariant
            start <= path.len(),
            name_start(path@.subrange(0, start as int)) == name_start(path@),
        decreases start,
    {
        proof {
            let head = path@.subrange(0, start as int);
            assert(head.drop_last() =~= path@.subrange(0, start - 1));
        }
        start = start - 1;
    }
    proof {
        assert(path@.subrange(0, path.len() as int) =~= path@);
        let head = path@.subrange(0, start as int);
        assert(name_start(head) == start);
    }
    let mut out: Vec<u8> = Vec::new();
    let mut i: usize = start;
    while i < path.len()
        invariant
            start <= i <= path.len(),
            out@ == path@.subrange(start as int, i as int),
        decreases path.len() - i,
    {
        out.push(path[i]);
        i = i + 1;
        assert(out@ =~= path@.subrange(start as int, i as int));
    }
    out
}

} // verus!
