//! Full paths: how a path names a file and the place where it is kept.

use vstd::prelude::*;

verus! {

/// The character that separates the segments of a full path.
pub const SEPARATOR: char = '/';

/// The index of the last separator in `path`, or -1 where it holds none.
pub open spec fn last_separator(path: Seq<char>) -> int
    decreases path.len(),
{
    if path.len() == 0 {
        -1
    } else if path.last() == SEPARATOR {
        path.len() - 1
    } else {
        last_separator(path.drop_last())
    }
}

/// What `last_separator` finds: a separator with none behind it, or -1 where
/// the path holds none at all.
pub proof fn lemma_last_separator(path: Seq<char>)
    ensures
        -1 <= last_separator(path) < path.len(),
        last_separator(path) >= 0 ==> path[last_separator(path)] == SEPARATOR,
        forall|j: int| last_separator(path) < j < path.len() ==> path[j] != SEPARATOR,
    decreases path.len(),
{
    if path.len() > 0 && path.last() != SEPARATOR {
        let front = path.drop_last();
        lemma_last_separator(front);
        assert forall|j: int| last_separator(path) < j < path.len() implies path[j]
            != SEPARATOR by {
            if j < front.len() {
                assert(front[j] == path[j]);
            }
        }
    }
}

/// An index that holds a separator with none behind it is the last separator.
pub proof fn lemma_last_separator_is(path: Seq<char>, i: int)
    requires
        -1 <= i < path.len(),
        i >= 0 ==> path[i] == SEPARATOR,
        forall|j: int| i < j < path.len() ==> path[j] != SEPARATOR,
    ensures
        last_separator(path) == i,
{
    lemma_last_separator(path);
}

/// Whether `path` names a file: it holds a separator, and its last separator
/// has at least one character behind it.
pub open spec fn names_a_file(path: Seq<char>) -> bool {
    0 <= last_separator(path) && last_separator(path) + 1 < path.len()
}

/// The final segment of `path`: what follows its last separator.
pub open spec fn file_name_of(path: Seq<char>) -> Seq<char> {
    path.skip(last_separator(path) + 1)
}

/// The directory portion of `path`: what stands before its last separator,
/// or the root where that separator opens the path.
pub open spec fn storage_location_of(path: Seq<char>) -> Seq<char> {
    if last_separator(path) == 0 {
        path.take(1)
    } else {
        path.take(last_separator(path))
    }
}

/// The two parts of a path that names a file; `None` for any other path.
pub open spec fn path_parts(path: Seq<char>) -> Option<(Seq<char>, Seq<char>)> {
    if names_a_file(path) {
        Some((storage_location_of(path), file_name_of(path)))
    } else {
        None
    }
}

/// Splits a full path into the place where the file is kept and the file's
/// name. A path without a separator has no place, and one that ends in a
/// separator has no name: neither names a file.
pub fn split_full_path(path: &str) -> (parts: Option<(String, String)>)
    ensures
        match parts {
            Some((location, name)) => path_parts(path@) == Some((location@, name@)),
            None => path_parts(path@) is None,
        },
{
    let total = path.unicode_len();
    let mut cut: Option<usize> = None;
    let mut seen: usize = 0;
    for c in it: path.chars()
        invariant
            it.seq() == path@,
            seen == it.index(),
            seen <= total,
            total == path@.len(),
            match cut {
                Some(i) => i as int == last_separator(path@.take(seen as int)),
                None => last_separator(path@.take(seen as int)) == -1,
            },
    {
        proof {
            let before = path@.take(seen as int);
            let after = path@.take(seen + 1);
            assert(after.drop_last() == before);
            assert(after.last() == c);
        }
        if c == SEPARATOR {
            cut = Some(seen);
        }
        seen = seen + 1;
    }
    proof {
        assert(path@.take(seen as int) == path@);
        lemma_last_separator(path@);
    }
    match cut {
        None => None,
        Some(i) => {
            if i + 1 >= total {
                return None;
            }
            let location_end: usize = if i == 0 {
                1
            } else {
                i
            };
            let location = path.substring_char(0, location_end).to_owned();
            let name = path.substring_char(i + 1, total).to_owned();
            Some((location, name))
        },
    }
}

} // verus!
