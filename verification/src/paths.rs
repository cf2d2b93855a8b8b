//! Destination paths for received files.
//!
//! A peer chooses the name of every file it sends. A name is only accepted
//! if the path built from it cannot leave the output directory.

use vstd::prelude::*;
use crate::text::{chars_of, string_of};

verus! {

/// Whether `c` separates the components of a path.
pub open spec fn is_separator(c: char) -> bool {
    c == '/' || c == '\\'
}

/// Whether `c` may not occur in a file name at all: the drive and stream
/// marker, and the character that ends a C string.
pub open spec fn is_forbidden(c: char) -> bool {
    c == ':' || c == '\0'
}

/// Whether a component `..` starts at position `i` of `name`.
pub open spec fn parent_component_at(name: Seq<char>, i: int) -> bool {
    &&& 0 <= i
    &&& i + 1 < name.len()
    &&& name[i] == '.'
    &&& name[i + 1] == '.'
    &&& (i == 0 || is_separator(name[i - 1]))
    &&& (i + 2 == name.len() || is_separator(name[i + 2]))
}

/// Whether `name` is a relative path without a `..` component and without
/// forbidden characters.
pub open spec fn is_safe_name(name: Seq<char>) -> bool {
    &&& name.len() > 0
    &&& !is_separator(name[0])
    &&& forall|i: int| 0 <= i < name.len() ==> !is_forbidden(#[trigger] name[i])
    &&& forall|i: int| 0 <= i < name.len() ==> !#[trigger] parent_component_at(name, i)
}

/// The path of `name` under the directory `dir`.
pub open spec fn joined(dir: Seq<char>, name: Seq<char>) -> Seq<char> {
    if dir.len() == 0 {
        name
    } else if is_separator(dir.last()) {
        dir + name
    } else {
        dir.push('/') + name
    }
}

fn is_separator_char(c: char) -> (sep: bool)
    ensures
        sep == is_separator(c),
{
    c == '/' || c == '\\'
}

/// Whether `name` may be used as the name of a received file.
pub fn is_safe_file_name(name: &str) -> (safe: bool)
    ensures
        safe == is_safe_name(name@),
{
    let chars = chars_of(name);
    let n = chars.len();
    if n == 0 {
        return false;
    }
    if is_separator_char(chars[0]) {
        return false;
    }
    let mut i: usize = 0;
    while i < n
        invariant
            n == chars@.len(),
            chars@ == name@,
            i <= n,
            forall|j: int| 0 <= j < i ==> !is_forbidden(#[trigger] chars@[j]),
            forall|j: int| 0 <= j < i ==> !#[trigger] parent_component_at(chars@, j),
        decreases n - i,
    {
        let c = chars[i];
        if c == ':' || c == '\0' {
            return false;
        }
        if c == '.' && i + 1 < n && chars[i + 1] == '.' {
            let starts = i == 0 || is_separator_char(chars[i - 1]);
            let ends = i + 2 == n || is_separator_char(chars[i + 2]);
            if starts && ends {
                proof {
                    assert(parent_component_at(chars@, i as int));
                }
                return false;
            }
        }
        i = i + 1;
    }
    true
}

/// Joins `name` to the directory `dir`.
pub fn join_path(dir: &str, name: &str) -> (path: String)
    ensures
        path@ == joined(dir@, name@),
{
    let mut chars = chars_of(dir);
    let tail = chars_of(name);
    let n = chars.len();
    if n > 0 && !is_separator_char(chars[n - 1]) {
        chars.push('/');
    }
    let mut i: usize = 0;
    let ghost head = chars@;
    while i < tail.len()
        invariant
            i <= tail@.len(),
            chars@ == head + tail@.subrange(0, i as int),
        decreases tail@.len() - i,
    {
        chars.push(tail[i]);
        proof {
            assert(chars@ =~= head + tail@.subrange(0, i + 1));
        }
        i = i + 1;
    }
    proof {
        assert(tail@.subrange(0, i as int) =~= tail@);
        assert(chars@ =~= joined(dir@, name@));
    }
    string_of(chars.as_slice())
}

/// A path built from a safe name starts with the directory, and no `..`
/// component begins in the part that the name contributed: the path cannot
/// climb out of the directory.
pub proof fn lemma_safe_name_stays_inside(dir: Seq<char>, name: Seq<char>)
    requires
        is_safe_name(name),
    ensures
        joined(dir, name).len() >= dir.len(),
        joined(dir, name).subrange(0, dir.len() as int) == dir,
        forall|i: int|
            dir.len() <= i < joined(dir, name).len() ==> !#[trigger] parent_component_at(
                joined(dir, name),
                i,
            ),
{
    let path = joined(dir, name);
    let base = path.len() - name.len();
    assert(path.subrange(0, dir.len() as int) =~= dir);
    assert forall|i: int| dir.len() <= i < path.len() implies !#[trigger] parent_component_at(
        path,
        i,
    ) by {
        if i >= base {
            let k = i - base;
            assert(forall|j: int| 0 <= j < name.len() ==> path[base + j] == name[j]);
            if parent_component_at(path, i) {
                assert(path[i] == name[k]);
                assert(path[i + 1] == name[k + 1]);
                if k > 0 {
                    assert(path[i - 1] == name[k - 1]);
                }
                if k + 2 < name.len() {
                    assert(path[i + 2] == name[k + 2]);
                }
                assert(parent_component_at(name, k));
            }
        } else {
            assert(path[i] == '/');
        }
    }
}

} // verus!
