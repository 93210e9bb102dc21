//! File names, stems and extensions of asset paths.
//!
//! A path is a text whose directories are separated by `/`. Its file name is
//! what follows the last `/`; an empty name, `.` and `..` are no file names.
//! The extension is what follows the last `.` of the file name, unless that
//! `.` is the name's first character; the stem is the file name without the
//! `.` and the extension.

use crate::cache::opt_view;
use vstd::prelude::*;

verus! {

/// The position at which the file name of `path` starts: behind the last
/// `/`, or 0 if there is none.
pub open spec fn name_start(path: Seq<char>) -> int
    decreases path.len(),
{
    if path.len() == 0 {
        0
    } else if path.last() == '/' {
        path.len() as int
    } else {
        name_start(path.drop_last())
    }
}

/// What follows the last `/` of `path`.
pub open spec fn file_name(path: Seq<char>) -> Seq<char> {
    path.skip(name_start(path))
}

/// The position of the last `.` of `name`, or -1 if there is none.
pub open spec fn last_dot(name: Seq<char>) -> int
    decreases name.len(),
{
    if name.len() == 0 {
        -1
    } else if name.last() == '.' {
        name.len() - 1
    } else {
        last_dot(name.drop_last())
    }
}

/// Whether `name` names a file: it is not empty and neither `.` nor `..`.
pub open spec fn is_file_name(name: Seq<char>) -> bool {
    &&& name.len() > 0
    &&& !(name.len() == 1 && name[0] == '.')
    &&& !(name.len() == 2 && name[0] == '.' && name[1] == '.')
}

/// The extension of `path`, if it has one.
pub open spec fn extension_of(path: Seq<char>) -> Option<Seq<char>> {
    let name = file_name(path);
    let dot = last_dot(name);
    if is_file_name(name) && dot > 0 {
        Some(name.skip(dot + 1))
    } else {
        None
    }
}

/// The stem of `path`, if it has a file name.
pub open spec fn stem_of(path: Seq<char>) -> Option<Seq<char>> {
    let name = file_name(path);
    let dot = last_dot(name);
    if !is_file_name(name) {
        None
    } else if dot > 0 {
        Some(name.take(dot))
    } else {
        Some(name)
    }
}

/// A path with an extension has a stem.
pub proof fn lemma_extension_implies_stem(path: Seq<char>)
    requires
        extension_of(path) is Some,
    ensures
        stem_of(path) is Some,
{
}

/// Where the file name of a path starts, where it ends, and where its last
/// `.` is.
struct NameBounds {
    start: usize,
    end: usize,
    dot: Option<usize>,
}

/// Finds the file name of `path` and the last `.` in it.
fn name_bounds(path: &str) -> (b: NameBounds)
    ensures
        b.start == name_start(path@),
        b.end == path@.len(),
        b.start <= b.end,
        match b.dot {
            Some(d) => b.start <= d < b.end && last_dot(file_name(path@)) == d - b.start,
            None => last_dot(file_name(path@)) == -1,
        },
{
    let n = path.unicode_len();
    let mut i: usize = n;
    proof {
        assert(path@.take(n as int) =~= path@);
    }
    while i > 0 && path.get_char(i - 1) != '/'
        invariant
            i <= n,
            n == path@.len(),
            name_start(path@) == name_start(path@.take(i as int)),
        decreases i,
    {
        proof {
            assert(path@.take(i as int).drop_last() =~= path@.take(i - 1));
        }
        i -= 1;
    }
    let start = i;
    let ghost name = file_name(path@);
    let mut j: usize = n;
    proof {
        assert(name.take(n - start) =~= name);
    }
    while j > start && path.get_char(j - 1) != '.'
        invariant
            start <= j <= n,
            n == path@.len(),
            start == name_start(path@),
            name == path@.skip(start as int),
            last_dot(name) == last_dot(name.take(j - start)),
        decreases j,
    {
        proof {
            assert(name.take(j - start).drop_last() =~= name.take(j - start - 1));
        }
        j -= 1;
    }
    if j > start {
        NameBounds { start, end: n, dot: Some(j - 1) }
    } else {
        NameBounds { start, end: n, dot: None }
    }
}

/// Whether what lies between `start` and `end` names a file.
fn names_file(path: &str, start: usize, end: usize) -> (b: bool)
    requires
        start <= end,
        end == path@.len(),
    ensures
        b == is_file_name(path@.skip(start as int)),
{
    let len = end - start;
    if len == 0 {
        false
    } else if len == 1 {
        path.get_char(start) != '.'
    } else if len == 2 {
        !(path.get_char(start) == '.' && path.get_char(start + 1) == '.')
    } else {
        true
    }
}

/// The extension of `path`: what follows the last `.` of its file name.
/// A path without a file name, a file name without a `.` and one whose only
/// `.` is its first character have no extension.
pub fn extension(path: &str) -> (r: Option<String>)
    ensures
        opt_view(r) == extension_of(path@),
{
    let b = name_bounds(path);
    if !names_file(path, b.start, b.end) {
        return None;
    }
    match b.dot {
        Some(d) => {
            if d > b.start {
                let text = path.substring_char(d + 1, b.end);
                Some(text.to_owned())
            } else {
                None
            }
        },
        None => None,
    }
}

/// The stem of `path`: its file name without the last `.` and what follows
/// it. A path without a file name has no stem.
pub fn file_stem(path: &str) -> (r: Option<String>)
    ensures
        opt_view(r) == stem_of(path@),
{
    let b = name_bounds(path);
    if !names_file(path, b.start, b.end) {
        return None;
    }
    let stem_end = match b.dot {
        Some(d) => if d > b.start {
            d
        } else {
            b.end
        },
        None => b.end,
    };
    let text = path.substring_char(b.start, stem_end);
    Some(text.to_owned())
}

} // verus!
