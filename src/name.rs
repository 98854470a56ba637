use vstd::prelude::*;
use vstd::string::*;

use crate::text::str_equals;

verus! {

/// Index of the last `.` in `s`, or -1 where there is none.
pub open spec fn last_dot(s: Seq<char>) -> int
    decreases s.len(),
{
    if s.len() == 0 {
        -1
    } else if s.last() == '.' {
        s.len() - 1
    } else {
        last_dot(s.drop_last())
    }
}

/// Whether the name has an extension: a `.` after its first character, and
/// the name is not `..`.
pub open spec fn has_ext(name: Seq<char>) -> bool {
    last_dot(name) > 0 && name != ".."@
}

/// The part of a file name before its extension: all of it when it has none.
pub open spec fn stem_of(name: Seq<char>) -> Seq<char> {
    if has_ext(name) {
        name.subrange(0, last_dot(name))
    } else {
        name
    }
}

/// The text after the last `.` of a name that has an extension.
pub open spec fn ext_of(name: Seq<char>) -> Option<Seq<char>> {
    if has_ext(name) {
        Some(name.subrange(last_dot(name) + 1, name.len() as int))
    } else {
        None
    }
}

/// The last dot, where there is one, lies inside the name.
pub proof fn lemma_last_dot_range(s: Seq<char>)
    ensures
        -1 <= last_dot(s) < s.len(),
    decreases s.len(),
{
    if s.len() > 0 && s.last() != '.' {
        lemma_last_dot_range(s.drop_last());
    }
}

proof fn lemma_last_dot_from(s: Seq<char>, k: int)
    requires
        -1 <= k < s.len(),
        k >= 0 ==> s[k] == '.',
        forall|j: int| k < j < s.len() ==> s[j] != '.',
    ensures
        last_dot(s) == k,
    decreases s.len(),
{
    if s.len() > 0 && s.last() != '.' {
        lemma_last_dot_from(s.drop_last(), k);
    }
}

/// A file name split into stem and optional extension.
pub struct NameParts {
    pub stem: String,
    pub ext: Option<String>,
}

/// Splits a file name at its last `.`, as a path's stem and extension are
/// taken: a leading `.` starts no extension, and `..` has none.
pub fn split_name(name: &str) -> (r: NameParts)
    ensures
        r.stem@ == stem_of(name@),
        match r.ext {
            Some(e) => ext_of(name@) == Some(e@),
            None => ext_of(name@).is_none(),
        },
{
    let n = name.unicode_len();
    let mut i: usize = n;
    let mut dot: Option<usize> = None;
    while i > 0 && dot.is_none()
        invariant
            n == name@.len(),
            i <= n,
            dot.is_none() ==> forall|j: int| i <= j < n ==> name@[j] != '.',
            dot.is_some() ==> {
                let d = dot.unwrap() as int;
                &&& d < n
                &&& name@[d] == '.'
                &&& forall|j: int| d < j < n ==> name@[j] != '.'
            },
        decreases i,
    {
        i = i - 1;
        if name.get_char(i) == '.' {
            dot = Some(i);
        }
    }
    proof {
        match dot {
            Some(d) => lemma_last_dot_from(name@, d as int),
            None => lemma_last_dot_from(name@, -1),
        }
    }
    match dot {
        Some(d) => {
            if d == 0 || str_equals(name, "..") {
                NameParts { stem: String::from_str(name), ext: None }
            } else {
                let stem = String::from_str(name.substring_char(0, d));
                let ext = String::from_str(name.substring_char(d + 1, n));
                NameParts { stem, ext: Some(ext) }
            }
        },
        None => NameParts { stem: String::from_str(name), ext: None },
    }
}

} // verus!
