use crate::text::{after_last, chars_of, last_index_of, last_index_of_bounds};
use vstd::prelude::*;

verus! {

/// Length of `path[..end]` once trailing separators and trailing `/.` components are dropped.
pub open spec fn trimmed_end(path: Seq<char>, end: int) -> int
    decreases end,
{
    if end <= 0 {
        0
    } else if path[end - 1] == '/' {
        trimmed_end(path, end - 1)
    } else if path[end - 1] == '.' && end >= 2 && path[end - 2] == '/' {
        trimmed_end(path, end - 2)
    } else {
        end
    }
}

/// Where the final component of a `/`-separated path lies: `(start, end)`.
///
/// There is none for an empty path, a bare root, and a path that ends in `.`
/// (standing alone) or `..`.
pub open spec fn file_name_range(path: Seq<char>) -> Option<(int, int)> {
    let end = trimmed_end(path, path.len() as int);
    let start = last_index_of(path, '/', end) + 1;
    let name = path.subrange(start, end);
    if end == 0 || name == seq!['.'] || name == seq!['.', '.'] {
        None
    } else {
        Some((start, end))
    }
}

/// Where the final component splits into stem and extension: the position of
/// its last `.`, unless that dot is missing or leads the name.
pub open spec fn extension_dot(path: Seq<char>) -> Option<int> {
    match file_name_range(path) {
        None => None,
        Some((start, end)) => {
            let dot = last_index_of(path, '.', end);
            if dot > start {
                Some(dot)
            } else {
                None
            }
        },
    }
}

/// The final component without its extension.
pub open spec fn file_stem_of(path: Seq<char>) -> Option<Seq<char>> {
    match file_name_range(path) {
        None => None,
        Some((start, end)) => match extension_dot(path) {
            None => Some(path.subrange(start, end)),
            Some(dot) => Some(path.subrange(start, dot)),
        },
    }
}

/// What follows the last `.` of the final component; it may be empty.
pub open spec fn file_extension_of(path: Seq<char>) -> Option<Seq<char>> {
    match file_name_range(path) {
        None => None,
        Some((start, end)) => match extension_dot(path) {
            None => None,
            Some(dot) => Some(path.subrange(dot + 1, end)),
        },
    }
}

proof fn trimmed_end_bounds(path: Seq<char>, end: int)
    requires
        0 <= end <= path.len(),
    ensures
        0 <= trimmed_end(path, end) <= end,
    decreases end,
{
    if end > 0 {
        if path[end - 1] == '/' {
            trimmed_end_bounds(path, end - 1);
        } else if path[end - 1] == '.' && end >= 2 && path[end - 2] == '/' {
            trimmed_end_bounds(path, end - 2);
        }
    }
}

fn name_range(v: &Vec<char>) -> (r: Option<(usize, usize)>)
    ensures
        match r {
            None => file_name_range(v@) is None,
            Some((s, e)) => file_name_range(v@) == Some((s as int, e as int)) && s < e <= v.len(),
        },
{
    let mut end: usize = v.len();
    loop
        invariant
            end <= v.len(),
            trimmed_end(v@, v.len() as int) == trimmed_end(v@, end as int),
        ensures
            end <= v.len(),
            trimmed_end(v@, v.len() as int) == end,
            end > 0 ==> v@[end - 1] != '/',
        decreases end,
    {
        if end == 0 {
            break ;
        } else if v[end - 1] == '/' {
            end -= 1;
        } else if v[end - 1] == '.' && end >= 2 && v[end - 2] == '/' {
            end -= 2;
        } else {
            break ;
        }
    }
    let start: usize = after_last(v, '/', end);
    let ghost name = v@.subrange(start as int, end as int);
    if end == 0 {
        return None;
    }
    if end - start == 1 && v[start] == '.' {
        assert(name =~= seq!['.']);
        return None;
    }
    if end - start == 2 && v[start] == '.' && v[start + 1] == '.' {
        assert(name =~= seq!['.', '.']);
        return None;
    }
    proof {
        last_index_of_bounds(v@, '/', end as int);
        if start == end {
            assert(v@[end - 1] == '/');
        }
        assert(name.len() == end - start);
        if name == seq!['.'] {
            assert(name[0] == v@[start as int]);
        }
        if name == seq!['.', '.'] {
            assert(name[0] == v@[start as int] && name[1] == v@[start + 1]);
        }
    }
    Some((start, end))
}

fn split_name(v: &Vec<char>) -> (r: Option<(usize, usize, Option<usize>)>)
    ensures
        match r {
            None => file_name_range(v@) is None,
            Some((s, e, d)) => {
                &&& file_name_range(v@) == Some((s as int, e as int))
                &&& s < e <= v.len()
                &&& match d {
                    None => extension_dot(v@) is None,
                    Some(dot) => extension_dot(v@) == Some(dot as int) && s < dot < e,
                }
            },
        },
{
    match name_range(v) {
        None => None,
        Some((start, end)) => {
            let after: usize = after_last(v, '.', end);
            proof {
                last_index_of_bounds(v@, '.', end as int);
            }
            if after >= 2 && after - 2 >= start {
                Some((start, end, Some(after - 1)))
            } else {
                Some((start, end, None))
            }
        },
    }
}

/// The stem of a file name or path: its final component up to, not including,
/// the last dot. A name without a dot, or whose only dot leads it, is its own
/// stem.
pub fn file_stem(file_name: &str) -> (r: Option<&str>)
    ensures
        match r {
            None => file_stem_of(file_name@) is None,
            Some(stem) => file_stem_of(file_name@) == Some(stem@),
        },
{
    let v = chars_of(file_name);
    match split_name(&v) {
        None => None,
        Some((start, _, Some(dot))) => Some(file_name.substring_char(start, dot)),
        Some((start, end, None)) => Some(file_name.substring_char(start, end)),
    }
}

/// The extension of a file name or path: what follows the last dot of its
/// final component, where that dot does not lead the name.
pub fn file_extension(file_name: &str) -> (r: Option<&str>)
    ensures
        match r {
            None => file_extension_of(file_name@) is None,
            Some(ext) => file_extension_of(file_name@) == Some(ext@),
        },
{
    let v = chars_of(file_name);
    match split_name(&v) {
        None => None,
        Some((_, end, Some(dot))) => Some(file_name.substring_char(dot + 1, end)),
        Some((_, _, None)) => None,
    }
}

/// Where a path has an extension, its final component is the stem, a dot
/// and the extension, and the extension holds no dot; where it has a final
/// component but no extension, the stem is that component.
pub proof fn stem_and_extension_make_the_name(path: Seq<char>)
    ensures
        file_name_range(path) is None ==> file_stem_of(path) is None && file_extension_of(path)
            is None,
        file_name_range(path) matches Some((start, end)) ==> {
            &&& 0 <= start < end <= path.len()
            &&& file_stem_of(path) is Some
            &&& !path.subrange(start, end).contains('/')
            &&& match file_extension_of(path) {
                Some(extension) => {
                    &&& path.subrange(start, end) == file_stem_of(path)->0 + seq!['.'] + extension
                    &&& file_stem_of(path)->0.len() > 0
                    &&& !extension.contains('.')
                },
                None => file_stem_of(path)->0 == path.subrange(start, end),
            }
        },
{
    match file_name_range(path) {
        None => {},
        Some((start, end)) => {
            trimmed_end_bounds(path, path.len() as int);
            last_index_of_bounds(path, '/', end);
            last_index_of_is_last(path, '/', end);
            last_index_of_bounds(path, '.', end);
            last_index_of_is_last(path, '.', end);
            let name = path.subrange(start, end);
            if start == end {
                assert(end > 0);
                trimmed_end_stops(path, path.len() as int);
            }
            assert forall|i: int| 0 <= i < name.len() implies name[i] != '/' by {
                assert(name[i] == path[start + i]);
            }
            match extension_dot(path) {
                None => {},
                Some(dot) => {
                    let stem = path.subrange(start, dot);
                    let extension = path.subrange(dot + 1, end);
                    assert(name =~= stem + seq!['.'] + extension);
                    assert forall|i: int| 0 <= i < extension.len() implies extension[i]
                        != '.' by {
                        assert(extension[i] == path[dot + 1 + i]);
                    }
                },
            }
        },
    }
}

/// Nothing after the position that `last_index_of` gives is the character
/// looked for.
pub proof fn last_index_of_is_last(s: Seq<char>, c: char, end: int)
    requires
        0 <= end <= s.len(),
    ensures
        forall|i: int| last_index_of(s, c, end) < i < end ==> s[i] != c,
    decreases end,
{
    if end > 0 && s[end - 1] != c {
        last_index_of_is_last(s, c, end - 1);
    }
}

proof fn trimmed_end_stops(path: Seq<char>, end: int)
    requires
        0 <= end <= path.len(),
    ensures
        trimmed_end(path, end) > 0 ==> path[trimmed_end(path, end) - 1] != '/',
    decreases end,
{
    if end > 0 {
        if path[end - 1] == '/' {
            trimmed_end_stops(path, end - 1);
        } else if path[end - 1] == '.' && end >= 2 && path[end - 2] == '/' {
            trimmed_end_stops(path, end - 2);
        }
    }
}

} // verus!
