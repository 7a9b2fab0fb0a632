//! Path strings and the environment values the game sources are configured
//! from.
//!
//! A path is its text. Paths are taken as the directory walk produces them:
//! `/`-separated, without repeated or trailing separators. On such paths the
//! functions here agree with `std::path::Path`.
use vstd::prelude::*;

use crate::system::strings;
use crate::text::{chars_of, opt_str, owned, push_char, slice_chars, split_chars, split_on, string_of};

verus! {

broadcast use vstd::string::group_string_axioms;

/// Index of the last `c` in `s`, or -1.
pub open spec fn last_index_of(s: Seq<char>, c: char) -> int
    decreases s.len(),
{
    if s.len() == 0 {
        -1
    } else if s.last() == c {
        s.len() - 1
    } else {
        last_index_of(s.drop_last(), c)
    }
}

proof fn lemma_last_index_bounds(s: Seq<char>, c: char)
    ensures
        -1 <= last_index_of(s, c) < s.len(),
        last_index_of(s, c) >= 0 ==> s[last_index_of(s, c)] == c,
        forall|j: int| last_index_of(s, c) < j < s.len() ==> s[j] != c,
    decreases s.len(),
{
    if s.len() > 0 && s.last() != c {
        lemma_last_index_bounds(s.drop_last(), c);
        assert forall|j: int| last_index_of(s, c) < j < s.len() implies s[j] != c by {
            if j < s.len() - 1 {
                assert(s.drop_last()[j] == s[j]);
            }
        }
    }
}

/// Index of the last `c` in `v`, as [`last_index_of`].
pub fn last_index_of_char(v: &Vec<char>, c: char) -> (r: Option<usize>)
    ensures
        match r {
            Some(i) => i < v@.len() && last_index_of(v@, c) == i,
            None => last_index_of(v@, c) == -1,
        },
{
    let mut k = v.len();
    assert(v@.take(k as int) == v@);
    while k > 0
        invariant
            k <= v@.len(),
            last_index_of(v@, c) == last_index_of(v@.take(k as int), c),
        decreases k,
    {
        assert(v@.take(k as int).drop_last() == v@.take(k - 1));
        if v[k - 1] == c {
            return Some(k - 1);
        }
        k = k - 1;
    }
    None
}

/// `Path::push`/`join` with a path: an absolute `rel` replaces `base`;
/// otherwise a separator is put between them unless `base` is empty or
/// already ends in one.
pub open spec fn join_path(base: Seq<char>, rel: Seq<char>) -> Seq<char> {
    if rel.len() > 0 && rel[0] == '/' {
        rel
    } else if base.len() == 0 || base.last() == '/' {
        base + rel
    } else {
        base + "/"@ + rel
    }
}

/// `base.join(rel)`.
pub fn join(base: &str, rel: &str) -> (r: String)
    ensures
        r@ == join_path(base@, rel@),
{
    let b = chars_of(base);
    let rv = chars_of(rel);
    if rv.len() > 0 && rv[0] == '/' {
        return owned(rel);
    }
    let mut r = owned(base);
    if b.len() > 0 && b[b.len() - 1] != '/' {
        push_char(&mut r, '/');
        proof {
            reveal_strlit("/");
        }
    }
    r.append(rel);
    r
}

/// The final component of a path: the text after its last separator.
pub open spec fn file_name(path: Seq<char>) -> Seq<char> {
    path.skip(last_index_of(path, '/') + 1)
}

/// `Path::file_stem`: the file name without its extension; a leading dot
/// does not start an extension. None for an empty name, `.` or `..`.
pub open spec fn file_stem(path: Seq<char>) -> Option<Seq<char>> {
    let name = file_name(path);
    if name.len() == 0 || name == "."@ || name == ".."@ {
        None
    } else {
        let k = last_index_of(name, '.');
        if k <= 0 {
            Some(name)
        } else {
            Some(name.take(k))
        }
    }
}

/// `Path::extension`: the text after the last dot of the file name, when
/// that dot is not its first character.
pub open spec fn extension(path: Seq<char>) -> Option<Seq<char>> {
    let name = file_name(path);
    if name.len() == 0 || name == "."@ || name == ".."@ {
        None
    } else {
        let k = last_index_of(name, '.');
        if k <= 0 {
            None
        } else {
            Some(name.skip(k + 1))
        }
    }
}

/// `Path::parent`: the path without its final component; `/` for a child of
/// the root, the empty path for a bare relative name, None for the root and
/// the empty path.
pub open spec fn parent(path: Seq<char>) -> Option<Seq<char>> {
    let k = last_index_of(path, '/');
    if path.len() == 0 || path == "/"@ {
        None
    } else if k < 0 {
        Some(seq![])
    } else if k == 0 {
        Some("/"@)
    } else {
        Some(path.take(k))
    }
}

/// The characters of the file name of `path`.
fn file_name_chars(path: &Vec<char>) -> (r: Vec<char>)
    ensures
        r@ == file_name(path@),
{
    proof {
        lemma_last_index_bounds(path@, '/');
    }
    let n = path.len();
    let found = last_index_of_char(path, '/');
    match found {
        Some(k) => {
            assert(k < n);
            slice_chars(path, k + 1, n)
        },
        None => {
            assert(path@.skip(0) == path@);
            slice_chars(path, 0, path.len())
        },
    }
}

fn is_dot_name(name: &Vec<char>) -> (r: bool)
    ensures
        r == (name@.len() == 0 || name@ == "."@ || name@ == ".."@),
{
    let dot = crate::text::is_str(name, ".");
    let dots = crate::text::is_str(name, "..");
    name.len() == 0 || dot || dots
}

/// `path.file_stem()` as a string.
pub fn stem_of(path: &str) -> (r: Option<String>)
    ensures
        match r {
            Some(s) => file_stem(path@) == Some(s@),
            None => file_stem(path@) is None,
        },
{
    let v = chars_of(path);
    let name = file_name_chars(&v);
    if is_dot_name(&name) {
        return None;
    }
    match last_index_of_char(&name, '.') {
        Some(k) if k > 0 => {
            let s = slice_chars(&name, 0, k);
            Some(string_of(&s))
        },
        _ => Some(string_of(&name)),
    }
}

/// `path.extension()` as a string.
pub fn extension_of(path: &str) -> (r: Option<String>)
    ensures
        match r {
            Some(s) => extension(path@) == Some(s@),
            None => extension(path@) is None,
        },
{
    let v = chars_of(path);
    let name = file_name_chars(&v);
    if is_dot_name(&name) {
        return None;
    }
    proof {
        lemma_last_index_bounds(name@, '.');
    }
    let n = name.len();
    let found = last_index_of_char(&name, '.');
    match found {
        Some(k) if k > 0 => {
            assert(k < n);
            let s = slice_chars(&name, k + 1, n);
            Some(string_of(&s))
        },
        _ => None,
    }
}

/// `path.parent()` as a string.
pub fn parent_of(path: &str) -> (r: Option<String>)
    ensures
        match r {
            Some(s) => parent(path@) == Some(s@),
            None => parent(path@) is None,
        },
{
    let v = chars_of(path);
    if v.len() == 0 || crate::text::is_str(&v, "/") {
        return None;
    }
    proof {
        lemma_last_index_bounds(path@, '/');
    }
    match last_index_of_char(&v, '/') {
        None => Some(String::new()),
        Some(0) => Some(owned("/")),
        Some(k) => {
            let s = slice_chars(&v, 0, k);
            Some(string_of(&s))
        },
    }
}

/// The first of `paths` whose flag in `present` is set.
pub open spec fn first_present(paths: Seq<Seq<char>>, present: Seq<bool>, i: int) -> Option<Seq<char>>
    decreases paths.len() - i,
{
    if i < 0 || i >= paths.len() {
        None
    } else if present[i] {
        Some(paths[i])
    } else {
        first_present(paths, present, i + 1)
    }
}

/// Pick the first candidate path that exists: `present[i]` tells whether
/// `candidates[i]` names an existing file.
pub fn pick_present(candidates: &Vec<String>, present: &Vec<bool>) -> (r: Option<String>)
    requires
        candidates@.len() == present@.len(),
    ensures
        opt_str(r) == first_present(strings(candidates@), present@, 0),
{
    let mut i: usize = 0;
    while i < candidates.len()
        invariant
            i <= candidates@.len() == present@.len(),
            first_present(strings(candidates@), present@, 0) == first_present(strings(candidates@), present@, i as int),
        decreases candidates@.len() - i,
    {
        if present[i] {
            return Some(candidates[i].clone());
        }
        i = i + 1;
    }
    None
}

// --- Environment --------------------------------------------------------------------

/// The home directory used when `HOME` is unset.
pub open spec fn default_home() -> Seq<char> {
    "/home/deck"@
}

/// The home directory: `HOME` when set, else [`default_home`].
pub open spec fn home_spec(home: Option<Seq<char>>) -> Seq<char> {
    match home {
        Some(h) => h,
        None => default_home(),
    }
}

/// The home directory from the value of `HOME`.
pub fn home_dir(home: Option<&str>) -> (r: String)
    ensures
        r@ == home_spec(match home {
            Some(h) => Some(h@),
            None => None,
        }),
{
    match home {
        Some(h) => owned(h),
        None => owned("/home/deck"),
    }
}

/// The paths listed in a search-path variable (`std::env::split_paths` on
/// Unix: split at every `:`, empty entries kept); None when it is unset.
pub fn env_paths(raw: Option<&str>) -> (r: Option<Vec<String>>)
    ensures
        match raw {
            Some(s) => r matches Some(v) && strings(v@) == split_on(s@, ':'),
            None => r is None,
        },
{
    match raw {
        None => None,
        Some(s) => {
            let v = chars_of(s);
            let pieces = split_chars(&v, ':');
            let mut out: Vec<String> = Vec::new();
            let mut k: usize = 0;
            while k < pieces.len()
                invariant
                    k <= pieces@.len() == split_on(s@, ':').len(),
                    v@ == s@,
                    forall|i: int| 0 <= i < pieces@.len() ==> #[trigger] pieces@[i]@ == split_on(s@, ':')[i],
                    strings(out@) == split_on(s@, ':').take(k as int),
                decreases pieces@.len() - k,
            {
                out.push(string_of(&pieces[k]));
                assert(split_on(s@, ':').take(k + 1) == split_on(s@, ':').take(k as int).push(pieces@[k as int]@));
                assert(strings(out@) == split_on(s@, ':').take(k + 1));
                k = k + 1;
            }
            assert(split_on(s@, ':').take(k as int) == split_on(s@, ':'));
            Some(out)
        },
    }
}

} // verus!
