//! The names of the files in a data directory.

use vstd::prelude::*;

use crate::text::{concat, concat3};

verus! {

/// The path of a file in a directory.
pub open spec fn joined(dir: Seq<char>, file: Seq<char>) -> Seq<char> {
    if dir.len() == 0 {
        file
    } else if dir.last() == '/' {
        dir + file
    } else {
        dir + "/"@ + file
    }
}

/// The path of a file in a directory.
pub fn join_path(dir: &str, file: &str) -> (r: String)
    ensures
        r@ == joined(dir@, file@),
{
    let v = crate::text::chars_of(dir);
    if v.len() == 0 {
        file.to_owned()
    } else if v[v.len() - 1] == '/' {
        concat(dir, file)
    } else {
        concat3(dir, "/", file)
    }
}

/// A path without the separators and the `/.` at its end, which mean nothing there. The
/// root stays.
pub open spec fn path_core(path: Seq<char>) -> Seq<char>
    decreases path.len(),
{
    let n = path.len() as int;
    if n > 1 && path[n - 1] == '/' {
        path_core(path.drop_last())
    } else if n > 1 && path[n - 1] == '.' && path[n - 2] == '/' {
        path_core(path.drop_last())
    } else {
        path
    }
}

/// The length of a path up to and with its last separator.
pub open spec fn last_separator(path: Seq<char>) -> nat
    decreases path.len(),
{
    if path.len() == 0 {
        0
    } else if path.last() == '/' {
        path.len()
    } else {
        last_separator(path.drop_last())
    }
}

/// The directory that a path lies in. The root lies in none, and neither does the empty
/// path.
pub open spec fn parent(path: Seq<char>) -> Option<Seq<char>> {
    let core = path_core(path);
    if core.len() == 0 || core == seq!['/'] {
        None
    } else {
        Some(path_core(core.take(last_separator(core) as int)))
    }
}

/// How long a path is without the separators and the `/.` at its end.
fn core_len(v: &Vec<char>, n: usize) -> (r: usize)
    requires
        n <= v@.len(),
    ensures
        r <= n,
        v@.take(r as int) == path_core(v@.take(n as int)),
{
    let mut m: usize = n;
    while m > 1 && (v[m - 1] == '/' || (v[m - 1] == '.' && v[m - 2] == '/'))
        invariant
            m <= n <= v@.len(),
            path_core(v@.take(m as int)) == path_core(v@.take(n as int)),
        decreases m,
    {
        assert(v@.take(m as int).drop_last() =~= v@.take(m - 1));
        m = m - 1;
    }
    m
}

/// The directory that a path lies in.
pub fn parent_of(path: &str) -> (r: Option<String>)
    ensures
        r.deep_view() == parent(path@),
{
    let v = crate::text::chars_of(path);
    assert(v@.take(v@.len() as int) =~= path@);
    let n: usize = core_len(&v, v.len());
    let ghost core = v@.take(n as int);
    if n == 0 || (n == 1 && v[0] == '/') {
        assert(n == 1 ==> core =~= seq!['/']);
        return None;
    }
    assert(core != seq!['/']) by {
        if core =~= seq!['/'] {
            assert(core[0] == '/');
        }
    }
    let mut m: usize = n;
    while m > 0 && v[m - 1] != '/'
        invariant
            m <= n <= v@.len(),
            last_separator(v@.take(m as int)) == last_separator(v@.take(n as int)),
        decreases m,
    {
        assert(v@.take(m as int).drop_last() =~= v@.take(m - 1));
        m = m - 1;
    }
    assert(core.take(m as int) =~= v@.take(m as int));
    let k: usize = core_len(&v, m);
    assert(v@.subrange(0, k as int) =~= v@.take(k as int));
    Some(crate::text::string_of(&v, 0, k))
}

} // verus!
