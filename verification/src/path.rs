//! File paths, written as text with `/` between the components.

use crate::text::{ascii_lower, pieces, same, same_ignoring_case, split, views};
use vstd::prelude::*;

verus! {

/// The named components of a path: empty ones and `.` stand for nothing.
pub open spec fn components(path: Seq<char>) -> Seq<Seq<char>> {
    pieces(path, '/').filter(|c: Seq<char>| c.len() > 0 && c != "."@)
}

/// The last component of a path, unless the path ends in `..` or names nothing.
pub open spec fn base_name(path: Seq<char>) -> Option<Seq<char>> {
    let named = components(path);
    if named.len() == 0 || named.last() == ".."@ {
        None
    } else {
        Some(named.last())
    }
}

/// What stands behind the last dot of the file name, where something stands before that dot.
pub open spec fn name_extension(path: Seq<char>) -> Option<Seq<char>> {
    match base_name(path) {
        None => None,
        Some(name) => {
            let parts = pieces(name, '.');
            if parts.len() == 1 || (parts.len() == 2 && parts[0].len() == 0) {
                None
            } else {
                Some(parts.last())
            }
        },
    }
}

/// The file `name` in the directory `dir`.
pub open spec fn joined(dir: Seq<char>, name: Seq<char>) -> Seq<char> {
    if dir.len() == 0 {
        name
    } else if dir.last() == '/' {
        dir + name
    } else {
        dir + "/"@ + name
    }
}

/// The file name of `path`, or nothing.
pub open spec fn base_name_or_empty(path: Seq<char>) -> Seq<char> {
    match base_name(path) {
        Some(name) => name,
        None => Seq::empty(),
    }
}

/// The path has the extension `ext`, whatever the case of its ASCII letters.
pub open spec fn has_extension(path: Seq<char>, ext: Seq<char>) -> bool {
    match name_extension(path) {
        Some(e) => ascii_lower(e) == ascii_lower(ext),
        None => false,
    }
}

/// The path without what stands for nothing at its end: slashes, and dots behind a slash. The
/// root keeps its slash.
pub open spec fn without_idle_end(path: Seq<char>) -> Seq<char>
    decreases path.len(),
{
    if path.len() > 1 && (path.last() == '/' || (path.last() == '.' && path[path.len() - 2]
        == '/')) {
        without_idle_end(path.drop_last())
    } else {
        path
    }
}

/// The path up to its last slash.
pub open spec fn up_to_slash(path: Seq<char>) -> Seq<char>
    decreases path.len(),
{
    if path.len() == 0 || path.last() == '/' {
        path
    } else {
        up_to_slash(path.drop_last())
    }
}

/// The path without its last component; none where it names nothing below a root.
pub open spec fn parent_of(path: Seq<char>) -> Option<Seq<char>> {
    let own = without_idle_end(path);
    if own.len() == 0 || own == seq!['/'] {
        None
    } else {
        Some(without_idle_end(up_to_slash(own)))
    }
}

/// The first `n` characters without what stands for nothing at their end.
fn drop_idle_end(path: &str, n: usize) -> (r: usize)
    requires
        n <= path@.len(),
    ensures
        r <= n,
        path@.take(r as int) == without_idle_end(path@.take(n as int)),
{
    let mut k: usize = n;
    while k > 1 && (path.get_char(k - 1) == '/' || (path.get_char(k - 1) == '.' && path.get_char(
        k - 2,
    ) == '/'))
        invariant
            k <= n <= path@.len(),
            without_idle_end(path@.take(k as int)) == without_idle_end(path@.take(n as int)),
        decreases k,
    {
        assert(path@.take(k as int).drop_last() =~= path@.take(k - 1));
        k = k - 1;
    }
    k
}

/// The path without its last component; none where it names nothing below a root.
pub fn parent(path: &str) -> (r: Option<&str>)
    ensures
        r is Some == parent_of(path@) is Some,
        r is Some ==> r->0@ == parent_of(path@)->0,
{
    let n: usize = path.unicode_len();
    assert(path@.take(n as int) =~= path@);
    let own: usize = drop_idle_end(path, n);
    let ghost whole = path@.take(own as int);
    if own == 0 {
        return None;
    }
    if own == 1 && path.get_char(0) == '/' {
        assert(whole =~= seq!['/']);
        return None;
    }
    let mut k: usize = own;
    while k > 0 && path.get_char(k - 1) != '/'
        invariant
            k <= own <= path@.len(),
            up_to_slash(path@.take(k as int)) == up_to_slash(path@.take(own as int)),
        decreases k,
    {
        assert(path@.take(k as int).drop_last() =~= path@.take(k - 1));
        k = k - 1;
    }
    let end: usize = drop_idle_end(path, k);
    assert(path@.subrange(0, end as int) =~= path@.take(end as int));
    Some(path.substring_char(0, end))
}

/// The last component of a path, unless the path ends in `..` or names nothing.
pub fn file_name(path: &str) -> (r: Option<&str>)
    ensures
        r is Some == base_name(path@) is Some,
        r is Some ==> r->0@ == base_name(path@)->0,
{
    let parts: Vec<&str> = split(path, '/');
    let ghost keep = |c: Seq<char>| c.len() > 0 && c != "."@;
    let ghost all = views(parts@);
    let mut found: Option<&str> = None;
    let mut i: usize = 0;
    proof {
        reveal(Seq::filter);
    }
    while i < parts.len()
        invariant
            keep == (|c: Seq<char>| c.len() > 0 && c != "."@),
            all == views(parts@),
            i <= parts@.len(),
            found is None ==> all.take(i as int).filter(keep).len() == 0,
            found is Some ==> all.take(i as int).filter(keep).len() > 0 && all.take(
                i as int,
            ).filter(keep).last() == found->0@,
        decreases parts@.len() - i,
    {
        let part: &str = parts[i];
        proof {
            assert(all[i as int] == part@);
            crate::text::lemma_filter_push(all.take(i as int), part@, keep);
            assert(all.take(i + 1) =~= all.take(i as int).push(part@));
        }
        if !part.is_empty() && !same(part, ".") {
            found = Some(part);
        }
        i = i + 1;
    }
    assert(all.take(i as int) =~= pieces(path@, '/'));
    assert(all.take(i as int).filter(keep) == components(path@));
    match found {
        Some(name) => if same(name, "..") {
            None
        } else {
            Some(name)
        },
        None => None,
    }
}

/// The file name of `path`; the empty text where it has none.
pub fn file_name_or_empty(path: &str) -> (r: &str)
    ensures
        r@ == base_name_or_empty(path@),
{
    match file_name(path) {
        Some(name) => name,
        None => {
            proof {
                reveal_strlit("");
            }
            assert(""@ =~= Seq::<char>::empty());
            ""
        },
    }
}

/// What stands behind the last dot of the file name, where something stands before that dot.
pub fn extension(path: &str) -> (r: Option<&str>)
    ensures
        r is Some == name_extension(path@) is Some,
        r is Some ==> r->0@ == name_extension(path@)->0,
{
    match file_name(path) {
        None => None,
        Some(name) => {
            let parts: Vec<&str> = split(name, '.');
            assert(forall|k: int|
                0 <= k < parts@.len() ==> pieces(name@, '.')[k] == (#[trigger] parts@[k])@);
            let n: usize = parts.len();
            if n == 1 || (n == 2 && parts[0].is_empty()) {
                None
            } else {
                Some(parts[n - 1])
            }
        },
    }
}

/// Decides whether the path has the extension `ext`, whatever the case of its ASCII letters.
pub fn extension_is(path: &str, ext: &str) -> (r: bool)
    ensures
        r == has_extension(path@, ext@),
{
    match extension(path) {
        Some(e) => same_ignoring_case(e, ext),
        None => false,
    }
}

/// Decides whether the path has exactly the extension `ext`.
pub fn extension_equals(path: &str, ext: &str) -> (r: bool)
    ensures
        r == (name_extension(path@) == Some(ext@)),
{
    match extension(path) {
        Some(e) => same(e, ext),
        None => false,
    }
}

/// The file `name` in the directory `dir`.
pub fn join(dir: &str, name: &str) -> (r: String)
    ensures
        r@ == joined(dir@, name@),
{
    let n: usize = dir.unicode_len();
    if n == 0 {
        return name.to_owned();
    }
    let mut r: String = dir.to_owned();
    if dir.get_char(n - 1) != '/' {
        r.append("/");
    }
    r.append(name);
    r
}

/// A file in a directory lies in that directory.
pub proof fn law_files_lie_in_their_directory(dir: Seq<char>, name: Seq<char>)
    requires
        dir.len() > 0,
        dir.last() != '/',
        dir.len() > 1 ==> !(dir.last() == '.' && dir[dir.len() - 2] == '/'),
        name.len() > 1,
        forall|i: int| 0 <= i < name.len() ==> (#[trigger] name[i]) != '/',
    ensures
        joined(dir, name) == dir + seq!['/'] + name,
        parent_of(joined(dir, name)) == Some(dir),
{
    reveal_strlit("/");
    assert("/"@ =~= seq!['/']);
    let path = joined(dir, name);
    assert(path.last() == name[name.len() - 1]);
    assert(path[path.len() - 2] == name[name.len() - 2]);
    assert(without_idle_end(path) == path);
    let front = dir + seq!['/'];
    lemma_up_to_slash(front, name);
    assert(path =~= front + name);
    assert(front.drop_last() =~= dir);
    assert(without_idle_end(front) == without_idle_end(dir));
    assert(path != seq!['/']);
}

/// What comes behind the last slash is taken off.
proof fn lemma_up_to_slash(front: Seq<char>, name: Seq<char>)
    requires
        front.len() > 0,
        front.last() == '/',
        forall|i: int| 0 <= i < name.len() ==> (#[trigger] name[i]) != '/',
    ensures
        up_to_slash(front + name) == front,
    decreases name.len(),
{
    if name.len() == 0 {
        assert(front + name =~= front);
    } else {
        let shorter = name.drop_last();
        assert((front + name).drop_last() =~= front + shorter);
        assert((front + name).last() == name[name.len() - 1]);
        assert forall|i: int| 0 <= i < shorter.len() implies (#[trigger] shorter[i]) != '/' by {
            assert(shorter[i] == name[i]);
        }
        lemma_up_to_slash(front, shorter);
    }
}

} // verus!
