//! Repository locations as text: `/`-separated paths, how a relative path is
//! put under a base directory, and the base name by which a repository is
//! looked up.

use vstd::prelude::*;
use vstd::string::*;
use crate::text::{chars_of, string_of};

verus! {

/// Whether `p` starts at the root of the file system.
pub open spec fn is_absolute(p: Seq<char>) -> bool {
    p.len() > 0 && p[0] == '/'
}

/// `rel` placed under `base`: an absolute `rel` stands for itself; otherwise it
/// follows `base`, with one separator between them unless `base` is empty or
/// already ends in one.
pub open spec fn join(base: Seq<char>, rel: Seq<char>) -> Seq<char> {
    if is_absolute(rel) {
        rel
    } else if base.len() == 0 || base.last() == '/' {
        base + rel
    } else {
        base + seq!['/'] + rel
    }
}

/// How much of `p` is left once the separators and the `.` components at its
/// end are taken away. A `.` that is all of the path's start stays.
pub open spec fn trimmed_len(p: Seq<char>) -> nat
    decreases p.len(),
{
    if p.len() == 0 {
        0
    } else if p.last() == '/' {
        trimmed_len(p.drop_last())
    } else if p.len() >= 2 && p.last() == '.' && p[p.len() - 2] == '/' {
        trimmed_len(p.drop_last())
    } else {
        p.len()
    }
}

/// Where the last component of `p` begins: just behind the last separator, or
/// at 0 if there is none.
pub open spec fn component_start(p: Seq<char>) -> nat
    decreases p.len(),
{
    if p.len() == 0 || p.last() == '/' {
        p.len()
    } else {
        component_start(p.drop_last())
    }
}

/// The final component of `p`, if it names something: none for an empty path,
/// the root, `.` and a path that ends in `..`.
pub open spec fn base_name(p: Seq<char>) -> Option<Seq<char>> {
    let end = trimmed_len(p) as int;
    let trimmed = p.take(end);
    let name = trimmed.skip(component_start(trimmed) as int);
    if name.len() == 0 || name == seq!['.'] || name == seq!['.', '.'] {
        None
    } else {
        Some(name)
    }
}

/// Puts `rel` under `base`.
pub fn join_path(base: &str, rel: &str) -> (joined: String)
    ensures
        joined@ == join(base@, rel@),
{
    let base_len = base.unicode_len();
    let rel_len = rel.unicode_len();
    if rel_len > 0 && rel.get_char(0) == '/' {
        String::from_str(rel)
    } else if base_len == 0 || base.get_char(base_len - 1) == '/' {
        let joined = String::from_str(base);
        joined.concat(rel)
    } else {
        let mut joined = String::from_str(base);
        joined.push('/');
        joined.concat(rel)
    }
}

/// The base name of `path`.
pub fn base_name_of(path: &str) -> (name: Option<String>)
    ensures
        name.deep_view() == base_name(path@),
{
    let cs = chars_of(path);
    let mut end: usize = cs.len();
    assert(cs@.take(end as int) == cs@);
    while end > 0 && (cs[end - 1] == '/' || (end >= 2 && cs[end - 1] == '.' && cs[end - 2] == '/'))
        invariant
            end <= cs.len(),
            trimmed_len(cs@) == trimmed_len(cs@.take(end as int)),
        decreases end,
    {
        assert(cs@.take(end as int).drop_last() == cs@.take(end as int - 1));
        end -= 1;
    }
    assert(trimmed_len(cs@) == end);
    let ghost trimmed = cs@.take(end as int);
    let mut start: usize = end;
    assert(trimmed.take(start as int) == trimmed);
    while start > 0 && cs[start - 1] != '/'
        invariant
            start <= end <= cs.len(),
            trimmed == cs@.take(end as int),
            component_start(trimmed) == component_start(trimmed.take(start as int)),
        decreases start,
    {
        assert(trimmed.take(start as int).drop_last() == trimmed.take(start as int - 1));
        start -= 1;
    }
    assert(component_start(trimmed) == start);
    let ghost name = cs@.subrange(start as int, end as int);
    assert(trimmed.skip(start as int) == name);
    let len = end - start;
    assert(name == seq!['.'] <==> len == 1 && name[0] == '.') by {
        if len == 1 && name[0] == '.' {
            assert(name =~= seq!['.']);
        }
    }
    assert(name == seq!['.', '.'] <==> len == 2 && name[0] == '.' && name[1] == '.') by {
        if len == 2 && name[0] == '.' && name[1] == '.' {
            assert(name =~= seq!['.', '.']);
        }
    }
    if len == 0 || (len == 1 && cs[start] == '.') || (len == 2 && cs[start] == '.' && cs[start + 1]
        == '.') {
        None
    } else {
        Some(string_of(&cs, start, end))
    }
}

/// A name that is one component of a path and names something: not empty,
/// without a separator, and neither `.` nor `..`.
pub open spec fn is_plain_name(name: Seq<char>) -> bool {
    &&& name.len() > 0
    &&& forall|i: int| 0 <= i < name.len() ==> name[i] != '/'
    &&& name != seq!['.']
    &&& name != seq!['.', '.']
}

/// `dir` as the start of the paths of what lies in it: with a separator at its
/// end, unless it is empty, which stands for the current directory.
pub open spec fn as_directory(dir: Seq<char>) -> Seq<char> {
    if dir.len() == 0 || dir.last() == '/' {
        dir
    } else {
        dir.push('/')
    }
}

/// Whether `path` names something in the directory `dir` or further down.
pub open spec fn is_inside(path: Seq<char>, dir: Seq<char>) -> bool {
    as_directory(dir).len() < path.len() && as_directory(dir).is_prefix_of(path)
}

/// A relative path put under a directory is that directory's start followed by
/// the path, so it lies inside the directory unless it is empty.
pub proof fn lemma_join_relative(base: Seq<char>, rel: Seq<char>)
    requires
        !is_absolute(rel),
    ensures
        join(base, rel) == as_directory(base) + rel,
        rel.len() > 0 ==> is_inside(join(base, rel), base),
{
    assert(base.push('/') == base + seq!['/']);
}

/// Where the text behind a directory's start holds no separator, the last
/// component begins right behind that start.
pub proof fn lemma_component_start(dir: Seq<char>, name: Seq<char>)
    requires
        dir.len() == 0 || dir.last() == '/',
        forall|i: int| 0 <= i < name.len() ==> name[i] != '/',
    ensures
        component_start(dir + name) == dir.len(),
    decreases name.len(),
{
    let p = dir + name;
    if name.len() == 0 {
        assert(p == dir);
    } else {
        assert(p.last() == name.last());
        assert(p.drop_last() == dir + name.drop_last());
        lemma_component_start(dir, name.drop_last());
    }
}

/// A repository goes by the name under which it was put into its directory:
/// a plain name under any base is the base name of the result.
pub proof fn lemma_base_name_of_join(base: Seq<char>, name: Seq<char>)
    requires
        is_plain_name(name),
    ensures
        base_name(join(base, name)) == Some(name),
{
    let dir = as_directory(base);
    let p = join(base, name);
    lemma_join_relative(base, name);
    assert(p.last() == name.last());
    if name.len() == 1 {
        assert(name =~= seq![name[0]]);
        assert(p.last() != '.');
    } else {
        assert(p[p.len() - 2] == name[name.len() - 2]);
        if name.len() == 2 && name[0] == '.' && name[1] == '.' {
            assert(name =~= seq!['.', '.']);
        }
    }
    assert(trimmed_len(p) == p.len());
    assert(p.take(p.len() as int) == p);
    lemma_component_start(dir, name);
    assert(p.skip(dir.len() as int) == name);
}

/// Two different plain names under one base give two directories of which
/// neither is the other nor lies inside it, and nothing lies inside both.
pub proof fn lemma_plain_names_apart(base: Seq<char>, first: Seq<char>, second: Seq<char>)
    requires
        is_plain_name(first),
        is_plain_name(second),
        first != second,
    ensures
        join(base, first) != join(base, second),
        !is_inside(join(base, first), join(base, second)),
        !is_inside(join(base, second), join(base, first)),
        forall|path: Seq<char>|
            !(is_inside(path, join(base, first)) && is_inside(path, join(base, second))),
{
    let dir = as_directory(base);
    let a = join(base, first);
    let b = join(base, second);
    let d = dir.len() as int;
    let m = first.len() as int;
    let n = second.len() as int;
    lemma_join_relative(base, first);
    lemma_join_relative(base, second);
    assert(a.last() == first.last());
    assert(b.last() == second.last());
    assert(as_directory(a) == dir + first.push('/')) by {
        assert(a.push('/') =~= dir + first.push('/'));
    }
    assert(as_directory(b) == dir + second.push('/')) by {
        assert(b.push('/') =~= dir + second.push('/'));
    }
    assert forall|path: Seq<char>|
        (dir + first.push('/')).is_prefix_of(path) && (dir + second.push('/')).is_prefix_of(
            path,
        ) implies false by {
        lemma_marked_prefixes(dir, first, second, path);
    }
    if a == b {
        assert(first =~= a.skip(dir.len() as int));
        assert(second =~= b.skip(dir.len() as int));
    }
    if is_inside(a, b) {
        assert((dir + second.push('/'))[d + n] == '/');
        assert(a[d + n] == first[n]);
    }
    if is_inside(b, a) {
        assert((dir + first.push('/'))[d + m] == '/');
        assert(b[d + m] == second[m]);
    }
}

/// Behind a common start, two names without separator that are each followed
/// by one cannot both lead the same path unless they are the same name.
proof fn lemma_marked_prefixes(
    dir: Seq<char>,
    first: Seq<char>,
    second: Seq<char>,
    path: Seq<char>,
)
    requires
        forall|i: int| 0 <= i < first.len() ==> first[i] != '/',
        forall|i: int| 0 <= i < second.len() ==> second[i] != '/',
        (dir + first.push('/')).is_prefix_of(path),
        (dir + second.push('/')).is_prefix_of(path),
    ensures
        first == second,
{
    let a = dir + first.push('/');
    let b = dir + second.push('/');
    let d = dir.len() as int;
    let m = first.len() as int;
    let n = second.len() as int;
    assert(a[d + m] == '/');
    assert(b[d + n] == '/');
    if first.len() < second.len() {
        assert(path[d + m] == a[d + m]);
        assert(path[d + m] == b[d + m]);
        assert(b[d + m] == second[m]);
    } else if second.len() < first.len() {
        assert(path[d + n] == b[d + n]);
        assert(path[d + n] == a[d + n]);
        assert(a[d + n] == first[n]);
    } else {
        assert forall|i: int| 0 <= i < first.len() implies first[i] == second[i] by {
            assert(path[d + i] == a[d + i]);
            assert(path[d + i] == b[d + i]);
        }
        assert(first =~= second);
    }
}

} // verus!
