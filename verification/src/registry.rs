//! The registry file as text: one repository path per line, in the order in
//! which the repositories were added.

use vstd::prelude::*;
use crate::text::is_blank;

verus! {

/// Where the first line of `s` ends: the index of its first line feed, or the
/// length of `s` if it holds none.
pub open spec fn line_end(s: Seq<char>) -> nat
    decreases s.len(),
{
    if s.len() == 0 || s[0] == '\n' {
        0
    } else {
        1 + line_end(s.drop_first())
    }
}

/// A line without the carriage return that stood before its line feed.
pub open spec fn strip_carriage_return(line: Seq<char>) -> Seq<char> {
    if line.len() > 0 && line.last() == '\r' {
        line.drop_last()
    } else {
        line
    }
}

/// The lines of `s`. Each ends at a line feed, which is not part of it, nor is
/// a carriage return just before that line feed. What follows the last line
/// feed is a line too unless it is empty.
pub open spec fn lines(s: Seq<char>) -> Seq<Seq<char>>
    decreases s.len(),
{
    if s.len() == 0 {
        Seq::empty()
    } else {
        let end = line_end(s);
        if end >= s.len() {
            seq![s]
        } else {
            seq![strip_carriage_return(s.take(end as int))] + lines(s.skip(end as int + 1))
        }
    }
}

/// The repository paths that a registry file with this content lists: its
/// lines that are not blank, in the file's order, each as it stands.
pub open spec fn registry_paths(content: Seq<char>) -> Seq<Seq<char>> {
    lines(content).filter(|line: Seq<char>| !is_blank(line))
}

/// The paths that the registry lists, given what its file holds if it exists.
pub open spec fn listed(registry: Option<Seq<char>>) -> Seq<Seq<char>> {
    match registry {
        Some(content) => registry_paths(content),
        None => Seq::empty(),
    }
}

/// What is written to the registry file for the repository at `path`: the
/// path and a line feed.
pub open spec fn registry_record(path: Seq<char>) -> Seq<char> {
    path.push('\n')
}

/// What the registry file holds once the repository at `path` has been added
/// to it. The file is made if it was not there.
pub open spec fn registry_after_add(registry: Option<Seq<char>>, path: Seq<char>) -> Seq<char> {
    match registry {
        Some(content) => content + registry_record(path),
        None => registry_record(path),
    }
}

/// A path that the registry can hold and give back as it is: it is not blank,
/// holds no line feed, and does not end in a carriage return.
pub open spec fn is_registrable(path: Seq<char>) -> bool {
    &&& !is_blank(path)
    &&& forall|i: int| 0 <= i < path.len() ==> path[i] != '\n'
    &&& path.len() > 0 ==> path.last() != '\r'
}

/// A registry file as `add_repository` leaves it: every line is ended.
pub open spec fn is_ended(registry: Option<Seq<char>>) -> bool {
    registry matches Some(content) ==> content.len() == 0 || content.last() == '\n'
}

/// The first line of `s` ends at `end` if no line feed stands before `end` and
/// one stands at `end`, or `s` ends there.
pub proof fn lemma_line_end(s: Seq<char>, end: int)
    requires
        0 <= end <= s.len(),
        forall|i: int| 0 <= i < end ==> s[i] != '\n',
        end == s.len() || s[end] == '\n',
    ensures
        line_end(s) == end,
    decreases end,
{
    if end > 0 {
        let rest = s.drop_first();
        assert forall|i: int| 0 <= i < end - 1 implies rest[i] != '\n' by {
            assert(rest[i] == s[i + 1]);
        }
        lemma_line_end(rest, end - 1);
    }
}

/// The first line of `s` ends within `s`, at a line feed or at the end of `s`,
/// and holds no line feed.
pub proof fn lemma_line_end_is_first(s: Seq<char>)
    ensures
        line_end(s) <= s.len(),
        forall|i: int| 0 <= i < line_end(s) ==> s[i] != '\n',
        line_end(s) == s.len() || s[line_end(s) as int] == '\n',
    decreases s.len(),
{
    if s.len() > 0 && s[0] != '\n' {
        let rest = s.drop_first();
        lemma_line_end_is_first(rest);
        assert forall|i: int| 0 <= i < line_end(s) implies s[i] != '\n' by {
            if i > 0 {
                assert(s[i] == rest[i - 1]);
            }
        }
        if line_end(s) < s.len() {
            assert(s[line_end(s) as int] == rest[line_end(rest) as int]);
        }
    }
}

/// Text that ends in a line feed, or holds nothing, has its lines whatever
/// comes after it: the lines of the whole are its lines and then the lines of
/// what follows.
pub proof fn lemma_lines_concat(head: Seq<char>, tail: Seq<char>)
    requires
        head.len() == 0 || head.last() == '\n',
    ensures
        lines(head + tail) == lines(head) + lines(tail),
    decreases head.len(),
{
    let whole = head + tail;
    if head.len() == 0 {
        assert(whole == tail);
        assert(lines(head) + lines(tail) == lines(tail));
    } else {
        lemma_line_end_is_first(head);
        let end = line_end(head) as int;
        assert(end < head.len());
        assert forall|i: int| 0 <= i < end implies whole[i] != '\n' by {
            assert(whole[i] == head[i]);
        }
        assert(whole[end] == head[end]);
        lemma_line_end(whole, end);
        let rest = head.skip(end + 1);
        assert(whole.take(end) == head.take(end));
        assert(whole.skip(end + 1) == rest + tail);
        if rest.len() > 0 {
            assert(rest.last() == head.last());
        }
        lemma_lines_concat(rest, tail);
        let first = seq![strip_carriage_return(head.take(end))];
        assert(lines(head) == first + lines(rest));
        assert(lines(whole) == first + (lines(rest) + lines(tail)));
        assert(first + (lines(rest) + lines(tail)) == (first + lines(rest)) + lines(tail));
    }
}

/// Order is kept and nothing is lost: once a repository has been added, the
/// registry lists what it listed before, and the new path last. This holds of
/// a path that the registry can hold, added to a registry whose lines are all
/// ended.
pub proof fn lemma_added_is_listed_last(registry: Option<Seq<char>>, path: Seq<char>)
    requires
        is_ended(registry),
        is_registrable(path),
    ensures
        listed(Some(registry_after_add(registry, path))) == listed(registry).push(path),
        is_ended(Some(registry_after_add(registry, path))),
{
    let record = registry_record(path);
    let not_blank = |line: Seq<char>| !is_blank(line);
    assert(path.len() > 0);
    lemma_line_end(record, path.len() as int);
    assert(record.take(path.len() as int) == path);
    assert(record.skip(path.len() as int + 1) == Seq::<char>::empty());
    assert(lines(record) == seq![path]) by {
        assert(lines(record.skip(path.len() as int + 1)) == Seq::<Seq<char>>::empty());
        assert(seq![path] + Seq::<Seq<char>>::empty() == seq![path]);
    }
    let before = match registry {
        Some(content) => content,
        None => Seq::empty(),
    };
    assert(registry_after_add(registry, path) == before + record);
    lemma_lines_concat(before, record);
    assert(lines(before) + seq![path] == lines(before).push(path));
    lines(before).lemma_filter_push(path, not_blank);
    assert(listed(registry) == lines(before).filter(not_blank)) by {
        if registry is None {
            reveal(Seq::filter);
        }
    }
}

} // verus!
