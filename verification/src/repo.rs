//! Repositories: reading and extending the registry, and planning the
//! directories and files of a new repository.

use vstd::prelude::*;
use vstd::string::*;
use crate::clock::{
    digit, lemma_digit, lemma_stamp_characters, lemma_stamp_pattern, lemma_stamp_text_injective,
    local_time_text, render, stamp_text, LocalTime,
};
use crate::config::{data_dir, Config};
use crate::error::Error;
use crate::path::{
    is_inside, is_plain_name, join, join_path, lemma_join_relative, lemma_plain_names_apart,
};
use crate::registry::{
    is_ended, is_registrable, lemma_added_is_listed_last, lemma_line_end, lines, listed,
    registry_after_add, registry_record, strip_carriage_return,
};
use crate::text::{chars_of, is_blank, is_blank_range, is_whitespace, string_of};

verus! {

/// Lists the repositories of the registry. `registry` is the content of the
/// registry file, or `None` if the file does not exist.
pub fn list_repositories(registry: Option<&str>, _config: &Config) -> (paths: Vec<String>)
    ensures
        paths.deep_view() == listed(registry.deep_view()),
        paths.len() == listed(registry.deep_view()).len(),
{
    let mut paths: Vec<String> = Vec::new();
    let content = match registry {
        Some(content) => content,
        None => {
            assert(paths.deep_view() == Seq::<Seq<char>>::empty());
            return paths;
        },
    };
    let cs = chars_of(content);
    let n = cs.len();
    let ghost not_blank = |line: Seq<char>| !is_blank(line);
    let ghost mut seen: Seq<Seq<char>> = Seq::empty();
    let mut start: usize = 0;
    assert(cs@.skip(0) == cs@);
    assert(paths.deep_view() == seen.filter(not_blank)) by {
        reveal(Seq::filter);
    }
    while start < n
        invariant
            n == cs.len(),
            start <= n,
            lines(cs@) == seen + lines(cs@.skip(start as int)),
            paths.deep_view() == seen.filter(not_blank),
            not_blank == |line: Seq<char>| !is_blank(line),
        decreases n - start,
    {
        let ghost rest = cs@.skip(start as int);
        let mut end: usize = start;
        while end < n && cs[end] != '\n'
            invariant
                start <= end <= n,
                n == cs.len(),
                forall|i: int| start <= i < end ==> cs@[i] != '\n',
            decreases n - end,
        {
            end += 1;
        }
        proof {
            lemma_line_end(rest, end - start);
        }
        let terminated = end < n;
        let line_to = if terminated && end > start && cs[end - 1] == '\r' {
            end - 1
        } else {
            end
        };
        let ghost line = cs@.subrange(start as int, line_to as int);
        let next = if terminated {
            end + 1
        } else {
            n
        };
        proof {
            assert(rest.take(end - start) == cs@.subrange(start as int, end as int));
            if terminated {
                assert(line == strip_carriage_return(rest.take(end - start)));
                assert(rest.skip(end - start + 1) == cs@.skip(next as int));
            } else {
                assert(line == rest);
                assert(cs@.skip(next as int) == Seq::<char>::empty());
            }
            assert(lines(rest) == seq![line] + lines(cs@.skip(next as int)));
            assert(seen + lines(rest) == seen.push(line) + lines(cs@.skip(next as int)));
            seen.lemma_filter_push(line, not_blank);
        }
        if !is_blank_range(&cs, start, line_to) {
            let path = string_of(&cs, start, line_to);
            let ghost before = paths.deep_view();
            paths.push(path);
            assert(paths.deep_view() == before.push(line));
        }
        proof {
            seen = seen.push(line);
        }
        start = next;
    }
    assert(lines(cs@.skip(start as int)) == Seq::<Seq<char>>::empty());
    assert(seen + Seq::<Seq<char>>::empty() == seen);
    paths
}

/// The registry file in the configuration directory `config_dir`.
pub fn registry_file(config_dir: &str) -> (path: String)
    ensures
        path@ == join(config_dir@, "repositories"@),
{
    join_path(config_dir, "repositories")
}

/// Adds the repository at `repo_path` to the registry: gives the text to put at
/// the end of the registry file. The path is not looked at: one that is listed
/// already is listed again.
pub fn add_repository(repo_path: &str) -> (record: String)
    ensures
        record@ == registry_record(repo_path@),
{
    let mut record = String::from_str(repo_path);
    record.push('\n');
    record
}

/// The directories of a repository, each relative to the repository's root, in
/// the order in which they are made.
pub open spec fn layout() -> Seq<Seq<char>> {
    seq![
        "Journal"@,
        "Notes/Personal"@,
        "Notes/Projects"@,
        "Notes/Work"@,
        "References/Articles"@,
        "References/Bibliography"@,
        "References/Books"@,
        "References/Contacts"@,
        "References/Glossary"@,
        "References/Media"@,
        "References/Papers"@,
        "References/Podcasts"@,
        "References/WebContent"@,
        "Templates/Journal"@,
        "Templates/Notes"@,
        "Templates/References/Bibliography"@,
    ]
}

/// The directories of the repository at `root`.
pub open spec fn layout_under(root: Seq<char>) -> Seq<Seq<char>> {
    Seq::new(layout().len(), |i: int| join(root, layout()[i]))
}

/// The name of a repository that was set up at the time `t` without a name of
/// its own.
pub open spec fn default_name(t: LocalTime) -> Seq<char> {
    "walnut_"@ + stamp_text(t)
}

/// Whether `repo_name` is the name of a repository set up under `name`, or, if
/// that is `None`, at some time that a clock can show.
pub open spec fn is_name_for(repo_name: Seq<char>, name: Option<Seq<char>>) -> bool {
    match name {
        Some(given) => repo_name == given,
        None => exists|t: LocalTime| t.in_range() && repo_name == #[trigger] default_name(t),
    }
}

/// Whether `base` is the directory that takes a repository set up with this
/// `location`: the location itself, or without one `walnut_repos` in the data
/// directory, which is `xdg_data_home` or else the platform's.
pub open spec fn is_base_for(
    base: Seq<char>,
    location: Option<Seq<char>>,
    xdg_data_home: Option<Seq<char>>,
) -> bool {
    match location {
        Some(given) => base == given,
        None => match xdg_data_home {
            Some(home) => base == join(home, "walnut_repos"@),
            None => exists|platform: Seq<char>|
                base == #[trigger] join(platform, "walnut_repos"@),
        },
    }
}

/// What setting up a repository takes: the steps, in their order. First every
/// directory of `directories` is made, with the directories above it; then
/// `marker_file` is written with `marker_content`; then `registry_record` is
/// put at the end of the registry file. A step that fails ends the setup, and
/// what was made stays.
#[derive(Debug, Clone, PartialEq, Eq)]
pub struct SetupPlan {
    pub root: String,
    pub directories: Vec<String>,
    pub marker_file: String,
    pub marker_content: String,
    pub registry_record: String,
}

impl SetupPlan {
    /// Whether this is the plan for the repository at `root`.
    pub open spec fn is_for(self, root: Seq<char>) -> bool {
        &&& self.root@ == root
        &&& self.directories.deep_view() == layout_under(root)
        &&& self.marker_file@ == join(root, "walnut.yml"@)
        &&& self.marker_content@ == "# Walnut configuration file\n"@
        &&& self.registry_record@ == registry_record(root)
    }
}

/// The directories of a repository, relative to its root.
pub fn layout_directories() -> (directories: Vec<&'static str>)
    ensures
        directories.deep_view() == layout(),
{
    let directories = vec![
        "Journal",
        "Notes/Personal",
        "Notes/Projects",
        "Notes/Work",
        "References/Articles",
        "References/Bibliography",
        "References/Books",
        "References/Contacts",
        "References/Glossary",
        "References/Media",
        "References/Papers",
        "References/Podcasts",
        "References/WebContent",
        "Templates/Journal",
        "Templates/Notes",
        "Templates/References/Bibliography",
    ];
    assert(directories.deep_view() =~= layout());
    directories
}

/// Plans the repository named `repo_name` in the directory `base_dir`.
pub fn plan_setup(base_dir: &str, repo_name: &str) -> (plan: SetupPlan)
    ensures
        plan.is_for(join(base_dir@, repo_name@)),
        plan.directories.len() == 16,
{
    let root = join_path(base_dir, repo_name);
    let relative = layout_directories();
    let mut directories: Vec<String> = Vec::new();
    let mut i: usize = 0;
    while i < relative.len()
        invariant
            i <= relative.len(),
            relative.deep_view() == layout(),
            directories.len() == i,
            forall|k: int| 0 <= k < i ==> directories[k]@ == join(root@, layout()[k]),
        decreases relative.len() - i,
    {
        assert(relative.deep_view()[i as int] == relative[i as int]@);
        directories.push(join_path(root.as_str(), relative[i]));
        i += 1;
    }
    assert(directories.deep_view() =~= layout_under(root@));
    let marker_file = join_path(root.as_str(), "walnut.yml");
    let marker_content = String::from_str("# Walnut configuration file\n");
    let registry_record = add_repository(root.as_str());
    SetupPlan { root, directories, marker_file, marker_content, registry_record }
}

/// The default name for the clock reading `stamp`.
pub fn name_from_stamp(stamp: &str) -> (name: String)
    ensures
        name@ == "walnut_"@ + stamp@,
{
    String::from_str("walnut_").concat(stamp)
}

/// A name for a repository that is given none: `walnut_` and the local time
/// down to the second, so that two names differ unless they are made within
/// one second.
pub fn default_repository_name() -> (name: String)
    ensures
        is_name_for(name@, None),
{
    proof {
        lemma_stamp_pattern(arbitrary());
    }
    let stamp = local_time_text("%Y%m%d%H%M%S");
    proof {
        let t = choose|t: LocalTime| t.in_range() && stamp@ == render("%Y%m%d%H%M%S"@, t);
        lemma_stamp_pattern(t);
        assert("walnut_"@ + stamp@ == default_name(t));
    }
    name_from_stamp(stamp.as_str())
}

/// The directory that takes new repositories where no location is given:
/// `walnut_repos` in the data directory.
pub fn default_base_dir(data_dir: &str) -> (base: String)
    ensures
        base@ == join(data_dir@, "walnut_repos"@),
{
    join_path(data_dir, "walnut_repos")
}

/// Sets up a repository: plans it under `location`, or without one under the
/// default base directory, and under `name`, or without one under a name made
/// from the local time. `xdg_data_home` is the value of the environment
/// variable `XDG_DATA_HOME`, if it is set. The platform is asked for its data
/// directory only where neither `location` nor `xdg_data_home` is given, and
/// the clock is read only where `name` is not; the setup fails, with
/// `Error::NoHomeDirectory`, only where the platform is asked and has no
/// answer.
pub fn setup_repository(
    name: Option<String>,
    location: Option<String>,
    xdg_data_home: Option<&str>,
    _config: &Config,
) -> (result: Result<SetupPlan, Error>)
    ensures
        match result {
            Ok(plan) => exists|base: Seq<char>, repo_name: Seq<char>|
                plan.is_for(#[trigger] join(base, repo_name)) && is_base_for(
                    base,
                    location.deep_view(),
                    xdg_data_home.deep_view(),
                ) && is_name_for(repo_name, name.deep_view()),
            Err(e) => e == Error::NoHomeDirectory && location is None && xdg_data_home is None,
        },
{
    let base_dir = match location {
        Some(given) => given,
        None => match data_dir(xdg_data_home) {
            Some(dir) => default_base_dir(dir.as_str()),
            None => {
                return Err(Error::NoHomeDirectory);
            },
        },
    };
    let repo_name = match name {
        Some(given) => given,
        None => default_repository_name(),
    };
    let plan = plan_setup(base_dir.as_str(), repo_name.as_str());
    assert(plan.is_for(join(base_dir@, repo_name@)));
    Ok(plan)
}

/// The paths that a plan for the repository at `root` writes to: the
/// directories of the layout and the marker file.
pub open spec fn is_planned(path: Seq<char>, root: Seq<char>) -> bool {
    ||| path == join(root, "walnut.yml"@)
    ||| exists|i: int| 0 <= i < layout().len() && path == #[trigger] layout_under(root)[i]
}

/// The layout has sixteen directories, and each of them, like the marker
/// file, lies inside the repository's root.
pub proof fn lemma_plan_inside_root(root: Seq<char>)
    ensures
        layout().len() == 16,
        forall|path: Seq<char>| is_planned(path, root) ==> is_inside(path, root),
{
    reveal_strlit("walnut.yml");
    reveal_strlit("Journal");
    reveal_strlit("Notes/Personal");
    reveal_strlit("Notes/Projects");
    reveal_strlit("Notes/Work");
    reveal_strlit("References/Articles");
    reveal_strlit("References/Bibliography");
    reveal_strlit("References/Books");
    reveal_strlit("References/Contacts");
    reveal_strlit("References/Glossary");
    reveal_strlit("References/Media");
    reveal_strlit("References/Papers");
    reveal_strlit("References/Podcasts");
    reveal_strlit("References/WebContent");
    reveal_strlit("Templates/Journal");
    reveal_strlit("Templates/Notes");
    reveal_strlit("Templates/References/Bibliography");
    lemma_join_relative(root, "walnut.yml"@);
    assert forall|i: int| 0 <= i < layout().len() implies is_inside(
        #[trigger] layout_under(root)[i],
        root,
    ) by {
        lemma_join_relative(root, layout()[i]);
    }
}

/// Once the steps of a plan are done, the registry lists the new repository's
/// root last, behind all that it listed before. This holds where the root is a
/// path that the registry can hold and every line of the registry is ended.
pub proof fn lemma_setup_is_listed_last(
    plan: SetupPlan,
    root: Seq<char>,
    registry: Option<Seq<char>>,
)
    requires
        plan.is_for(root),
        is_ended(registry),
        is_registrable(root),
    ensures
        plan.registry_record@ == registry_record(root),
        listed(Some(registry_after_add(registry, root))) == listed(registry).push(root),
        listed(Some(registry_after_add(registry, root))).last() == root,
{
    lemma_added_is_listed_last(registry, root);
}

/// Two setups in one base directory under different plain names do not meet:
/// their roots differ, neither root lies inside the other, and no path that one
/// of them writes to is written to by the other or lies inside the other's
/// root.
pub proof fn lemma_distinct_names_apart(base: Seq<char>, first: Seq<char>, second: Seq<char>)
    requires
        is_plain_name(first),
        is_plain_name(second),
        first != second,
    ensures
        join(base, first) != join(base, second),
        !is_inside(join(base, first), join(base, second)),
        !is_inside(join(base, second), join(base, first)),
        forall|path: Seq<char>|
            is_planned(path, join(base, first)) ==> !is_planned(path, join(base, second))
                && !is_inside(path, join(base, second)) && path != join(base, second),
        forall|path: Seq<char>|
            is_planned(path, join(base, second)) ==> !is_planned(path, join(base, first))
                && !is_inside(path, join(base, first)) && path != join(base, first),
{
    let a = join(base, first);
    let b = join(base, second);
    lemma_plain_names_apart(base, first, second);
    lemma_plan_inside_root(a);
    lemma_plan_inside_root(b);
}

/// Two setups in one base directory under different plain names leave two
/// entries in the registry, in the order of the setups, behind what it listed
/// before. This holds where both roots are paths that the registry can hold
/// and every line of the registry is ended.
pub proof fn lemma_two_setups_two_entries(
    base: Seq<char>,
    first: Seq<char>,
    second: Seq<char>,
    registry: Option<Seq<char>>,
)
    requires
        is_plain_name(first),
        is_plain_name(second),
        first != second,
        is_ended(registry),
        is_registrable(join(base, first)),
        is_registrable(join(base, second)),
    ensures
        join(base, first) != join(base, second),
        listed(
            Some(
                registry_after_add(
                    Some(registry_after_add(registry, join(base, first))),
                    join(base, second),
                ),
            ),
        ) == listed(registry).push(join(base, first)).push(join(base, second)),
{
    lemma_plain_names_apart(base, first, second);
    lemma_added_is_listed_last(registry, join(base, first));
    lemma_added_is_listed_last(
        Some(registry_after_add(registry, join(base, first))),
        join(base, second),
    );
}

/// The registry can hold the root of a repository whose plain name ends in
/// something other than white space, where neither the base directory nor the
/// name holds a line feed.
pub proof fn lemma_root_is_registrable(base: Seq<char>, name: Seq<char>)
    requires
        is_plain_name(name),
        !is_whitespace(name.last()),
        forall|i: int| 0 <= i < base.len() ==> base[i] != '\n',
        forall|i: int| 0 <= i < name.len() ==> name[i] != '\n',
    ensures
        is_registrable(join(base, name)),
{
    let root = join(base, name);
    lemma_join_relative(base, name);
    assert(root.last() == name.last());
    assert(!is_whitespace(root[root.len() - 1]));
}

/// A default name is a plain name without line feed that ends in a digit, so
/// what holds of repositories with a plain name holds of those set up without
/// a name.
pub proof fn lemma_default_name_is_plain(t: LocalTime)
    requires
        t.in_range(),
    ensures
        is_plain_name(default_name(t)),
        !is_whitespace(default_name(t).last()),
        forall|i: int| 0 <= i < default_name(t).len() ==> default_name(t)[i] != '\n',
{
    reveal_strlit("walnut_");
    let name = default_name(t);
    let stamp = stamp_text(t);
    lemma_stamp_characters(t);
    assert(name.len() == 7 + stamp.len());
    assert(name.last() == stamp.last());
    let last = choose|d: int| 0 <= d <= 9 && stamp.last() == digit(d);
    lemma_digit(last);
    assert forall|i: int| 0 <= i < name.len() implies name[i] != '/' && name[i] != '\n' by {
        if i >= 7 {
            let c = stamp[i - 7];
            assert(name[i] == c);
            if c != '-' && c != '+' {
                let d = choose|d: int| 0 <= d <= 9 && c == digit(d);
                lemma_digit(d);
            }
        }
    }
    assert(name[0] == 'w');
}

/// Two setups without a name get the same name only if they read the same
/// second off the clock.
pub proof fn lemma_default_names_differ(s: LocalTime, t: LocalTime)
    requires
        s.in_range(),
        t.in_range(),
        default_name(s) == default_name(t),
    ensures
        s == t,
{
    assert(stamp_text(s) =~= default_name(s).skip("walnut_"@.len() as int));
    assert(stamp_text(t) =~= default_name(t).skip("walnut_"@.len() as int));
    lemma_stamp_text_injective(s, t);
}

} // verus!
