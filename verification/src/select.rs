//! Which repository a command works on: the one that goes by the name that
//! was asked for, or the first of the registry.

use vstd::prelude::*;
use vstd::string::*;
use crate::config::Config;
use crate::error::Error;
use crate::path::{base_name, base_name_of, is_plain_name, join, lemma_base_name_of_join};
use crate::registry::listed;
use crate::repo::list_repositories;

verus! {

/// Whether the repository at `path` goes by `name`: a repository's name is the
/// base name of its directory.
pub open spec fn goes_by(path: Seq<char>, name: Seq<char>) -> bool {
    base_name(path) == Some(name)
}

/// Whether `repos[i]` is the first of `repos` that goes by `name`.
pub open spec fn is_first_named(repos: Seq<Seq<char>>, name: Seq<char>, i: int) -> bool {
    &&& 0 <= i < repos.len()
    &&& goes_by(repos[i], name)
    &&& forall|j: int| 0 <= j < i ==> !goes_by(#[trigger] repos[j], name)
}

/// Whether `result` is the choice among `repos` for the name `walnut`.
/// Without repositories there is none to choose, whatever the name. Without a
/// name the first repository is chosen; with one, the first that goes by it,
/// and it is an error if none does.
pub open spec fn is_selection(
    result: Result<String, Error>,
    repos: Seq<Seq<char>>,
    walnut: Option<Seq<char>>,
) -> bool {
    match result {
        Ok(path) => repos.len() > 0 && match walnut {
            None => path@ == repos[0],
            Some(name) => exists|i: int| #[trigger]
                is_first_named(repos, name, i) && path@ == repos[i],
        },
        Err(e) => if repos.len() == 0 {
            e == Error::NoRepositories
        } else {
            &&& e == Error::RepositoryNotFound
            &&& walnut matches Some(name)
            &&& forall|i: int| 0 <= i < repos.len() ==> !goes_by(#[trigger] repos[i], name)
        },
    }
}

/// Chooses among `repos`, the repositories in the registry's order, the one to
/// work on.
pub fn select_repository(repos: &Vec<String>, walnut: Option<&str>) -> (result: Result<
    String,
    Error,
>)
    ensures
        is_selection(result, repos.deep_view(), walnut.deep_view()),
{
    if repos.len() == 0 {
        return Err(Error::NoRepositories);
    }
    let name = match walnut {
        Some(name) => String::from_str(name),
        None => {
            assert(repos.deep_view()[0] == repos[0]@);
            return Ok(repos[0].clone());
        },
    };
    let mut i: usize = 0;
    while i < repos.len()
        invariant
            i <= repos.len(),
            walnut.deep_view() == Some(name@),
            forall|j: int| 0 <= j < i ==> !goes_by(#[trigger] repos.deep_view()[j], name@),
        decreases repos.len() - i,
    {
        assert(repos.deep_view()[i as int] == repos[i as int]@);
        let found = match base_name_of(repos[i].as_str()) {
            Some(base) => base == name,
            None => false,
        };
        if found {
            let path = repos[i].clone();
            assert(is_first_named(repos.deep_view(), name@, i as int));
            assert(walnut.deep_view() matches Some(n) && n == name@);
            return Ok(path);
        }
        i += 1;
    }
    Err(Error::RepositoryNotFound)
}

/// Chooses the repository to work on from the registry. `registry` is the
/// content of the registry file, or `None` if the file does not exist.
pub fn resolve_repository(registry: Option<&str>, walnut: Option<&str>, config: &Config) -> (result:
    Result<String, Error>)
    ensures
        is_selection(result, listed(registry.deep_view()), walnut.deep_view()),
{
    let repos = list_repositories(registry, config);
    select_repository(&repos, walnut)
}

/// A repository that was set up under a plain name and added to the registry
/// is the one chosen for that name, unless a repository listed before it goes
/// by the same name.
pub proof fn lemma_new_repository_is_found(repos: Seq<Seq<char>>, base: Seq<char>, name: Seq<char>)
    requires
        is_plain_name(name),
        forall|i: int| 0 <= i < repos.len() ==> !goes_by(#[trigger] repos[i], name),
    ensures
        goes_by(join(base, name), name),
        is_first_named(repos.push(join(base, name)), name, repos.len() as int),
{
    lemma_base_name_of_join(base, name);
    let all = repos.push(join(base, name));
    assert forall|j: int| 0 <= j < repos.len() implies !goes_by(#[trigger] all[j], name) by {
        assert(all[j] == repos[j]);
    }
}

} // verus!
