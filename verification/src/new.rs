//! New entries: a journal record or a note, copied from the repository's
//! template into a file named after the day.

use vstd::prelude::*;
use vstd::string::*;
use crate::clock::{
    date_text, digit, is_pattern, lemma_date_pattern, lemma_date_text_injective, lemma_digit,
    lemma_first_of_year, lemma_same_parts, lemma_two_digits, local_time_text, render, year_text,
    LocalTime,
};
use crate::error::Error;
use crate::path::{
    as_directory, base_name, is_inside, is_plain_name, join, join_path, lemma_base_name_of_join,
    lemma_join_relative,
};

verus! {

/// The kinds of entry.
#[derive(Debug, Clone, Copy, PartialEq, Eq, Structural)]
pub enum EntryKind {
    /// A day's record in the journal.
    Journal,
    /// A personal note.
    Note,
}

impl Default for EntryKind {
    /// A journal record, the kind that is made when none is asked for.
    fn default() -> (kind: EntryKind)
        ensures
            kind == EntryKind::Journal,
    {
        EntryKind::Journal
    }
}

/// A file to be written, created or cut to nothing first: where, and what.
#[derive(Debug, Clone, PartialEq, Eq)]
pub struct EntryFile {
    pub path: String,
    pub content: Vec<u8>,
}

impl EntryKind {
    /// The word by which the command line names this kind.
    pub open spec fn word(self) -> Seq<char> {
        match self {
            EntryKind::Journal => "journal"@,
            EntryKind::Note => "note"@,
        }
    }

    /// Where this kind's template lies in a repository.
    pub open spec fn template_location(self) -> Seq<char> {
        match self {
            EntryKind::Journal => "Templates/Journal/_record.md"@,
            EntryKind::Note => "Templates/Notes/_note.md"@,
        }
    }

    /// The directory of a repository that takes this kind's entries.
    pub open spec fn directory(self) -> Seq<char> {
        match self {
            EntryKind::Journal => "Journal"@,
            EntryKind::Note => "Notes/Personal"@,
        }
    }

    /// What follows the date in the name of an entry of this kind.
    pub open spec fn suffix(self) -> Seq<char> {
        match self {
            EntryKind::Journal => "-record.md"@,
            EntryKind::Note => "-note.md"@,
        }
    }

    /// The pattern of the name of an entry of this kind.
    pub open spec fn pattern(self) -> Seq<char> {
        match self {
            EntryKind::Journal => "%Y-%m-%d-record.md"@,
            EntryKind::Note => "%Y-%m-%d-note.md"@,
        }
    }

    /// The name of the entry of this kind that is made at the time `t`.
    pub open spec fn file_name(self, t: LocalTime) -> Seq<char> {
        date_text(t) + self.suffix()
    }

    /// The kind that `word` names: `journal` or `note`, and no other word.
    pub fn from_word(word: &str) -> (kind: Option<EntryKind>)
        ensures
            match kind {
                Some(k) => word@ == k.word(),
                None => word@ != EntryKind::Journal.word() && word@ != EntryKind::Note.word(),
            },
    {
        let word = String::from_str(word);
        if word == String::from_str("journal") {
            Some(EntryKind::Journal)
        } else if word == String::from_str("note") {
            Some(EntryKind::Note)
        } else {
            None
        }
    }
}

/// The template of `kind` in the repository at `repo`.
pub open spec fn template_path(repo: Seq<char>, kind: EntryKind) -> Seq<char> {
    join(repo, kind.template_location())
}

/// The entry of `kind` named `file_name` in the repository at `repo`.
pub open spec fn entry_path(repo: Seq<char>, kind: EntryKind, file_name: Seq<char>) -> Seq<char> {
    join(join(repo, kind.directory()), file_name)
}

/// The pattern of each kind's name is the date followed by the kind's suffix.
pub proof fn lemma_entry_pattern(kind: EntryKind, t: LocalTime)
    ensures
        is_pattern(kind.pattern()),
        render(kind.pattern(), t) == kind.file_name(t),
{
    reveal_strlit("%Y-%m-%d");
    match kind {
        EntryKind::Journal => {
            reveal_strlit("%Y-%m-%d-record.md");
            reveal_strlit("-record.md");
            assert("%Y-%m-%d-record.md"@ =~= "%Y-%m-%d"@ + "-record.md"@);
        },
        EntryKind::Note => {
            reveal_strlit("%Y-%m-%d-note.md");
            reveal_strlit("-note.md");
            assert("%Y-%m-%d-note.md"@ =~= "%Y-%m-%d"@ + "-note.md"@);
        },
    }
    lemma_date_pattern(kind.pattern(), kind.suffix(), t);
}

/// Where the template of `kind` lies in the repository at `repo_path`: the
/// file to read before an entry is made.
pub fn template_file(repo_path: &str, kind: EntryKind) -> (path: String)
    ensures
        path@ == template_path(repo_path@, kind),
{
    match kind {
        EntryKind::Journal => join_path(repo_path, "Templates/Journal/_record.md"),
        EntryKind::Note => join_path(repo_path, "Templates/Notes/_note.md"),
    }
}

/// The entry of `kind` under the name `file_name`. `template` is what the
/// template file holds, or `None` if there is no such file; without it no entry
/// is made. The entry's content is the template's, byte for byte.
pub fn entry_named(
    repo_path: &str,
    kind: EntryKind,
    file_name: &str,
    template: Option<Vec<u8>>,
) -> (result: Result<EntryFile, Error>)
    ensures
        match template {
            Some(bytes) => result matches Ok(entry) && entry.content@ == bytes@ && entry.path@
                == entry_path(repo_path@, kind, file_name@),
            None => result == Err::<EntryFile, Error>(Error::TemplateNotFound(kind)),
        },
{
    match template {
        None => Err(Error::TemplateNotFound(kind)),
        Some(content) => {
            let directory = match kind {
                EntryKind::Journal => join_path(repo_path, "Journal"),
                EntryKind::Note => join_path(repo_path, "Notes/Personal"),
            };
            let path = join_path(directory.as_str(), file_name);
            Ok(EntryFile { path, content })
        },
    }
}

/// Whether `path` is where an entry of `kind` goes at some time of day that a
/// clock can show.
pub open spec fn is_entry_path_of_some_day(path: Seq<char>, repo: Seq<char>, kind: EntryKind)
    -> bool {
    exists|t: LocalTime|
        t.in_range() && path == entry_path(repo, kind, #[trigger] kind.file_name(t))
}

/// Makes today's entry of `kind` in the repository at `repo_path`: reads the
/// local clock for the name, and takes the content from `template` as
/// `entry_named` does. The clock is not read where the template is missing.
pub fn create_entry(repo_path: &str, kind: EntryKind, template: Option<Vec<u8>>) -> (result:
    Result<EntryFile, Error>)
    ensures
        match template {
            Some(bytes) => result matches Ok(entry) && entry.content@ == bytes@
                && is_entry_path_of_some_day(entry.path@, repo_path@, kind),
            None => result == Err::<EntryFile, Error>(Error::TemplateNotFound(kind)),
        },
{
    if template.is_none() {
        return Err(Error::TemplateNotFound(kind));
    }
    proof {
        lemma_entry_pattern(kind, arbitrary());
    }
    let file_name = match kind {
        EntryKind::Journal => local_time_text("%Y-%m-%d-record.md"),
        EntryKind::Note => local_time_text("%Y-%m-%d-note.md"),
    };
    proof {
        let t = choose|t: LocalTime| t.in_range() && file_name@ == render(kind.pattern(), t);
        lemma_entry_pattern(kind, t);
    }
    entry_named(repo_path, kind, file_name.as_str(), template)
}

/// Makes today's journal record from the template `Templates/Journal/_record.md`.
pub fn create_journal_entry(repo_path: &str, template: Option<Vec<u8>>) -> (result: Result<
    EntryFile,
    Error,
>)
    ensures
        match template {
            Some(bytes) => result matches Ok(entry) && entry.content@ == bytes@
                && is_entry_path_of_some_day(entry.path@, repo_path@, EntryKind::Journal),
            None => result == Err::<EntryFile, Error>(
                Error::TemplateNotFound(EntryKind::Journal),
            ),
        },
{
    create_entry(repo_path, EntryKind::Journal, template)
}

/// Makes today's note from the template `Templates/Notes/_note.md`.
pub fn create_note_entry(repo_path: &str, template: Option<Vec<u8>>) -> (result: Result<
    EntryFile,
    Error,
>)
    ensures
        match template {
            Some(bytes) => result matches Ok(entry) && entry.content@ == bytes@
                && is_entry_path_of_some_day(entry.path@, repo_path@, EntryKind::Note),
            None => result == Err::<EntryFile, Error>(Error::TemplateNotFound(EntryKind::Note)),
        },
{
    create_entry(repo_path, EntryKind::Note, template)
}

/// Making an entry twice on one day writes one file: two times of the same
/// day give an entry of one kind the same name, so the same path, and the
/// second write replaces what the first left.
pub proof fn lemma_same_day_same_entry(
    repo: Seq<char>,
    kind: EntryKind,
    first: LocalTime,
    second: LocalTime,
)
    requires
        first.year == second.year,
        first.month == second.month,
        first.day == second.day,
    ensures
        kind.file_name(first) == kind.file_name(second),
        entry_path(repo, kind, kind.file_name(first)) == entry_path(
            repo,
            kind,
            kind.file_name(second),
        ),
{
}

/// An entry's name is a plain name, so the entry lies in the directory of its
/// kind and goes by that name there.
pub proof fn lemma_entry_in_directory(repo: Seq<char>, kind: EntryKind, t: LocalTime)
    requires
        t.in_range(),
    ensures
        is_plain_name(kind.file_name(t)),
        is_inside(entry_path(repo, kind, kind.file_name(t)), join(repo, kind.directory())),
        base_name(entry_path(repo, kind, kind.file_name(t))) == Some(kind.file_name(t)),
{
    reveal_strlit("-record.md");
    reveal_strlit("-note.md");
    let name = kind.file_name(t);
    let date = date_text(t);
    let year = year_text(t.year);
    let n = year.len() as int;
    lemma_first_of_year(t.year);
    lemma_two_digits(t.month as nat);
    lemma_two_digits(t.day as nat);
    assert(date.len() == n + 6);
    assert(date[n] == '-' && date[n + 3] == '-');
    assert(date[n + 1] == digit(t.month / 10) && date[n + 2] == digit(t.month % 10));
    assert(date[n + 4] == digit(t.day / 10) && date[n + 5] == digit(t.day % 10));
    lemma_digit(t.month / 10);
    lemma_digit(t.month % 10);
    lemma_digit(t.day / 10);
    lemma_digit(t.day % 10);
    assert forall|i: int| 0 <= i < name.len() implies name[i] != '/' by {
        if i < n {
            assert(name[i] == year[i]);
            if i == 0 && 0 <= t.year <= 9999 {
                let d = choose|d: int| 0 <= d <= 9 && year[0] == digit(d);
                lemma_digit(d);
            } else if i > 0 {
                let d = choose|d: int| 0 <= d <= 9 && year[i] == digit(d);
                lemma_digit(d);
            }
        } else if i < n + 6 {
            assert(name[i] == date[i]);
        } else {
            assert(name[i] == kind.suffix()[i - n - 6]);
        }
    }
    assert(name.len() > 2);
    lemma_join_relative(join(repo, kind.directory()), name);
    lemma_base_name_of_join(join(repo, kind.directory()), name);
}

/// Entries of one kind made on different days go to different files: two
/// times that give one path are of the same day.
pub proof fn lemma_other_day_other_entry(
    repo: Seq<char>,
    kind: EntryKind,
    first: LocalTime,
    second: LocalTime,
)
    requires
        first.in_range(),
        second.in_range(),
        entry_path(repo, kind, kind.file_name(first)) == entry_path(
            repo,
            kind,
            kind.file_name(second),
        ),
    ensures
        first.year == second.year,
        first.month == second.month,
        first.day == second.day,
{
    let dir = join(repo, kind.directory());
    lemma_entry_in_directory(repo, kind, first);
    lemma_entry_in_directory(repo, kind, second);
    lemma_join_relative(dir, kind.file_name(first));
    lemma_join_relative(dir, kind.file_name(second));
    assert(kind.file_name(first) =~= (as_directory(dir) + kind.file_name(first)).skip(
        as_directory(dir).len() as int,
    ));
    assert(kind.file_name(second) =~= (as_directory(dir) + kind.file_name(second)).skip(
        as_directory(dir).len() as int,
    ));
    lemma_same_parts(date_text(first), kind.suffix(), date_text(second), kind.suffix());
    lemma_date_text_injective(first, second);
}

} // verus!
