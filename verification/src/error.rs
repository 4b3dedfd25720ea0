//! What can go wrong in the library's own decisions.

use vstd::prelude::*;
use vstd::string::*;
use crate::new::EntryKind;

verus! {

/// A failure that ends the current command.
#[derive(Debug, Clone, PartialEq, Eq)]
pub enum Error {
    /// The settings file is malformed; holds the parser's complaint.
    ConfigLoad(String),
    /// The repository lacks the template for this kind of entry.
    TemplateNotFound(EntryKind),
    /// No registered repository goes by the name that was asked for.
    RepositoryNotFound,
    /// The registry lists no repository at all.
    NoRepositories,
    /// The platform names no home directory, so the default directories are
    /// unknown.
    NoHomeDirectory,
}

impl Error {
    /// The text shown to the user for this failure.
    pub open spec fn message_text(self) -> Seq<char> {
        match self {
            Error::ConfigLoad(complaint) => complaint@,
            Error::TemplateNotFound(EntryKind::Journal) => "Journal template not found"@,
            Error::TemplateNotFound(EntryKind::Note) => "Note template not found"@,
            Error::RepositoryNotFound => "Specified walnut repository not found."@,
            Error::NoRepositories => "No repositories found. Please run `walnut setup` first."@,
            Error::NoHomeDirectory => "No home directory could be determined."@,
        }
    }

    /// The text shown to the user for this failure.
    pub fn message(&self) -> (text: String)
        ensures
            text@ == self.message_text(),
    {
        match self {
            Error::ConfigLoad(complaint) => complaint.clone(),
            Error::TemplateNotFound(EntryKind::Journal) => String::from_str(
                "Journal template not found",
            ),
            Error::TemplateNotFound(EntryKind::Note) => String::from_str("Note template not found"),
            Error::RepositoryNotFound => String::from_str("Specified walnut repository not found."),
            Error::NoRepositories => String::from_str(
                "No repositories found. Please run `walnut setup` first.",
            ),
            Error::NoHomeDirectory => String::from_str("No home directory could be determined."),
        }
    }
}

} // verus!
