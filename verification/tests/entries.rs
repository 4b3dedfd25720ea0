use walnut::error::Error;
use walnut::new::{
    create_entry, create_journal_entry, create_note_entry, entry_named, template_file, EntryFile,
    EntryKind,
};

/// Today's date as chrono writes it, read before and after the call under
/// test, so that a test that runs across midnight still knows both days.
fn today() -> String {
    chrono::Local::now().format("%Y-%m-%d").to_string()
}

fn is_date_name(name: &str, suffix: &str) -> bool {
    let bytes = name.as_bytes();
    name.len() == 10 + suffix.len()
        && name.ends_with(suffix)
        && bytes[..4].iter().all(|b| b.is_ascii_digit())
        && bytes[4] == b'-'
        && bytes[5..7].iter().all(|b| b.is_ascii_digit())
        && bytes[7] == b'-'
        && bytes[8..10].iter().all(|b| b.is_ascii_digit())
}

#[test]
fn templates_lie_at_fixed_places() {
    assert_eq!(
        template_file("/home/u/r1", EntryKind::Journal),
        "/home/u/r1/Templates/Journal/_record.md"
    );
    assert_eq!(
        template_file("/home/u/r1", EntryKind::Note),
        "/home/u/r1/Templates/Notes/_note.md"
    );
}

#[test]
fn journal_without_template_fails() {
    assert_eq!(
        create_journal_entry("/home/u/r1", None),
        Err(Error::TemplateNotFound(EntryKind::Journal))
    );
    assert_eq!(
        create_entry("/home/u/r1", EntryKind::Journal, None),
        Err(Error::TemplateNotFound(EntryKind::Journal))
    );
}

#[test]
fn note_without_template_fails() {
    assert_eq!(
        create_note_entry("/home/u/r1", None),
        Err(Error::TemplateNotFound(EntryKind::Note))
    );
    assert_eq!(
        entry_named("/home/u/r1", EntryKind::Note, "2024-05-06-note.md", None),
        Err(Error::TemplateNotFound(EntryKind::Note))
    );
}

#[test]
fn note_is_a_copy_of_its_template() {
    let before = today();
    let entry = create_note_entry("/home/u/r1", Some(b"# Note\n".to_vec())).unwrap();
    let after = today();
    assert_eq!(entry.content, b"# Note\n".to_vec());
    let early = format!("/home/u/r1/Notes/Personal/{}-note.md", before);
    let late = format!("/home/u/r1/Notes/Personal/{}-note.md", after);
    assert!(entry.path == early || entry.path == late, "path {:?}", entry.path);
}

#[test]
fn journal_record_is_named_after_today() {
    let before = today();
    let entry = create_journal_entry("/home/u/r1", Some(b"# {{date}}\n".to_vec())).unwrap();
    let after = today();
    assert_eq!(entry.content, b"# {{date}}\n".to_vec());
    let early = format!("/home/u/r1/Journal/{}-record.md", before);
    let late = format!("/home/u/r1/Journal/{}-record.md", after);
    assert!(entry.path == early || entry.path == late, "path {:?}", entry.path);
    let name = entry.path.strip_prefix("/home/u/r1/Journal/").unwrap();
    assert!(is_date_name(name, "-record.md"), "name {:?}", name);
    assert_ne!(name, "%Y-%m-%d-record.md");
}

#[test]
fn content_is_copied_byte_for_byte() {
    let template = vec![0u8, 255, 10, 13, 37, 89, 0xC3, 0x28];
    let entry = create_entry("repo", EntryKind::Note, Some(template.clone())).unwrap();
    assert_eq!(entry.content, template);
    let empty = create_entry("repo", EntryKind::Journal, Some(Vec::new())).unwrap();
    assert_eq!(empty.content, Vec::<u8>::new());
}

#[test]
fn second_entry_of_a_day_replaces_the_first() {
    let mut tries = 0;
    loop {
        let before = today();
        let first = create_journal_entry("/r", Some(b"same".to_vec())).unwrap();
        let second = create_journal_entry("/r", Some(b"same".to_vec())).unwrap();
        let after = today();
        if before == after {
            assert_eq!(first.path, second.path);
            assert_eq!(first.content, second.content);
            assert_eq!(first, second);
            break;
        }
        tries += 1;
        assert!(tries < 3);
    }
}

#[test]
fn named_entry_goes_to_its_directory() {
    assert_eq!(
        entry_named("/home/u/r1", EntryKind::Journal, "2024-05-06-record.md", Some(b"x".to_vec())),
        Ok(EntryFile {
            path: "/home/u/r1/Journal/2024-05-06-record.md".to_string(),
            content: b"x".to_vec(),
        })
    );
    assert_eq!(
        entry_named("r1/", EntryKind::Note, "2024-05-06-note.md", Some(Vec::new())),
        Ok(EntryFile {
            path: "r1/Notes/Personal/2024-05-06-note.md".to_string(),
            content: Vec::new(),
        })
    );
}

#[test]
fn kinds_have_their_words() {
    assert_eq!(EntryKind::from_word("journal"), Some(EntryKind::Journal));
    assert_eq!(EntryKind::from_word("note"), Some(EntryKind::Note));
    assert_eq!(EntryKind::from_word("Journal"), None);
    assert_eq!(EntryKind::from_word(""), None);
    assert_eq!(EntryKind::from_word("notes"), None);
    assert_eq!(EntryKind::default(), EntryKind::Journal);
}

#[test]
fn failures_have_their_messages() {
    assert_eq!(
        Error::TemplateNotFound(EntryKind::Journal).message(),
        "Journal template not found"
    );
    assert_eq!(Error::TemplateNotFound(EntryKind::Note).message(), "Note template not found");
    assert_eq!(
        Error::RepositoryNotFound.message(),
        "Specified walnut repository not found."
    );
    assert_eq!(
        Error::NoRepositories.message(),
        "No repositories found. Please run `walnut setup` first."
    );
    assert_eq!(Error::ConfigLoad("bad".to_string()).message(), "bad");
    assert_eq!(Error::NoHomeDirectory.message(), "No home directory could be determined.");
}

#[test]
fn entries_of_two_days_are_two_files() {
    let monday =
        entry_named("/r", EntryKind::Journal, "2024-05-06-record.md", Some(b"x".to_vec())).unwrap();
    let tuesday =
        entry_named("/r", EntryKind::Journal, "2024-05-07-record.md", Some(b"x".to_vec())).unwrap();
    assert_ne!(monday.path, tuesday.path);
    let again =
        entry_named("/r", EntryKind::Journal, "2024-05-06-record.md", Some(b"x".to_vec())).unwrap();
    assert_eq!(monday, again);
}

#[test]
fn record_and_note_of_one_day_are_two_files() {
    let before = today();
    let record = create_journal_entry("/r", Some(b"x".to_vec())).unwrap();
    let note = create_note_entry("/r", Some(b"x".to_vec())).unwrap();
    let after = today();
    assert_ne!(record.path, note.path);
    if before == after {
        assert_eq!(record.path, format!("/r/Journal/{}-record.md", before));
        assert_eq!(note.path, format!("/r/Notes/Personal/{}-note.md", before));
    }
}
