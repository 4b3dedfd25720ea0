use std::io::BufRead;

use walnut::config::Config;
use walnut::error::Error;
use walnut::repo::{add_repository, list_repositories, registry_file};
use walnut::select::{resolve_repository, select_repository};

fn strings(items: &[&str]) -> Vec<String> {
    items.iter().map(|s| s.to_string()).collect()
}

/// The paths that reading the content line by line and dropping blank lines
/// gives, with the standard library's own line reader.
fn by_line_reader(content: &str) -> Vec<String> {
    let mut paths = Vec::new();
    for line in content.as_bytes().lines() {
        let line = line.unwrap();
        if !line.trim().is_empty() {
            paths.push(line);
        }
    }
    paths
}

#[test]
fn missing_registry_lists_nothing() {
    let config = Config::default();
    assert_eq!(list_repositories(None, &config), Vec::<String>::new());
}

#[test]
fn empty_registry_lists_nothing() {
    let config = Config::default();
    assert_eq!(list_repositories(Some(""), &config), Vec::<String>::new());
    assert_eq!(list_repositories(Some("\n\n  \n"), &config), Vec::<String>::new());
}

#[test]
fn blank_lines_are_skipped_and_order_is_kept() {
    let config = Config::default();
    let content = "\n/home/u/r1\n   \n\t\n/home/u/r2\n\n/srv/notes\n\n";
    assert_eq!(
        list_repositories(Some(content), &config),
        strings(&["/home/u/r1", "/home/u/r2", "/srv/notes"])
    );
    assert_eq!(list_repositories(Some(content), &config).len(), 3);
}

#[test]
fn duplicates_stay() {
    let config = Config::default();
    assert_eq!(
        list_repositories(Some("/a\n/b\n/a\n"), &config),
        strings(&["/a", "/b", "/a"])
    );
}

#[test]
fn last_line_needs_no_line_feed() {
    let config = Config::default();
    assert_eq!(list_repositories(Some("/a\n/b"), &config), strings(&["/a", "/b"]));
}

#[test]
fn carriage_return_before_line_feed_is_dropped() {
    let config = Config::default();
    assert_eq!(
        list_repositories(Some("/a\r\n/b\r\n"), &config),
        strings(&["/a", "/b"])
    );
    assert_eq!(list_repositories(Some("/a\r"), &config), strings(&["/a\r"]));
    assert_eq!(list_repositories(Some("/a\r\r\n"), &config), strings(&["/a\r"]));
}

#[test]
fn lines_are_not_trimmed() {
    let config = Config::default();
    assert_eq!(
        list_repositories(Some("  /a b \n\u{3000}\n"), &config),
        strings(&["  /a b "])
    );
}

#[test]
fn listing_agrees_with_the_line_reader() {
    let config = Config::default();
    let samples = [
        "",
        "\n",
        "a",
        "a\n",
        "a\nb",
        "a\r\nb\r\n",
        "\r\n\r\n",
        "a\r",
        "\ra\n",
        " \n\t\n\u{a0}\n\u{2003}x\n",
        "/home/u/r1\n\n/home/u/r2\n",
        "x\n\n\ny\n \nz",
        "päth/ä\nλ\n",
    ];
    for content in samples {
        assert_eq!(
            list_repositories(Some(content), &config),
            by_line_reader(content),
            "content {:?}",
            content
        );
    }
}

#[test]
fn record_is_path_and_line_feed() {
    assert_eq!(add_repository("/home/u/r1"), "/home/u/r1\n");
    assert_eq!(add_repository(""), "\n");
}

#[test]
fn added_repository_is_listed_last() {
    let config = Config::default();
    let before = "/home/u/r1\n\n/home/u/r2\n".to_string();
    let after = format!("{}{}", before, add_repository("/srv/new"));
    assert_eq!(
        list_repositories(Some(&after), &config),
        strings(&["/home/u/r1", "/home/u/r2", "/srv/new"])
    );
    let first = add_repository("/srv/only");
    assert_eq!(list_repositories(Some(&first), &config), strings(&["/srv/only"]));
}

#[test]
fn registry_file_is_in_the_config_dir() {
    assert_eq!(registry_file("/home/u/.config/walnut"), "/home/u/.config/walnut/repositories");
}

#[test]
fn first_repository_is_the_default() {
    let config = Config::default();
    let registry = "/home/u/r1\n/home/u/r2\n";
    assert_eq!(
        resolve_repository(Some(registry), None, &config),
        Ok("/home/u/r1".to_string())
    );
}

#[test]
fn repository_is_found_by_base_name() {
    let config = Config::default();
    let registry = "/home/u/r1\n/home/u/r2\n";
    assert_eq!(
        resolve_repository(Some(registry), Some("r2"), &config),
        Ok("/home/u/r2".to_string())
    );
    assert_eq!(
        resolve_repository(Some(registry), Some("r1"), &config),
        Ok("/home/u/r1".to_string())
    );
}

#[test]
fn unknown_name_is_not_found() {
    let config = Config::default();
    let registry = "/home/u/r1\n/home/u/r2\n";
    assert_eq!(
        resolve_repository(Some(registry), Some("r3"), &config),
        Err(Error::RepositoryNotFound)
    );
    assert_eq!(
        resolve_repository(Some(registry), Some("u"), &config),
        Err(Error::RepositoryNotFound)
    );
    assert_eq!(
        resolve_repository(Some(registry), Some("/home/u/r1"), &config),
        Err(Error::RepositoryNotFound)
    );
}

#[test]
fn empty_registry_has_no_repositories() {
    let config = Config::default();
    assert_eq!(resolve_repository(None, None, &config), Err(Error::NoRepositories));
    assert_eq!(resolve_repository(Some("\n \n"), None, &config), Err(Error::NoRepositories));
    assert_eq!(
        resolve_repository(None, Some("r1"), &config),
        Err(Error::NoRepositories)
    );
    assert_eq!(select_repository(&Vec::new(), Some("r1")), Err(Error::NoRepositories));
}

#[test]
fn first_of_two_with_one_name_wins() {
    let repos = strings(&["/a/notes", "/b/other", "/c/notes/", "/d/notes"]);
    assert_eq!(select_repository(&repos, Some("notes")), Ok("/a/notes".to_string()));
    assert_eq!(select_repository(&repos, Some("other")), Ok("/b/other".to_string()));
    let later = strings(&["/b/other", "/c/notes/", "/d/notes"]);
    assert_eq!(select_repository(&later, Some("notes")), Ok("/c/notes/".to_string()));
    assert_eq!(select_repository(&later, None), Ok("/b/other".to_string()));
}
