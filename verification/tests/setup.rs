use walnut::config::Config;
use walnut::repo::{
    default_base_dir, default_repository_name, layout_directories, list_repositories,
    name_from_stamp, plan_setup, setup_repository,
};
use walnut::select::select_repository;

fn expected_directories(root: &str) -> Vec<String> {
    [
        "Journal",
        "Notes/Personal",
        "Notes/Projects",
        "Notes/Work",
        "References/Articles",
        "References/Bibliography",
        "References/Books",
        "References/Contacts",
        "References/Glossary",
        "References/Media",
        "References/Papers",
        "References/Podcasts",
        "References/WebContent",
        "Templates/Journal",
        "Templates/Notes",
        "Templates/References/Bibliography",
    ]
    .iter()
    .map(|d| format!("{}/{}", root, d))
    .collect()
}

fn stamp_now() -> String {
    chrono::Local::now().format("%Y%m%d%H%M%S").to_string()
}

#[test]
fn layout_has_sixteen_directories() {
    let layout = layout_directories();
    assert_eq!(layout.len(), 16);
    assert_eq!(layout[0], "Journal");
    assert_eq!(layout[12], "References/WebContent");
    assert_eq!(layout[15], "Templates/References/Bibliography");
}

#[test]
fn plan_holds_every_directory_of_the_layout() {
    let plan = plan_setup("/data/walnut_repos", "notes");
    assert_eq!(plan.root, "/data/walnut_repos/notes");
    assert_eq!(plan.directories, expected_directories("/data/walnut_repos/notes"));
    assert_eq!(plan.marker_file, "/data/walnut_repos/notes/walnut.yml");
    assert_eq!(plan.marker_content, "# Walnut configuration file\n");
    assert_eq!(plan.registry_record, "/data/walnut_repos/notes\n");
}

#[test]
fn setup_with_name_and_location() {
    let config = Config::default();
    let plan = setup_repository(
        Some("r1".to_string()),
        Some("/home/u".to_string()),
        None,
        &config,
    )
    .unwrap();
    assert_eq!(plan, plan_setup("/home/u", "r1"));
    assert_eq!(plan.root, "/home/u/r1");
    assert_eq!(plan.directories.len(), 16);
}

#[test]
fn setup_registers_the_root_last() {
    let config = Config::default();
    let plan = setup_repository(
        Some("r3".to_string()),
        Some("/home/u".to_string()),
        None,
        &config,
    )
    .unwrap();
    let registry = format!("/home/u/r1\n/home/u/r2\n{}", plan.registry_record);
    let listed = list_repositories(Some(&registry), &config);
    assert_eq!(listed.len(), 3);
    assert_eq!(listed.last(), Some(&"/home/u/r3".to_string()));
    assert_eq!(registry.lines().last(), Some("/home/u/r3"));
    assert_eq!(select_repository(&listed, Some("r3")), Ok("/home/u/r3".to_string()));
}

#[test]
fn two_names_give_two_repositories() {
    let config = Config::default();
    let location = Some("/home/u/repos".to_string());
    let first =
        setup_repository(Some("alpha".to_string()), location.clone(), None, &config).unwrap();
    let second =
        setup_repository(Some("beta".to_string()), location.clone(), None, &config).unwrap();
    assert_ne!(first.root, second.root);
    assert_ne!(first.marker_file, second.marker_file);
    for path in &first.directories {
        assert!(path.starts_with("/home/u/repos/alpha/"));
        assert!(!second.directories.contains(path));
    }
    for path in &second.directories {
        assert!(path.starts_with("/home/u/repos/beta/"));
    }
    let registry = format!("{}{}", first.registry_record, second.registry_record);
    assert_eq!(
        list_repositories(Some(&registry), &config),
        vec!["/home/u/repos/alpha".to_string(), "/home/u/repos/beta".to_string()]
    );
}

#[test]
fn location_defaults_to_the_data_directory() {
    let config = Config::default();
    let plan =
        setup_repository(Some("r1".to_string()), None, Some("/home/u/.local/share"), &config)
            .unwrap();
    assert_eq!(plan.root, "/home/u/.local/share/walnut_repos/r1");
    assert_eq!(default_base_dir("/home/u/.local/share"), "/home/u/.local/share/walnut_repos");
}

#[test]
fn location_wins_over_the_data_directory() {
    let config = Config::default();
    let plan = setup_repository(
        Some("r1".to_string()),
        Some("/srv".to_string()),
        Some("/home/u/.local/share"),
        &config,
    )
    .unwrap();
    assert_eq!(plan.root, "/srv/r1");
}

#[test]
fn name_defaults_to_the_time() {
    let config = Config::default();
    let before = stamp_now();
    let plan = setup_repository(None, Some("/srv".to_string()), None, &config).unwrap();
    let after = stamp_now();
    let name = plan.root.strip_prefix("/srv/walnut_").unwrap();
    assert_eq!(name.len(), 14);
    assert!(name.bytes().all(|b| b.is_ascii_digit()));
    assert!(before.as_str() <= name && name <= after.as_str(), "name {:?}", name);
    assert_eq!(plan.directories, expected_directories(&plan.root));
}

#[test]
fn default_name_is_the_stamp_behind_walnut() {
    assert_eq!(name_from_stamp("20240506070809"), "walnut_20240506070809");
    let before = stamp_now();
    let name = default_repository_name();
    let after = stamp_now();
    let stamp = name.strip_prefix("walnut_").unwrap();
    assert_ne!(stamp, "%Y%m%d%H%M%S");
    assert!(before.as_str() <= stamp && stamp <= after.as_str(), "stamp {:?}", stamp);
}

#[test]
fn names_of_two_seconds_differ() {
    assert_ne!(name_from_stamp("20240506070809"), name_from_stamp("20240506070810"));
    let first = plan_setup("/srv", &name_from_stamp("20240506070809"));
    let second = plan_setup("/srv", &name_from_stamp("20240506070810"));
    assert_ne!(first.root, second.root);
    assert_eq!(first.root, "/srv/walnut_20240506070809");
}

#[test]
fn repository_without_location_or_override_goes_under_the_platform() {
    let config = Config::default();
    let expected = directories::BaseDirs::new()
        .and_then(|dirs| dirs.data_dir().to_str().map(|s| format!("{}/walnut_repos/r1", s)));
    match setup_repository(Some("r1".to_string()), None, None, &config) {
        Ok(plan) => assert_eq!(Some(plan.root), expected),
        Err(e) => {
            assert_eq!(e, walnut::error::Error::NoHomeDirectory);
            assert_eq!(expected, None);
        }
    }
}
