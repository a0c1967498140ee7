use addon_manifest::{
    construct_addon, is_manifest_entry, parse_manifest, select_manifest, Addon, DirEntryInfo,
    ExtractError,
};

fn lines(text: &[&str]) -> Vec<String> {
    text.iter().map(|l| l.to_string()).collect()
}

fn entry(name: &str, is_file: bool) -> DirEntryInfo {
    DirEntryInfo { name: name.to_string(), is_file }
}

#[test]
fn title_and_version_are_read() {
    let m = lines(&["## Interface: 11302", "## Title: Bagnon", "## Version: 8.2.1", "Bagnon.lua"]);
    let r = construct_addon("/games/AddOns/Bagnon", Some(&m));
    assert_eq!(
        r,
        Ok(Addon {
            title: "Bagnon".to_string(),
            version: Some("8.2.1".to_string()),
            path: "/games/AddOns/Bagnon".to_string(),
            update_site: None,
            attachments: None,
        })
    );
}

#[test]
fn title_without_version() {
    let m = lines(&["## Title: Bagnon_Config", "## Notes: settings"]);
    let a = construct_addon("/games/AddOns/Bagnon_Config", Some(&m)).unwrap();
    assert_eq!(a.title, "Bagnon_Config");
    assert_eq!(a.version, None);
    assert_eq!(a.path, "/games/AddOns/Bagnon_Config");
}

#[test]
fn last_title_wins() {
    let m = lines(&["## Title: First", "## Version: 1", "## Title: Second", "## Version: 2", "x.lua"]);
    let a = construct_addon("d", Some(&m)).unwrap();
    assert_eq!(a.title, "Second");
    assert_eq!(a.version, Some("2".to_string()));
}

#[test]
fn no_manifest_is_io_error() {
    let entries = vec![entry("Bagnon.lua", true), entry("libs", false), entry("readme.txt", true)];
    assert_eq!(select_manifest(&entries), None);
    assert_eq!(construct_addon("d", None), Err(ExtractError::IoError));
}

#[test]
fn empty_directory_has_no_manifest() {
    assert_eq!(select_manifest(&Vec::new()), None);
}

#[test]
fn no_title_is_missing_title_error() {
    let m = lines(&["## Version: 1.0", "## Notes: nothing", "# Title: not a metadata line"]);
    assert_eq!(construct_addon("d", Some(&m)), Err(ExtractError::MissingTitleError));
}

#[test]
fn empty_manifest_is_missing_title_error() {
    assert_eq!(construct_addon("d", Some(&Vec::new())), Err(ExtractError::MissingTitleError));
}

#[test]
fn extracting_twice_gives_equal_records() {
    let entries = vec![entry("Bagnon.lua", true), entry("Bagnon.toc", true), entry("Other.toc", true)];
    let m = lines(&["## Title: Bagnon", "## Version: 8.2.1"]);
    let first = select_manifest(&entries);
    let second = select_manifest(&entries);
    assert_eq!(first, Some(1));
    assert_eq!(first, second);
    assert_eq!(construct_addon("d", Some(&m)), construct_addon("d", Some(&m)));
}

#[test]
fn unknown_keys_are_ignored() {
    let plain = lines(&["## Title: Bagnon", "## Version: 8.2.1"]);
    let noisy = lines(&[
        "## Notes: foo",
        "## Title: Bagnon",
        "## Author: someone",
        "## Version: 8.2.1",
        "## SavedVariables: BagnonSets",
    ]);
    assert_eq!(construct_addon("d", Some(&noisy)), construct_addon("d", Some(&plain)));
}

#[test]
fn title_is_not_trimmed_further() {
    let m = lines(&["## Title: Bagnon (r123)"]);
    let a = construct_addon("d", Some(&m)).unwrap();
    assert_eq!(a.title, "Bagnon (r123)");
}

#[test]
fn spaces_after_key_are_kept() {
    let m = lines(&["## Title:  Spaced  ", "## Version: "]);
    let d = parse_manifest(&m);
    assert_eq!(d.title, Some(" Spaced  ".to_string()));
    assert_eq!(d.version, Some(String::new()));
}

#[test]
fn key_needs_marker_and_exact_spelling() {
    let m = lines(&["##Title: A", "#Title: B", "Title: C", "## title: D", "## Title:E", " ## Title: F"]);
    let d = parse_manifest(&m);
    assert_eq!(d.title, None);
    assert_eq!(d.version, None);
}

#[test]
fn parse_keeps_last_of_each_key() {
    let m = lines(&["## Version: 1", "## Title: A", "## Version: 2", "## Title: B", "## Notes: ## Title: C"]);
    let d = parse_manifest(&m);
    assert_eq!(d.title, Some("B".to_string()));
    assert_eq!(d.version, Some("2".to_string()));
}

#[test]
fn first_manifest_in_listing_order() {
    let entries = vec![entry("Zed.toc", true), entry("Alpha.toc", true)];
    assert_eq!(select_manifest(&entries), Some(0));
}

#[test]
fn directories_are_not_manifests() {
    let entries = vec![entry("Old.toc", false), entry("Bagnon.toc", true)];
    assert_eq!(select_manifest(&entries), Some(1));
}

#[test]
fn manifest_name_must_end_with_extension() {
    assert!(is_manifest_entry(&entry("Bagnon.toc", true)));
    assert!(is_manifest_entry(&entry(".toc", true)));
    assert!(!is_manifest_entry(&entry("Bagnon.toc.bak", true)));
    assert!(!is_manifest_entry(&entry("Bagnontoc", true)));
    assert!(!is_manifest_entry(&entry("Bagnon.TOC", true)));
    assert!(!is_manifest_entry(&entry("toc", true)));
    assert!(!is_manifest_entry(&entry("Bagnon.toc", false)));
}
