use anki_counts::fspath::FsPath;
use anki_counts::resolve::{
    default_paths, dedup_paths, filter_profile, find_db, get_profile_names, trim_to_install_path,
    ResolveError, RootListing,
};

fn path(parts: &[&str]) -> FsPath {
    FsPath::new(parts.iter().map(|s| s.to_string()).collect())
}

fn parts(p: &FsPath) -> Vec<String> {
    p.components.clone()
}

fn listing(root: &[&str], collections: &[&[&str]]) -> RootListing {
    RootListing {
        root: path(root),
        collections: collections.iter().map(|c| path(c)).collect(),
    }
}

#[test]
fn single_root_single_file_resolves() {
    let col = &["home", "u", ".local", "share", "Anki2", "User 1", "collection.anki2"][..];
    let listings = vec![
        listing(&["home", "u", ".var", "app", "net.ankiweb.Anki", "data", "Anki2"], &[]),
        listing(&["home", "u", ".local", "share", "Anki2"], &[col]),
    ];
    let got = find_db(listings, None).expect("one file under one root must resolve");
    assert_eq!(parts(&got), path(col).components);
}

#[test]
fn two_roots_fail_as_ambiguous_install() {
    let a = &["home", "u", ".var", "app", "net.ankiweb.Anki", "data", "Anki2", "A", "collection.anki2"][..];
    let b = &["home", "u", ".local", "share", "Anki2", "B", "collection.anki2"][..];
    let listings = vec![
        listing(&["home", "u", ".var", "app", "net.ankiweb.Anki", "data", "Anki2"], &[a]),
        listing(&["home", "u", ".local", "share", "Anki2"], &[b]),
    ];
    match find_db(listings, None) {
        Err(ResolveError::AmbiguousInstall { installs }) => {
            let got: Vec<Vec<String>> = installs.iter().map(parts).collect();
            assert_eq!(
                got,
                vec![
                    path(&["home", "u", ".var", "app", "net.ankiweb.Anki", "data", "Anki2"])
                        .components,
                    path(&["home", "u", ".local", "share", "Anki2"]).components,
                ]
            );
        }
        other => panic!("expected an ambiguous-install failure, got {:?}", other.is_ok()),
    }
}

#[test]
fn ambiguous_install_list_has_no_duplicates() {
    // Two candidate roots that see files under the same install directory.
    let a = &["data", "Anki2", "A", "collection.anki2"][..];
    let b = &["data", "Anki2", "B", "collection.anki2"][..];
    let listings = vec![
        listing(&["data"], &[a]),
        listing(&["data", "Anki2"], &[b]),
    ];
    match find_db(listings, None) {
        Err(ResolveError::AmbiguousInstall { installs }) => {
            assert_eq!(installs.len(), 1);
            assert_eq!(parts(&installs[0]), path(&["data", "Anki2"]).components);
        }
        other => panic!("expected an ambiguous-install failure, got {:?}", other.is_ok()),
    }
}

#[test]
fn untrimmable_path_fails_as_malformed() {
    let a = &["one", "Anki2", "A", "collection.anki2"][..];
    let b = &["two", "elsewhere", "collection.anki2"][..];
    let listings = vec![listing(&["one"], &[a]), listing(&["two"], &[b])];
    match find_db(listings, None) {
        Err(ResolveError::MalformedInstallPath) => {}
        other => panic!("expected a malformed-path failure, got {:?}", other.is_ok()),
    }
}

#[test]
fn profile_filter_narrows_to_one() {
    let alice = &["home", "u", "Anki2", "Alice", "collection.anki2"][..];
    let bob = &["home", "u", "Anki2", "Bob", "collection.anki2"][..];
    let listings = vec![listing(&["home", "u", "Anki2"], &[alice, bob])];
    let got = find_db(listings, Some("Alice".to_string())).expect("filter must pick Alice");
    assert_eq!(parts(&got), path(alice).components);
}

#[test]
fn profile_filter_narrowing_to_zero_is_not_no_data_paths() {
    let alice = &["home", "u", "Anki2", "Alice", "collection.anki2"][..];
    let bob = &["home", "u", "Anki2", "Bob", "collection.anki2"][..];
    let listings = vec![listing(&["home", "u", "Anki2"], &[alice, bob])];
    match find_db(listings, Some("Carol".to_string())) {
        Err(ResolveError::NoProfileMatch) => {}
        Err(ResolveError::NoDataPaths { .. }) => {
            panic!("an empty profile match must not be reported as missing data paths")
        }
        other => panic!("expected a no-profile-match failure, got {:?}", other.is_ok()),
    }
}

#[test]
fn empty_override_fails_with_no_data_paths() {
    let over = &["mnt", "backup", "anki"][..];
    let listings = vec![listing(over, &[])];
    match find_db(listings, None) {
        Err(ResolveError::NoDataPaths { checked }) => {
            assert_eq!(checked.len(), 1);
            assert_eq!(parts(&checked[0]), path(over).components);
        }
        other => panic!("expected a no-data-paths failure, got {:?}", other.is_ok()),
    }
}

#[test]
fn ambiguous_profiles_are_suggested() {
    let alice = &["home", "u", "Anki2", "Alice", "collection.anki2"][..];
    let bob = &["home", "u", "Anki2", "Bob", "collection.anki2"][..];
    let listings = vec![listing(&["home", "u", "Anki2"], &[alice, bob])];
    match find_db(listings, None) {
        Err(ResolveError::AmbiguousProfile { candidates, profiles }) => {
            assert_eq!(candidates.len(), 2);
            assert_eq!(profiles, vec!["Alice".to_string(), "Bob".to_string()]);
        }
        other => panic!("expected an ambiguous-profile failure, got {:?}", other.is_ok()),
    }
}

#[test]
fn filter_profile_matches_whole_components_only() {
    let alice = path(&["home", "Anki2", "Alice", "collection.anki2"]);
    let alina = path(&["home", "Anki2", "Alina", "collection.anki2"]);
    let kept = filter_profile(vec![alice, alina], "Ali".to_string());
    assert!(kept.is_empty());

    let alice = path(&["home", "Anki2", "Alice", "collection.anki2"]);
    let alina = path(&["home", "Anki2", "Alina", "collection.anki2"]);
    let kept = filter_profile(vec![alice, alina], "Alice".to_string());
    assert_eq!(kept.len(), 1);
    assert_eq!(parts(&kept[0]), path(&["home", "Anki2", "Alice", "collection.anki2"]).components);
}

#[test]
fn trimming_stops_at_the_deepest_marker() {
    let p = path(&["a", "Anki2", "b", "Anki2", "c", "collection.anki2"]);
    let trimmed = trim_to_install_path(vec![p]).expect("a marked path must trim");
    assert_eq!(parts(&trimmed[0]), path(&["a", "Anki2", "b", "Anki2"]).components);
}

#[test]
fn trimming_without_marker_fails() {
    let p = path(&["a", "b", "collection.anki2"]);
    match trim_to_install_path(vec![p]) {
        Err(ResolveError::MalformedInstallPath) => {}
        other => panic!("expected a malformed-path failure, got {:?}", other.is_ok()),
    }
}

#[test]
fn profile_names_follow_the_first_marker() {
    let ps = vec![
        path(&["x", "Anki2", "Alice", "collection.anki2"]),
        path(&["y", "Anki2"]),
        path(&["z", "Anki2", "Bob", "collection.anki2"]),
    ];
    let names = get_profile_names(&ps);
    assert_eq!(names, vec!["Alice".to_string(), "Bob".to_string()]);
}

#[test]
fn profile_names_are_listed_once_each() {
    let ps = vec![
        path(&["x", "Anki2", "Alice", "collection.anki2"]),
        path(&["x", "Anki2", "Alice", "backup", "collection.anki2"]),
        path(&["x", "Anki2", "Bob", "collection.anki2"]),
        path(&["x", "Anki2", "Alice", "old", "collection.anki2"]),
    ];
    let names = get_profile_names(&ps);
    assert_eq!(names, vec!["Alice".to_string(), "Bob".to_string()]);
}

#[test]
fn ambiguous_profile_suggestions_hold_no_name_twice() {
    let first = &["home", "u", "Anki2", "Alice", "collection.anki2"][..];
    let second = &["home", "u", "Anki2", "Alice", "backup", "collection.anki2"][..];
    let listings = vec![listing(&["home", "u", "Anki2"], &[first, second])];
    match find_db(listings, None) {
        Err(ResolveError::AmbiguousProfile { candidates, profiles }) => {
            assert_eq!(candidates.len(), 2);
            assert_eq!(profiles, vec!["Alice".to_string()]);
        }
        other => panic!("expected an ambiguous-profile failure, got {:?}", other.is_ok()),
    }
}

#[test]
fn dedup_keeps_first_occurrences_in_order() {
    let ps = vec![
        path(&["a", "Anki2"]),
        path(&["b", "Anki2"]),
        path(&["a", "Anki2"]),
        path(&["c", "Anki2"]),
        path(&["b", "Anki2"]),
    ];
    let d = dedup_paths(ps);
    let got: Vec<Vec<String>> = d.iter().map(parts).collect();
    assert_eq!(
        got,
        vec![
            path(&["a", "Anki2"]).components,
            path(&["b", "Anki2"]).components,
            path(&["c", "Anki2"]).components,
        ]
    );
}

#[test]
fn default_paths_without_data_dir() {
    let home = path(&["home", "u"]);
    let roots = default_paths(home, None);
    let got: Vec<Vec<String>> = roots.iter().map(parts).collect();
    assert_eq!(
        got,
        vec![
            path(&["home", "u", ".var", "app", "net.ankiweb.Anki", "data", "Anki2"]).components,
            path(&["home", "u", ".local", "share", "Anki2"]).components,
        ]
    );
}

#[test]
fn default_paths_with_data_dir() {
    let home = path(&["home", "u"]);
    let data = path(&["home", "u", "xdg"]);
    let roots = default_paths(home, Some(data));
    let got: Vec<Vec<String>> = roots.iter().map(parts).collect();
    assert_eq!(
        got,
        vec![
            path(&["home", "u", ".var", "app", "net.ankiweb.Anki", "data", "Anki2"]).components,
            path(&["home", "u", ".local", "share", "Anki2"]).components,
            path(&["home", "u", "xdg", "Anki2"]).components,
        ]
    );
}
