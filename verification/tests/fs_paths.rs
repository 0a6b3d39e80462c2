use m87_client::fs::{fingerprint, matches_exclude, plan_sync, FileEntry, FileTree, LocalOrRemotePath};

// --- LocalOrRemotePath::parse ---

#[test]
fn test_local_or_remote_path_parse_local() {
    let path = LocalOrRemotePath::parse("foo/bar/baz");
    match path {
        LocalOrRemotePath::Local(p) => {
            assert_eq!(p, "foo/bar/baz");
        }
        _ => panic!("Expected Local variant"),
    }
}

#[test]
fn test_local_or_remote_path_parse_remote() {
    let path = LocalOrRemotePath::parse("mydevice:/home/user/file.txt");
    match path {
        LocalOrRemotePath::Remote { device, path } => {
            assert_eq!(device, "mydevice");
            assert_eq!(path, "/home/user/file.txt");
        }
        _ => panic!("Expected Remote variant"),
    }
}

#[test]
fn test_local_or_remote_path_parse_empty() {
    let path = LocalOrRemotePath::parse("");
    match path {
        LocalOrRemotePath::Local(p) => {
            assert_eq!(p, "");
        }
        _ => panic!("Expected Local variant"),
    }
}

#[test]
fn test_local_or_remote_path_parse_remote_empty_path() {
    let path = LocalOrRemotePath::parse("device:");
    match path {
        LocalOrRemotePath::Remote { device, path } => {
            assert_eq!(device, "device");
            assert_eq!(path, "");
        }
        _ => panic!("Expected Remote variant"),
    }
}

#[test]
fn parse_splits_at_first_colon_only() {
    match LocalOrRemotePath::parse("dev:a:b") {
        LocalOrRemotePath::Remote { device, path } => {
            assert_eq!(device, "dev");
            assert_eq!(path, "a:b");
        }
        _ => panic!("Expected Remote variant"),
    }
}

// --- LocalOrRemotePath::from_path ---

#[test]
fn test_local_or_remote_path_from_path_local() {
    let base = LocalOrRemotePath::Local("/base".to_string());
    let full = "/base/subdir/file.txt";

    let result = LocalOrRemotePath::from_path(&base, full);
    match result {
        LocalOrRemotePath::Local(p) => {
            assert_eq!(p, "/base/subdir/file.txt");
        }
        _ => panic!("Expected Local variant"),
    }
}

#[test]
fn test_local_or_remote_path_from_path_remote() {
    let base = LocalOrRemotePath::Remote {
        device: "mydevice".to_string(),
        path: "/base".to_string(),
    };
    let full = "/base/subdir/file.txt";

    let result = LocalOrRemotePath::from_path(&base, full);
    match result {
        LocalOrRemotePath::Remote { device, path } => {
            assert_eq!(device, "mydevice");
            assert_eq!(path, "/base/subdir/file.txt");
        }
        _ => panic!("Expected Remote variant"),
    }
}

// --- fingerprint ---

#[test]
fn test_fingerprint_basic() {
    let fp = fingerprint(12345, Some(1700000000));
    assert_eq!(fp, "12345:1700000000");
}

#[test]
fn test_fingerprint_no_mtime() {
    let fp = fingerprint(999, None);
    assert_eq!(fp, "999:0");
}

#[test]
fn test_fingerprint_zero_size() {
    let fp = fingerprint(0, Some(100));
    assert_eq!(fp, "0:100");
}

#[test]
fn fingerprint_of_largest_values() {
    assert_eq!(
        fingerprint(u64::MAX, Some(u64::MAX)),
        "18446744073709551615:18446744073709551615"
    );
}

// --- matches_exclude ---

#[test]
fn test_matches_exclude_exact_name() {
    let excludes = vec!["node_modules".to_string()];
    assert!(matches_exclude("node_modules", &excludes));
    assert!(matches_exclude("src/node_modules/foo", &excludes));
    assert!(!matches_exclude("node_modules_backup", &excludes));
}

#[test]
fn test_matches_exclude_glob_suffix() {
    let excludes = vec!["*.log".to_string()];
    assert!(matches_exclude("app.log", &excludes));
    assert!(matches_exclude("debug.log", &excludes));
    assert!(!matches_exclude("log.txt", &excludes));
}

#[test]
fn test_matches_exclude_glob_prefix() {
    let excludes = vec!["test_*".to_string()];
    assert!(matches_exclude("test_file.rs", &excludes));
    assert!(matches_exclude("test_", &excludes));
    assert!(!matches_exclude("my_test", &excludes));
}

#[test]
fn test_matches_exclude_nested_component() {
    let excludes = vec!["build".to_string()];
    assert!(matches_exclude("build", &excludes));
    assert!(matches_exclude("src/build/output", &excludes));
    assert!(matches_exclude("project/build", &excludes));
}

#[test]
fn test_matches_exclude_empty_list() {
    let excludes: Vec<String> = vec![];
    assert!(!matches_exclude("anything", &excludes));
    assert!(!matches_exclude("node_modules", &excludes));
}

#[test]
fn test_matches_exclude_multiple_patterns() {
    let excludes = vec![
        "node_modules".to_string(),
        "*.log".to_string(),
        ".git".to_string(),
    ];
    assert!(matches_exclude("node_modules", &excludes));
    assert!(matches_exclude("app.log", &excludes));
    assert!(matches_exclude(".git", &excludes));
    assert!(!matches_exclude("src/main.rs", &excludes));
}

// --- sync planning ---

fn tree(entries: &[(&str, &str)]) -> FileTree {
    FileTree {
        root: "/root".to_string(),
        files: entries
            .iter()
            .map(|(p, f)| FileEntry {
                rel: p.to_string(),
                fingerprint: f.to_string(),
            })
            .collect(),
    }
}

#[test]
fn sync_uploads_new_and_changed_and_deletes_extra() {
    let src = tree(&[("a", "1:1"), ("b", "2:2"), ("c", "3:3")]);
    let dst = tree(&[("a", "1:1"), ("b", "9:9"), ("d", "4:4")]);
    let plan = plan_sync(&src, &dst, true);
    assert_eq!(plan.uploads, vec!["b".to_string(), "c".to_string()]);
    assert_eq!(plan.deletes, vec!["d".to_string()]);
}

#[test]
fn sync_without_delete_keeps_extra_files() {
    let src = tree(&[("a", "1:1")]);
    let dst = tree(&[("z", "5:5")]);
    let plan = plan_sync(&src, &dst, false);
    assert_eq!(plan.uploads, vec!["a".to_string()]);
    assert!(plan.deletes.is_empty());
}

#[test]
fn sync_of_identical_trees_does_nothing() {
    let src = tree(&[("a", "1:1"), ("b", "2:2")]);
    let plan = plan_sync(&src, &src.clone(), true);
    assert!(plan.uploads.is_empty());
    assert!(plan.deletes.is_empty());
}
