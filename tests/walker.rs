use beam_catalog::data_walker::{matches_any_extension, select_raw_files, DatasetWalker, MyFile, WalkEntry};
use beam_catalog::timestamp::Timestamp;

fn children_of(tree: &[(&str, &[&str])], path: &str) -> Vec<String> {
    for (dir, kids) in tree {
        if *dir == path {
            return kids.iter().map(|k| format!("{}/{}", path, k)).collect();
        }
    }
    Vec::new()
}

/// Runs the walk over an in-memory tree; returns (dataset dirs, listed dirs with depth).
fn walk(tree: &[(&str, &[&str])], root: &str, max_depth: u32) -> (Vec<String>, Vec<(String, u32)>) {
    let mut w = DatasetWalker::new(root.to_string(), ".mda".to_string(), max_depth);
    let mut found = Vec::new();
    let mut listed = Vec::new();
    while let Some(dir) = w.next_dir() {
        listed.push((dir.path.clone(), dir.depth));
        let kids = children_of(tree, &dir.path);
        found.extend(w.visit(&dir, kids));
    }
    found.sort();
    (found, listed)
}

#[test]
fn depth_bound_limits_listing() {
    let tree: &[(&str, &[&str])] = &[
        ("r", &["a", "x.mda"]),
        ("r/a", &["b", "y.mda"]),
        ("r/a/b", &["c", "z.mda"]),
        ("r/a/b/c", &["w.mda"]),
    ];
    let (found, listed) = walk(tree, "r", 1);
    assert_eq!(found, vec!["r/a/y.mda".to_string(), "r/x.mda".to_string()]);
    assert!(listed.iter().all(|(_, d)| *d <= 1));
    assert_eq!(listed.len(), 2);
    let (found0, listed0) = walk(tree, "r", 0);
    assert_eq!(found0, vec!["r/x.mda".to_string()]);
    assert_eq!(listed0, vec![("r".to_string(), 0)]);
    let (found2, _) = walk(tree, "r", 2);
    assert_eq!(found2.len(), 3);
}

#[test]
fn cycle_of_links_ends() {
    // "r/loop" lists itself again, as a symbolic link to its parent would.
    let tree: &[(&str, &[&str])] = &[("r", &["loop"]), ("r/loop", &["loop"]), ("r/loop/loop", &["loop"]), ("r/loop/loop/loop", &["loop"])];
    let (found, listed) = walk(tree, "r", 2);
    assert!(found.is_empty());
    assert_eq!(listed.len(), 3);
    assert!(listed.iter().all(|(_, d)| *d <= 2));
}

#[test]
fn dataset_directory_is_not_descended() {
    let tree: &[(&str, &[&str])] = &[("r", &["s.mda"]), ("r/s.mda", &["inner.mda"])];
    let (found, listed) = walk(tree, "r", 5);
    assert_eq!(found, vec!["r/s.mda".to_string()]);
    assert_eq!(listed.len(), 1);
}

#[test]
fn visit_keeps_order_of_dataset_dirs() {
    let mut w = DatasetWalker::new("r".to_string(), ".mda".to_string(), 0);
    let d = w.next_dir().unwrap();
    let out = w.visit(&d, vec!["r/b.mda".to_string(), "r/x".to_string(), "r/a.mda".to_string()]);
    assert_eq!(out, vec!["r/b.mda".to_string(), "r/a.mda".to_string()]);
    assert!(w.next_dir().is_none());
}

fn entry(name: &str, path: &str, is_file: bool, created: Option<Timestamp>) -> WalkEntry {
    WalkEntry { file_name: name.to_string(), path: path.to_string(), is_file, created }
}

#[test]
fn selects_files_by_extension_once_each() {
    let t = Timestamp::new(100, 5);
    let now = Timestamp::new(999, 0);
    let entries = vec![
        entry("d.mda", "d.mda", false, Some(t)),
        entry("scan001.mda", "d.mda/scan001.mda", true, Some(t)),
        entry("notes.txt", "d.mda/notes.txt", true, Some(t)),
        entry("scan002.mda", "d.mda/scan002.mda", true, None),
    ];
    let exts = vec![".mda".to_string(), "mda".to_string()];
    let files: Vec<MyFile> = select_raw_files(&entries, &exts, now);
    assert_eq!(files.len(), 2);
    assert_eq!(files[0].name, "d.mda/scan001.mda");
    assert_eq!(files[0].ctime, t);
    assert_eq!(files[1].name, "d.mda/scan002.mda");
    assert_eq!(files[1].ctime, now);
}

#[test]
fn extension_matching() {
    let exts = vec![".h5".to_string(), ".h50".to_string()];
    assert!(matches_any_extension("a.h5", &exts));
    assert!(matches_any_extension("a.h50", &exts));
    assert!(!matches_any_extension("a.h51", &exts));
    assert!(!matches_any_extension("h5", &exts));
    assert!(!matches_any_extension("a.h5", &Vec::new()));
}

#[test]
fn my_file_new_keeps_fields() {
    let f = MyFile::new("p".to_string(), Timestamp::new(1, 2));
    assert_eq!(f.name, "p");
    assert_eq!(f.ctime, Timestamp { secs: 1, nanos: 2 });
}
