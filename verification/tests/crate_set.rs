use osbuild::crate_set::{
    populate_crates_from_dir, populate_crates_from_file, resolve, CrateKind, CrateSet,
    CrateSource, WalkEntry,
};
use osbuild::error::BuildError;

fn strings(items: &[&str]) -> Vec<String> {
    items.iter().map(|s| s.to_string()).collect()
}

fn entry(path: &str, file_name: &str, is_file: bool, parent: Option<&str>) -> WalkEntry {
    WalkEntry {
        path: path.to_string(),
        file_name: file_name.to_string(),
        is_file,
        parent_name: parent.map(|p| p.to_string()),
    }
}

#[test]
fn list_file_lines_keep_text_before_first_hyphen() {
    let lines = strings(&["memory-0123abcd", "e1000", "apic-ff-00", "memory-9999"]);
    let set = populate_crates_from_file(CrateKind::Kernel, &lines);
    assert_eq!(set.to_vec(), strings(&["memory", "e1000", "apic"]));
    assert_eq!(set.len(), 3);
    assert!(set.contains("memory"));
    assert!(!set.contains("memory-0123abcd"));
    assert_eq!(set.kind(), CrateKind::Kernel);
}

#[test]
fn empty_line_names_the_empty_crate() {
    let lines = strings(&["", "-abc"]);
    let set = populate_crates_from_file(CrateKind::Application, &lines);
    assert_eq!(set.to_vec(), strings(&[""]));
}

#[test]
fn walk_collects_directories_that_hold_a_manifest() {
    let entries = vec![
        entry("/src/kernel", "kernel", false, Some("src")),
        entry("/src/kernel/memory", "memory", false, Some("kernel")),
        entry("/src/kernel/memory/Cargo.toml", "Cargo.toml", true, Some("memory")),
        entry("/src/kernel/memory/src/lib.rs", "lib.rs", true, Some("src")),
        entry("/src/kernel/apic/Cargo.toml", "Cargo.toml", true, Some("apic")),
        entry("/src/kernel/odd/Cargo.toml", "Cargo.toml", false, Some("odd")),
        entry("/src/kernel/apic/cargo.toml", "cargo.toml", true, Some("lower")),
    ];
    let set = populate_crates_from_dir(CrateKind::Kernel, &entries).unwrap();
    assert_eq!(set.to_vec(), strings(&["memory", "apic"]));
}

#[test]
fn walk_fails_on_the_first_manifest_without_a_directory() {
    let entries = vec![
        entry("/a/Cargo.toml", "Cargo.toml", true, Some("a")),
        entry("/Cargo.toml", "Cargo.toml", true, None),
        entry("Cargo.toml", "Cargo.toml", true, None),
    ];
    let r = populate_crates_from_dir(CrateKind::Kernel, &entries);
    assert_eq!(r.err(), Some(BuildError::NotFound { path: "/Cargo.toml".to_string() }));
}

#[test]
fn a_directory_named_like_a_manifest_without_parent_is_no_failure() {
    let entries = vec![entry("/Cargo.toml", "Cargo.toml", false, None)];
    let set = populate_crates_from_dir(CrateKind::Kernel, &entries).unwrap();
    assert_eq!(set.len(), 0);
}

#[test]
fn resolve_takes_each_kind_of_source() {
    let missing = CrateSource::Missing { path: "/nowhere".to_string() };
    assert_eq!(
        resolve(CrateKind::Kernel, &missing).err(),
        Some(BuildError::NotFound { path: "/nowhere".to_string() })
    );
    let list = CrateSource::ListFile { lines: strings(&["a-1", "b-2"]) };
    assert_eq!(resolve(CrateKind::Kernel, &list).unwrap().to_vec(), strings(&["a", "b"]));
    let tree = CrateSource::Tree {
        entries: vec![entry("/k/x/Cargo.toml", "Cargo.toml", true, Some("x"))],
    };
    let set = resolve(CrateKind::Application, &tree).unwrap();
    assert_eq!(set.to_vec(), strings(&["x"]));
    assert_eq!(set.kind(), CrateKind::Application);
    let bad = CrateSource::Tree { entries: vec![entry("Cargo.toml", "Cargo.toml", true, None)] };
    assert_eq!(
        resolve(CrateKind::Kernel, &bad).err(),
        Some(BuildError::NotFound { path: "Cargo.toml".to_string() })
    );
}

#[test]
fn insert_and_extend_keep_each_name_once() {
    let mut set = CrateSet::new(CrateKind::Application);
    assert!(set.insert("shell".to_string()));
    assert!(!set.insert("shell".to_string()));
    set.extend(&strings(&["ls", "shell", "cat", "ls"]));
    assert_eq!(set.to_vec(), strings(&["shell", "ls", "cat"]));
    assert_eq!(set.len(), 3);
    assert!(set.contains("cat"));
    assert!(!set.contains("dog"));
}
