use dirtree::entry::{Entry, EntryKind};
use dirtree::filter::{detect_project_type, is_hidden, marker_files, should_include};

fn entry(path: &str, name: &str, depth: usize, parent: usize, kind: EntryKind) -> Entry {
    Entry {
        path: path.to_string(),
        name: Some(name.to_string()),
        depth,
        parent,
        kind,
        len: 0,
    }
}

fn names(v: &[&str]) -> Vec<String> {
    v.iter().map(|s| s.to_string()).collect()
}

#[test]
fn test_project_type_detection() {
    let project = detect_project_type(&names(&["Cargo.toml"])).unwrap();
    assert_eq!(project.name, "Rust");

    let project = detect_project_type(&names(&["package.json"])).unwrap();
    assert_eq!(project.name, "Node.js");

    assert!(detect_project_type(&names(&[])).is_none());
}

#[test]
fn test_file_filtering() {
    let project = detect_project_type(&names(&["Cargo.toml"]));
    let exclude_patterns = vec!["test".to_string()];

    let src = entry("/work/proj/src", "src", 1, 0, EntryKind::Dir);
    assert!(should_include(&src, &exclude_patterns, &project));

    let target = entry("/work/proj/target", "target", 1, 0, EntryKind::Dir);
    assert!(!should_include(&target, &exclude_patterns, &project));

    let git = entry("/work/proj/.git", ".git", 1, 0, EntryKind::Dir);
    assert!(!should_include(&git, &exclude_patterns, &project));
}

#[test]
fn each_marker_alone_detects_its_ecosystem() {
    let cases = [
        ("package.json", "Node.js"),
        ("requirements.txt", "Python"),
        ("pyproject.toml", "Python"),
        ("Cargo.toml", "Rust"),
        ("pom.xml", "Java"),
        ("build.gradle", "Java"),
        ("go.mod", "Go"),
    ];
    for (marker, name) in cases {
        let project = detect_project_type(&names(&[marker])).unwrap();
        assert_eq!(project.name, name);
    }
    assert!(detect_project_type(&names(&["README.md"])).is_none());
}

#[test]
fn first_rule_wins_with_several_markers() {
    let project = detect_project_type(&names(&["go.mod", "Cargo.toml", "package.json"])).unwrap();
    assert_eq!(project.name, "Node.js");
    assert_eq!(project.excludes(), &names(&["node_modules", "dist", ".next", "build"]));
}

#[test]
fn marker_list_is_complete() {
    assert_eq!(
        marker_files(),
        names(&["package.json", "requirements.txt", "pyproject.toml", "Cargo.toml", "pom.xml", "build.gradle", "go.mod"])
    );
}

#[test]
fn hidden_entries_are_excluded_whatever_the_patterns() {
    assert!(is_hidden(&Some(".env".to_string())));
    assert!(!is_hidden(&Some("env".to_string())));
    assert!(!is_hidden(&None));
    let hidden = entry("/work/.cache", ".cache", 1, 0, EntryKind::Dir);
    assert!(!should_include(&hidden, &vec![], &None));
    assert!(!should_include(&hidden, &names(&["zzz"]), &None));
}

#[test]
fn ecosystem_patterns_apply_without_user_patterns() {
    let project = detect_project_type(&names(&["package.json"]));
    let nested = entry("/work/app/node_modules/lib/index.js", "index.js", 3, 2, EntryKind::File);
    assert!(!should_include(&nested, &vec![], &project));
    let plain = entry("/work/app/src/index.js", "index.js", 2, 1, EntryKind::File);
    assert!(should_include(&plain, &vec![], &project));
    assert!(!should_include(&plain, &names(&["src/"]), &project));
}
