use dirtree::entry::{Entry, EntryKind};
use dirtree::filter::detect_project_type;
use dirtree::tree::{format_size, generate_tree};

fn entry(path: &str, name: &str, depth: usize, parent: usize, kind: EntryKind, len: u64) -> Entry {
    Entry {
        path: path.to_string(),
        name: Some(name.to_string()),
        depth,
        parent,
        kind,
        len,
    }
}

fn root() -> Entry {
    entry("/work/r", "r", 0, 0, EntryKind::Dir, 4096)
}

#[test]
fn test_empty_directory() {
    let exclude_patterns = vec![];
    let tree_data = generate_tree(&vec![root()], &exclude_patterns, &vec![], 0, &None);
    assert!(!tree_data.terminal_output.is_empty());
    assert!(tree_data.structure.is_empty());
}

#[test]
fn size_formatting_examples() {
    assert_eq!(format_size(0), "0 B");
    assert_eq!(format_size(999), "999 B");
    assert_eq!(format_size(1023), "1023 B");
    assert_eq!(format_size(1024), "1.00 KB");
    assert_eq!(format_size(1536), "1.50 KB");
    assert_eq!(format_size(1_048_576), "1.00 MB");
    assert_eq!(format_size(1_073_741_824), "1.00 GB");
    assert_eq!(format_size(1u64 << 40), "1.00 TB");
    assert_eq!(format_size(1u64 << 50), "1.00 PB");
    assert_eq!(format_size(1u64 << 60), "1024.00 PB");
}

#[test]
fn size_formatting_matches_float_rounding() {
    for n in [1025u64, 1100, 2047, 5000, 123_456, 1_048_575, 10_000_000, 999_999_999, 1_234_567_890_123] {
        let mut v = n as f64;
        let mut k = 0;
        let units = ["B", "KB", "MB", "GB", "TB", "PB"];
        while v >= 1024.0 && k < 5 {
            v /= 1024.0;
            k += 1;
        }
        assert_eq!(format_size(n), format!("{:.2} {}", v, units[k]));
    }
}

#[test]
fn one_file_and_one_subdirectory() {
    let entries = vec![
        root(),
        entry("/work/r/a.txt", "a.txt", 1, 0, EntryKind::File, 10),
        entry("/work/r/sub", "sub", 1, 0, EntryKind::Dir, 4096),
        entry("/work/r/sub/b.txt", "b.txt", 2, 2, EntryKind::File, 20),
    ];
    let data = generate_tree(&entries, &vec![], &vec![], 0, &None);
    let expected = [
        "\x1b[1;34m.\x1b[0m (\x1b[32m30 B\x1b[0m)\n",
        "├── \x1b[37ma.txt\x1b[0m (\x1b[32m10 B\x1b[0m)\n",
        "└── \x1b[34msub\x1b[0m (\x1b[32m20 B\x1b[0m)\n",
        "│   └── \x1b[37mb.txt\x1b[0m (\x1b[32m20 B\x1b[0m)\n",
        "\n\x1b[33mSummary:\x1b[0m\n",
        "  Total size: \x1b[32m30 B\x1b[0m\n",
        "  Files: 2\n",
        "  Directories: 1\n",
    ]
    .concat();
    assert_eq!(data.terminal_output, expected);
    assert_eq!(
        data.structure,
        vec![
            ("r".to_string(), "a.txt".to_string()),
            ("r".to_string(), "sub".to_string()),
            ("sub".to_string(), "b.txt".to_string()),
        ]
    );
}

#[test]
fn excluded_last_child_leaves_the_last_connector_to_the_one_before() {
    let entries = vec![
        root(),
        entry("/work/r/x", "x", 1, 0, EntryKind::File, 1),
        entry("/work/r/y", "y", 1, 0, EntryKind::File, 1),
        entry("/work/r/z", "z", 1, 0, EntryKind::File, 1),
    ];
    let data = generate_tree(&entries, &vec!["/y".to_string()], &vec![], 0, &None);
    let out = &data.terminal_output;
    assert!(out.contains("├── \x1b[37mx\x1b[0m"));
    assert!(out.contains("└── \x1b[37mz\x1b[0m"));
    assert!(!out.contains("\x1b[37my\x1b[0m"));

    let data = generate_tree(&entries, &vec!["/z".to_string()], &vec![], 0, &None);
    assert!(data.terminal_output.contains("├── \x1b[37mx\x1b[0m"));
    assert!(data.terminal_output.contains("└── \x1b[37my\x1b[0m"));
}

#[test]
fn one_pair_per_shown_entry() {
    let entries = vec![
        root(),
        entry("/work/r/a", "a", 1, 0, EntryKind::Dir, 0),
        entry("/work/r/a/f1", "f1", 2, 1, EntryKind::File, 3),
        entry("/work/r/a/.h", ".h", 2, 1, EntryKind::File, 3),
        entry("/work/r/b", "b", 1, 0, EntryKind::Dir, 0),
        entry("/work/r/b/f2", "f2", 2, 4, EntryKind::File, 5),
    ];
    let data = generate_tree(&entries, &vec![], &vec![], 0, &None);
    assert_eq!(data.structure.len(), 4);
    let children: Vec<&str> = data.structure.iter().map(|p| p.1.as_str()).collect();
    assert_eq!(children, vec!["a", "f1", "b", "f2"]);
    assert_eq!(data.structure[3].0, "b");
}

#[test]
fn pruned_directories_hide_their_contents_and_sizes() {
    let project = detect_project_type(&vec!["Cargo.toml".to_string()]);
    let entries = vec![
        root(),
        entry("/work/r/target", "target", 1, 0, EntryKind::Dir, 0),
        entry("/work/r/target/app", "app", 2, 1, EntryKind::File, 1000),
        entry("/work/r/main.rs", "main.rs", 1, 0, EntryKind::File, 7),
    ];
    let data = generate_tree(&entries, &vec![], &vec![], 0, &project);
    let out = &data.terminal_output;
    assert!(out.starts_with("Detected project type: \x1b[1;34mRust\x1b[0m (auto-excluding common build artifacts)\n\n"));
    assert!(out.contains("\x1b[1;34m.\x1b[0m (\x1b[32m7 B\x1b[0m)\n"));
    assert!(!out.contains("target"));
    assert!(!out.contains("app"));
    assert_eq!(data.structure, vec![("r".to_string(), "main.rs".to_string())]);
}

#[test]
fn depth_ceiling_and_include_patterns() {
    let entries = vec![
        root(),
        entry("/work/r/d", "d", 1, 0, EntryKind::Dir, 0),
        entry("/work/r/d/deep.rs", "deep.rs", 2, 1, EntryKind::File, 4),
        entry("/work/r/top.md", "top.md", 1, 0, EntryKind::File, 2),
    ];
    let data = generate_tree(&entries, &vec![], &vec![], 1, &None);
    assert!(!data.terminal_output.contains("deep.rs"));
    assert!(data.terminal_output.contains("\x1b[34md\x1b[0m (\x1b[32m4 B\x1b[0m)"));
    assert!(data.terminal_output.contains("  Files: 1\n"));

    let data = generate_tree(&entries, &vec![], &vec![".rs".to_string()], 0, &None);
    assert!(data.terminal_output.contains("deep.rs"));
    assert!(!data.terminal_output.contains("top.md"));
    assert!(data.terminal_output.contains("  Total size: \x1b[32m4 B\x1b[0m\n"));
}

#[test]
fn root_without_base_name_links_under_its_path() {
    let entries = vec![
        Entry { path: ".".to_string(), name: None, depth: 0, parent: 0, kind: EntryKind::Dir, len: 0 },
        entry("./f", "f", 1, 0, EntryKind::File, 2048),
    ];
    let data = generate_tree(&entries, &vec![], &vec![], 0, &None);
    assert_eq!(data.structure, vec![(".".to_string(), "f".to_string())]);
    assert!(data.terminal_output.contains("(\x1b[32m2.00 KB\x1b[0m)"));
}
