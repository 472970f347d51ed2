use snacc::tree::{DirListing, NodeKind, TreeNode, build_tree, get_tree_string};

fn file(name: &str) -> TreeNode {
    TreeNode { name: name.to_string(), kind: NodeKind::File }
}

fn dir(name: &str, entries: Vec<TreeNode>) -> TreeNode {
    TreeNode { name: name.to_string(), kind: NodeKind::Dir(DirListing::Read(entries)) }
}

#[test]
fn unreadable_root_reports_an_error_line() {
    let lines = build_tree(&DirListing::Unread("/gone".to_string()), &String::new());
    assert_eq!(lines, vec!["Error reading: /gone".to_string()]);
}

#[test]
fn entries_are_filtered_and_sorted() {
    let root = DirListing::Read(vec![
        file("b.txt"),
        file("a.txt"),
        dir("src", vec![file("main.rs")]),
        file(".hidden"),
        file("x.log"),
        dir("node_modules", vec![file("left.js")]),
    ]);
    let lines = build_tree(&root, &String::new());
    assert_eq!(
        lines,
        vec![
            "├── a.txt".to_string(),
            "├── b.txt".to_string(),
            "└── src".to_string(),
            "    └── main.rs".to_string(),
        ]
    );
}

#[test]
fn non_last_directories_extend_the_prefix_with_a_bar() {
    let root = DirListing::Read(vec![dir("a", vec![file("inner")]), file("z")]);
    let lines = build_tree(&root, &String::new());
    assert_eq!(
        lines,
        vec![
            "├── a".to_string(),
            "│   └── inner".to_string(),
            "└── z".to_string(),
        ]
    );
}

#[test]
fn unreadable_subdirectory_reports_inline() {
    let root = DirListing::Read(vec![TreeNode {
        name: "locked".to_string(),
        kind: NodeKind::Dir(DirListing::Unread("/root/locked".to_string())),
    }]);
    let lines = build_tree(&root, &String::new());
    assert_eq!(lines, vec!["└── locked".to_string(), "Error reading: /root/locked".to_string()]);
}

#[test]
fn tree_string_has_header_and_blank_line() {
    let root = DirListing::Read(vec![file("a.txt")]);
    let s = get_tree_string("proj", &root);
    assert_eq!(s, "📁 Project tree from: proj\n\n└── a.txt");
}

#[test]
fn noise_suffixes_and_names_are_excluded() {
    let root = DirListing::Read(vec![
        file("keep.rs"),
        file("debug.pdb"),
        file("Thumbs.db"),
        file("app.exe"),
        dir("target", vec![]),
        file("notes.log"),
    ]);
    let lines = build_tree(&root, &String::new());
    assert_eq!(lines, vec!["└── keep.rs".to_string()]);
}
