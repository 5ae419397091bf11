use crabsync::tree::{
    compare_entries, flatten_tree_for_display, insert_node, root_node, toggle_node_by_path,
    tree_from_entries, EntryOrder, FileNode,
};

fn parts(path: &str) -> Vec<String> {
    path.split('/').map(|s| s.to_string()).collect()
}

fn sample() -> FileNode {
    let entries = vec![
        (parts("subdir"), true),
        (parts("subdir/file2.txt"), false),
        (parts("file1.txt"), false),
    ];
    tree_from_entries(Some("project".to_string()), &entries)
}

fn rows(tree: &FileNode) -> Vec<(usize, String)> {
    let mut items = Vec::new();
    flatten_tree_for_display(tree, 0, &mut items);
    items.into_iter().map(|(d, n)| (d, n.relative_path)).collect()
}

#[test]
fn tree_from_entries_builds_nested_nodes() {
    let t = sample();
    assert_eq!(t.name, "project");
    assert!(t.is_dir && t.expanded && t.relative_path.is_empty());
    assert_eq!(t.children.len(), 2);
    assert_eq!(t.children[0].name, "subdir");
    assert!(t.children[0].is_dir);
    assert_eq!(t.children[0].children[0].relative_path, "subdir/file2.txt");
    assert_eq!(t.children[1].relative_path, "file1.txt");
    assert!(!t.children[1].is_dir);
}

#[test]
fn root_without_name_is_dot() {
    let r = root_node(None);
    assert_eq!(r.name, ".");
    assert!(r.is_dir && r.expanded && !r.selected);
}

#[test]
fn insert_node_creates_missing_directories() {
    let mut r = root_node(Some("r".to_string()));
    insert_node(&mut r, &parts("a/b/c.txt"), false);
    assert_eq!(r.children.len(), 1);
    let a = &r.children[0];
    assert!(a.is_dir);
    assert_eq!(a.relative_path, "a");
    let b = &a.children[0];
    assert_eq!(b.relative_path, "a/b");
    assert_eq!(b.children[0].relative_path, "a/b/c.txt");
    assert!(!b.children[0].is_dir);
}

#[test]
fn insert_node_twice_is_once() {
    let mut r = root_node(Some("r".to_string()));
    insert_node(&mut r, &parts("a/x.txt"), false);
    insert_node(&mut r, &parts("a/x.txt"), false);
    assert_eq!(r.children.len(), 1);
    assert_eq!(r.children[0].children.len(), 1);
}

#[test]
fn insert_node_keeps_file_and_dir_of_same_name_apart() {
    let mut r = root_node(Some("r".to_string()));
    insert_node(&mut r, &parts("a"), false);
    insert_node(&mut r, &parts("a/b"), false);
    assert_eq!(r.children.len(), 2);
    assert!(!r.children[0].is_dir);
    assert!(r.children[1].is_dir);
    assert!(r.children[0].children.is_empty());
}

#[test]
fn insert_empty_path_changes_nothing() {
    let mut r = root_node(Some("r".to_string()));
    insert_node(&mut r, &Vec::new(), true);
    assert!(r.children.is_empty());
}

#[test]
fn toggling_a_directory_selects_everything_below() {
    let mut t = sample();
    t.children[0].toggle_selected();
    assert!(t.children[0].selected);
    assert!(t.children[0].children[0].selected);
    assert_eq!(t.collect_selected(), vec!["subdir/file2.txt".to_string()]);
    t.children[0].toggle_selected();
    assert!(!t.children[0].children[0].selected);
    assert!(t.collect_selected().is_empty());
}

#[test]
fn select_all_then_collect_lists_files_in_tree_order() {
    let mut t = sample();
    t.select_all(true);
    assert_eq!(
        t.collect_selected(),
        vec!["subdir/file2.txt".to_string(), "file1.txt".to_string()]
    );
    assert!(t.has_selected_children());
    t.select_all(false);
    assert!(t.collect_selected().is_empty());
    assert!(!t.has_selected_children());
}

#[test]
fn file_toggle_twice_restores() {
    let mut t = sample();
    t.children[1].toggle_selected();
    assert!(t.children[1].selected);
    assert!(t.has_selected_children());
    t.children[1].toggle_selected();
    assert!(!t.children[1].selected);
    assert!(!t.has_selected_children());
}

#[test]
fn toggle_expanded_only_for_directories() {
    let mut t = sample();
    t.children[1].toggle_expanded();
    assert!(!t.children[1].expanded);
    t.children[0].toggle_expanded();
    assert!(t.children[0].expanded);
    t.children[0].toggle_expanded();
    assert!(!t.children[0].expanded);
}

#[test]
fn display_name_marks_directories() {
    let t = sample();
    assert_eq!(t.children[0].display_name(), "subdir/");
    assert_eq!(t.children[1].display_name(), "file1.txt");
}

#[test]
fn flatten_shows_expanded_directories_only() {
    let mut t = sample();
    assert_eq!(
        rows(&t),
        vec![(0, String::new()), (1, "subdir".to_string()), (1, "file1.txt".to_string())]
    );
    t.children[0].toggle_expanded();
    assert_eq!(
        rows(&t),
        vec![
            (0, String::new()),
            (1, "subdir".to_string()),
            (2, "subdir/file2.txt".to_string()),
            (1, "file1.txt".to_string())
        ]
    );
}

#[test]
fn toggle_node_by_path_selects_and_expands() {
    let mut t = sample();
    toggle_node_by_path(&mut t, &"subdir".to_string(), true, true);
    assert!(t.children[0].expanded);
    assert!(!t.children[0].selected);
    toggle_node_by_path(&mut t, &"subdir".to_string(), true, false);
    assert!(t.children[0].selected);
    assert!(t.children[0].children[0].selected);
    toggle_node_by_path(&mut t, &"file1.txt".to_string(), false, true);
    assert!(t.children[1].selected);
}

#[test]
fn duplicate_copies_whole_tree() {
    let mut t = sample();
    t.select_all(true);
    let c = t.duplicate();
    assert_eq!(c.collect_selected(), t.collect_selected());
    assert_eq!(c.children[0].children[0].name, "file2.txt");
}

#[test]
fn compare_entries_dirs_first_then_bytes() {
    assert_eq!(compare_entries(true, b"z", false, b"a"), EntryOrder::Less);
    assert_eq!(compare_entries(false, b"a", true, b"z"), EntryOrder::Greater);
    assert_eq!(compare_entries(false, b"ab", false, b"b"), EntryOrder::Less);
    assert_eq!(compare_entries(false, b"ab", false, b"a"), EntryOrder::Greater);
    assert_eq!(compare_entries(true, b"same", true, b"same"), EntryOrder::Equal);
    assert_eq!(compare_entries(false, b"B", false, b"a"), EntryOrder::Less);
}

#[test]
fn every_walked_entry_is_in_the_tree() {
    let entries = vec![
        (parts("b"), true),
        (parts("b/x"), false),
        (parts("a"), false),
        (parts("b/y"), true),
        (parts("b/y/z"), false),
    ];
    let t = tree_from_entries(Some("r".to_string()), &entries);
    let mut open = t.duplicate();
    open.select_all(true);
    assert_eq!(open.collect_selected(), vec!["b/x".to_string(), "b/y/z".to_string(), "a".to_string()]);
    assert_eq!(t.children.len(), 2);
    assert_eq!(t.children[0].children.len(), 2);
    assert_eq!(t.children[0].children[1].children[0].relative_path, "b/y/z");
}

fn check_tidy(n: &FileNode) {
    for (i, c) in n.children.iter().enumerate() {
        let expected = if n.relative_path.is_empty() {
            c.name.clone()
        } else {
            format!("{}/{}", n.relative_path, c.name)
        };
        assert_eq!(c.relative_path, expected);
        for d in &n.children[i + 1..] {
            assert!(!(d.name == c.name && d.is_dir == c.is_dir));
        }
        check_tidy(c);
    }
}

#[test]
fn walked_tree_paths_join_parent_and_name() {
    let entries = vec![
        (parts("a"), true),
        (parts("a/b"), true),
        (parts("a/b/c.txt"), false),
        (parts("a/b"), false),
        (parts("d/e/f"), true),
        (parts("a/b/c.txt"), false),
        (parts("z.txt"), false),
    ];
    let t = tree_from_entries(Some("root".to_string()), &entries);
    assert!(t.relative_path.is_empty());
    check_tidy(&t);
    assert_eq!(t.children[1].children[0].children[0].relative_path, "d/e/f");
    assert_eq!(t.children[0].children.len(), 2);
}

#[test]
fn insert_of_present_path_changes_nothing() {
    let mut t = sample();
    let before = rows(&t);
    insert_node(&mut t, &parts("subdir/file2.txt"), false);
    insert_node(&mut t, &parts("subdir"), true);
    assert_eq!(rows(&t), before);
    assert_eq!(t.children.len(), 2);
    assert_eq!(t.children[0].children.len(), 1);
}

#[test]
fn insert_keeps_old_nodes_and_appends_fresh_ones() {
    let mut t = sample();
    t.children[0].selected = true;
    t.children[0].expanded = true;
    t.children[1].selected = true;
    insert_node(&mut t, &parts("subdir/new/deep.txt"), false);
    insert_node(&mut t, &parts("zzz.txt"), false);
    assert_eq!(t.children.len(), 3);
    assert_eq!(t.children[0].relative_path, "subdir");
    assert!(t.children[0].selected && t.children[0].expanded);
    assert_eq!(t.children[1].relative_path, "file1.txt");
    assert!(t.children[1].selected);
    let sub = &t.children[0];
    assert_eq!(sub.children.len(), 2);
    assert_eq!(sub.children[0].relative_path, "subdir/file2.txt");
    let added = &sub.children[1];
    assert_eq!(added.relative_path, "subdir/new");
    assert!(added.is_dir && !added.selected && !added.expanded);
    assert_eq!(added.children[0].relative_path, "subdir/new/deep.txt");
    assert!(!added.children[0].selected && !added.children[0].expanded);
    assert_eq!(t.children[2].relative_path, "zzz.txt");
    assert!(!t.children[2].selected && !t.children[2].expanded);
}
