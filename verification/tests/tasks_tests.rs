use tuifile::tasks::{
    delete_kind, first_finished, ChmodPlanner, CopyCmd, CopyItem, CopyPlanner, CopySource,
    DeleteKind, DeletePlanner,
};

fn chars(s: &str) -> Vec<char> {
    s.chars().collect()
}

fn text(v: &Vec<char>) -> String {
    v.iter().collect()
}

fn item(rel: &str, recursive: bool) -> CopyItem {
    CopyItem { rel_path: chars(rel), copy_recursive: recursive }
}

#[test]
fn copy_flattens_selected_file_under_unselected_parent() {
    // A/b.txt is selected but A itself is not: only the relative path
    // "A/b.txt" is in the plan, with no created "A" — the file lands
    // flattened at X/b.txt.
    let sources = vec![CopySource { parent: chars("/src"), items: vec![item("A/b.txt", false)] }];
    let mut p = CopyPlanner::new(sources, chars("/X"));
    let from = p.begin_item().unwrap();
    assert_eq!(text(&from), "/src/A/b.txt");
    match p.place(false) {
        CopyCmd::CopyFile { from, to } => {
            assert_eq!(text(&from), "/src/A/b.txt");
            assert_eq!(text(&to), "/X/b.txt");
        },
        _ => panic!("expected a file copy"),
    }
    assert!(p.begin_item().is_none());
}

#[test]
fn copy_recreates_selected_directory_with_children() {
    // A is selected (at the scan's depth limit, so copied whole), and
    // a selected child follows: the child nests under X/A.
    let sources = vec![CopySource {
        parent: chars("/src"),
        items: vec![item("A", true), item("A/c.txt", false)],
    }];
    let mut p = CopyPlanner::new(sources, chars("/X"));
    assert_eq!(text(&p.status), "cp 2");
    let from = p.begin_item().unwrap();
    assert_eq!(text(&from), "/src/A");
    assert_eq!(text(&p.status), "cp 1");
    match p.place(true) {
        CopyCmd::CopyDir { from, to, recursive } => {
            assert_eq!(text(&from), "/src/A");
            assert_eq!(text(&to), "/X/A");
            assert!(recursive);
        },
        _ => panic!("expected a directory copy"),
    }
    let from = p.begin_item().unwrap();
    assert_eq!(text(&from), "/src/A/c.txt");
    assert_eq!(text(&p.status), "cp 0");
    match p.place(false) {
        CopyCmd::CopyFile { to, .. } => assert_eq!(text(&to), "/X/A/c.txt"),
        _ => panic!("expected a file copy"),
    }
    assert!(p.begin_item().is_none());
}

#[test]
fn copy_resets_created_directories_between_sources() {
    let sources = vec![
        CopySource { parent: chars("/one"), items: vec![item("A", true)] },
        CopySource { parent: chars("/two"), items: vec![item("A/x", false)] },
    ];
    let mut p = CopyPlanner::new(sources, chars("/X"));
    p.begin_item().unwrap();
    match p.place(true) {
        CopyCmd::CopyDir { to, .. } => assert_eq!(text(&to), "/X/A"),
        _ => panic!(),
    }
    // the second source starts with an empty created set: A/x flattens
    p.begin_item().unwrap();
    match p.place(false) {
        CopyCmd::CopyFile { to, .. } => assert_eq!(text(&to), "/X/x"),
        _ => panic!(),
    }
}

#[test]
fn non_recursive_directory_copy_at_shallow_depth() {
    // a directory below the depth limit was enumerated: its children
    // travel as their own items, so it is created non-recursively
    let sources = vec![CopySource { parent: chars("/s"), items: vec![item("B", false)] }];
    let mut p = CopyPlanner::new(sources, chars("/X"));
    p.begin_item().unwrap();
    match p.place(true) {
        CopyCmd::CopyDir { recursive, .. } => assert!(!recursive),
        _ => panic!(),
    }
}

#[test]
fn delete_is_non_recursive_on_directories() {
    assert!(matches!(delete_kind(true), DeleteKind::DirNonRecursive));
    assert!(matches!(delete_kind(false), DeleteKind::File));
}

#[test]
fn delete_planner_walks_paths_in_order_with_live_count() {
    let mut p = DeletePlanner::new(vec![chars("/r/b"), chars("/r/a")]);
    assert_eq!(text(&p.status), "rm 2");
    let first = p.step().unwrap();
    assert_eq!(text(&first), "/r/b");
    assert_eq!(text(&p.status), "rm 1");
    let second = p.step().unwrap();
    assert_eq!(text(&second), "/r/a");
    assert_eq!(text(&p.status), "rm 0");
    assert!(p.step().is_none());
}

#[test]
fn chmod_planner_applies_the_parsed_mode_to_each_path() {
    let mut p = ChmodPlanner::new(vec![chars("/r/f"), chars("/r/g")], 0o755);
    assert_eq!(text(&p.status), "chmod 2");
    let (path, mode) = p.step().unwrap();
    assert_eq!(text(&path), "/r/f");
    assert_eq!(mode, 0o755);
    let (_, mode) = p.step().unwrap();
    assert_eq!(mode, 0o755);
    assert!(p.step().is_none());
}

#[test]
fn at_most_one_task_reaped_per_pass() {
    assert_eq!(first_finished(&vec![false, false]), None);
    assert_eq!(first_finished(&vec![false, true, true]), Some(1));
    assert_eq!(first_finished(&vec![true]), Some(0));
    assert_eq!(first_finished(&vec![]), None);
}
