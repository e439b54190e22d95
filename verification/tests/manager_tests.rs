use tuifile::entry::{DirContent, DirContentType};
use tuifile::manager::Manager;
use tuifile::session::TuiFile;
use tuifile::updates::UPDATE_RESCAN_FILES;

fn chars(s: &str) -> Vec<char> {
    s.chars().collect()
}

fn text(v: &Vec<char>) -> String {
    v.iter().collect()
}

fn entry(path: &str, name: &str, depth: usize, selected: bool) -> DirContent {
    DirContent {
        path: chars(path),
        name: chars(name),
        name_charlen: name.chars().count(),
        rel_depth: depth,
        passes_filter: true,
        selected,
        info: Vec::new(),
        cells: Vec::new(),
        more: DirContentType::File,
    }
}

#[test]
fn duplicate_inserts_right_after_and_becomes_active() {
    let mut m = Manager::new(TuiFile::new(chars("/a")));
    m.instances.push(TuiFile::new(chars("/b")));
    m.duplicate_active();
    assert_eq!(m.instances.len(), 3);
    assert_eq!(m.active_instance, 1);
    assert_eq!(text(&m.instances[1].current_dir), "/a");
    assert_eq!(m.instances[1].updates, 0);
    assert_eq!(text(&m.instances[2].current_dir), "/b");
}

#[test]
fn close_clamps_to_previous_session() {
    let mut m = Manager::new(TuiFile::new(chars("/a")));
    m.instances.push(TuiFile::new(chars("/b")));
    m.active_instance = 1;
    m.close_active();
    assert_eq!(m.instances.len(), 1);
    assert_eq!(m.active_instance, 0);
    assert_eq!(text(&m.instances[0].current_dir), "/a");
}

#[test]
fn next_and_prev_are_bounded() {
    let mut m = Manager::new(TuiFile::new(chars("/a")));
    m.instances.push(TuiFile::new(chars("/b")));
    m.prev_instance();
    assert_eq!(m.active_instance, 0);
    m.next_instance();
    assert_eq!(m.active_instance, 1);
    m.next_instance();
    assert_eq!(m.active_instance, 1);
}

#[test]
fn task_completion_flags_every_session_for_rescan() {
    let mut m = Manager::new(TuiFile::new(chars("/a")));
    m.instances.push(TuiFile::new(chars("/b")));
    for s in &mut m.instances {
        s.updates = 0;
    }
    m.broadcast_task_finished();
    for s in &m.instances {
        assert_ne!(s.updates & UPDATE_RESCAN_FILES, 0);
    }
}

#[test]
fn copy_gathers_selections_from_every_active_session() {
    let mut a = TuiFile::new(chars("/a"));
    a.dir_content = vec![
        entry("/a/keep", "keep", 0, true),
        entry("/a/skip", "skip", 0, false),
        entry("/a/deep/x", "x", 1, true),
    ];
    a.scan_files_max_depth = 1;
    let mut b = TuiFile::new(chars("/b"));
    b.dir_content = vec![entry("/b/other", "other", 0, true)];
    b.active = false;
    let mut c = TuiFile::new(chars("/c"));
    c.dir_content = vec![entry("/c/sel", "sel", 0, true)];
    let mut m = Manager::new(a);
    m.instances.push(b);
    m.instances.push(c);
    let sources = m.gather_copy_sources();
    // only the two active sessions contribute
    assert_eq!(sources.len(), 2);
    assert_eq!(text(&sources[0].parent), "/a");
    let rels: Vec<(String, bool)> = sources[0]
        .items
        .iter()
        .map(|i| (text(&i.rel_path), i.copy_recursive))
        .collect();
    // the flag marks entries sitting exactly at the depth limit
    assert_eq!(rels, vec![("keep".to_string(), false), ("deep/x".to_string(), true)]);
    assert_eq!(text(&sources[1].parent), "/c");
    assert_eq!(sources[1].items.len(), 1);
}

#[test]
fn stale_entries_outside_the_root_are_skipped() {
    let mut a = TuiFile::new(chars("/new"));
    a.dir_content = vec![entry("/old/sel", "sel", 0, true)];
    let m = Manager::new(a);
    let sources = m.gather_copy_sources();
    assert_eq!(sources.len(), 1);
    assert!(sources[0].items.is_empty());
}
