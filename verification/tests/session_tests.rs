use tuifile::entry::{DirContent, DirContentType, RawChild, RawKind, RawMeta};
use tuifile::scan::ScanEngine;
use tuifile::session::{KeyAction, KeyCmd, ScanFilesMode, TuiFile};
use tuifile::updates::{Updates, UPDATE_FILTER_FILES, UPDATE_RESCAN_FILES};

fn chars(s: &str) -> Vec<char> {
    s.chars().collect()
}

fn text(v: &Vec<char>) -> String {
    v.iter().collect()
}

fn plain_entry(path: &str, name: &str, depth: usize, kind: DirContentType) -> DirContent {
    DirContent {
        path: chars(path),
        name: chars(name),
        name_charlen: name.chars().count(),
        rel_depth: depth,
        passes_filter: true,
        selected: false,
        info: Vec::new(),
        cells: Vec::new(),
        more: kind,
    }
}

fn type_text(s: &mut TuiFile, textstr: &str) {
    for ch in textstr.chars() {
        s.handle_key(KeyCmd::SearchInput(ch), true);
    }
}

#[test]
fn filter_then_clear_restores_all_entries() {
    let mut s = TuiFile::new(chars("/r"));
    s.apply_scan_result(Ok(vec![
        plain_entry("/r/a.txt", "a.txt", 0, DirContentType::File),
        plain_entry("/r/b.log", "b.log", 0, DirContentType::File),
        plain_entry("/r/sub", "sub/", 0, DirContentType::Dir),
    ]));
    s.drain_state_updates();
    assert_eq!(s.dir_content_len, 3);
    // filter with a pattern that excludes some entries
    type_text(&mut s, "b");
    s.drain_state_updates();
    assert_eq!(s.dir_content_len, 2); // b.log and sub/ ("b" in "sub/")
    assert!(!s.dir_content[0].passes_filter);
    // clearing the filter restores passes_filter everywhere
    s.updates.request_reset_search();
    s.drain_state_updates();
    assert_eq!(s.search_text.len(), 0);
    for e in &s.dir_content {
        assert!(e.passes_filter);
    }
    assert_eq!(s.dir_content_len, s.dir_content.len());
}

#[test]
fn filter_is_case_insensitive_and_live() {
    let mut s = TuiFile::new(chars("/r"));
    s.apply_scan_result(Ok(vec![
        plain_entry("/r/README", "README", 0, DirContentType::File),
        plain_entry("/r/other", "other", 0, DirContentType::File),
    ]));
    s.drain_state_updates();
    type_text(&mut s, "read");
    s.drain_state_updates();
    assert!(s.dir_content[0].passes_filter);
    assert!(!s.dir_content[1].passes_filter);
    assert_eq!(s.dir_content_len, 1);
}

#[test]
fn invalid_pattern_lets_everything_pass() {
    let mut s = TuiFile::new(chars("/r"));
    s.apply_scan_result(Ok(vec![
        plain_entry("/r/a", "a", 0, DirContentType::File),
        plain_entry("/r/b", "b", 0, DirContentType::File),
    ]));
    s.drain_state_updates();
    type_text(&mut s, "[unclosed");
    s.drain_state_updates();
    assert!(s.dir_content.iter().all(|e| e.passes_filter));
    assert_eq!(s.dir_content_len, 2);
}

#[test]
fn status_line_counts_entries_and_layers() {
    let mut s = TuiFile::new(chars("/r"));
    s.apply_scan_result(Ok(vec![
        plain_entry("/r/a", "a", 0, DirContentType::File),
        plain_entry("/r/b", "b", 0, DirContentType::File),
    ]));
    s.drain_state_updates();
    assert_eq!(text(&s.files_status), "2 entries");
    type_text(&mut s, "a");
    s.drain_state_updates();
    assert_eq!(text(&s.files_status), "1 of 2 entries");
    // a depth limit adds the layer count
    s.handle_key(KeyCmd::SearchCancel, true);
    s.handle_key(KeyCmd::SetDepth(2), true);
    s.updates.request_filter_files();
    s.drain_state_updates();
    assert_eq!(text(&s.files_status), "2 entries (2 layers)");
}

#[test]
fn scenario_depth_one_filter_b() {
    // directory with a.txt, b.log, sub/ where sub holds a b-matching child
    let tree: Vec<(&str, Vec<RawChild>)> = vec![
        (
            "/r",
            vec![
                RawChild {
                    name: chars("a.txt"),
                    meta: Ok(RawMeta { kind: RawKind::File, size: 1, mode: 0o644 }),
                },
                RawChild {
                    name: chars("b.log"),
                    meta: Ok(RawMeta { kind: RawKind::File, size: 1, mode: 0o644 }),
                },
                RawChild {
                    name: chars("docs"),
                    meta: Ok(RawMeta { kind: RawKind::Dir, size: 0, mode: 0o755 }),
                },
            ],
        ),
        (
            "/r/docs",
            vec![RawChild {
                name: chars("big_b"),
                meta: Ok(RawMeta { kind: RawKind::File, size: 1, mode: 0o644 }),
            }],
        ),
    ];
    let mut s = TuiFile::new(chars("/r"));
    s.handle_key(KeyCmd::SetDepth(2), true); // depth limit 1
    assert_eq!(s.scan_files_max_depth, 1);
    let mut engine = ScanEngine::new(chars("/r"), s.scan_files_max_depth, vec![]);
    while !engine.done {
        if let Some(req) = &engine.pending {
            let path = text(&req.dir);
            let listing = tree
                .iter()
                .find(|(p, _)| *p == path)
                .map(|(_, l)| {
                    l.iter()
                        .map(|c| RawChild { name: c.name.clone(), meta: c.meta.clone() })
                        .collect::<Vec<_>>()
                })
                .ok_or_else(|| chars("unreadable"));
            engine.deliver(listing);
        } else {
            engine.step();
        }
    }
    let (entries, completed) = engine.into_result().unwrap();
    assert!(completed);
    s.apply_scan_result(Ok(entries));
    s.drain_state_updates();
    type_text(&mut s, "b");
    s.drain_state_updates();
    let visible: Vec<String> = s
        .dir_content
        .iter()
        .filter(|e| e.passes_filter)
        .map(|e| text(&e.name))
        .collect();
    assert_eq!(visible, vec!["b.log", "big_b"]);
}

#[test]
fn cursor_moves_only_over_visible_entries() {
    let mut s = TuiFile::new(chars("/r"));
    s.last_drawn_files_height = 10;
    s.apply_scan_result(Ok(vec![
        plain_entry("/r/a", "a", 0, DirContentType::File),
        plain_entry("/r/skip", "skip", 0, DirContentType::File),
        plain_entry("/r/also", "also", 0, DirContentType::File),
    ]));
    s.drain_state_updates();
    s.dir_content[1].passes_filter = false;
    s.handle_key(KeyCmd::MoveDown, true);
    assert_eq!(s.current_index, 2); // skipped the filtered-out entry
    s.handle_key(KeyCmd::MoveUp, true);
    assert_eq!(s.current_index, 0);
}

#[test]
fn selection_commands_toggle_visible_entries() {
    let mut s = TuiFile::new(chars("/r"));
    s.apply_scan_result(Ok(vec![
        plain_entry("/r/a", "a", 0, DirContentType::File),
        plain_entry("/r/b", "b", 0, DirContentType::File),
    ]));
    s.drain_state_updates();
    s.dir_content[1].passes_filter = false;
    s.handle_key(KeyCmd::ToggleSelectAll, true);
    assert!(s.dir_content[0].selected);
    assert!(!s.dir_content[1].selected); // hidden entries keep their state
    s.handle_key(KeyCmd::ToggleSelectCurrent, true);
    assert!(!s.dir_content[0].selected);
    s.handle_key(KeyCmd::ToggleSelectAll, true);
    s.handle_key(KeyCmd::DeselectAll, true);
    assert!(!s.dir_content[0].selected);
}

#[test]
fn scan_mode_parses_from_search_text() {
    let mut s = TuiFile::new(chars("/r"));
    type_text(&mut s, "t");
    s.handle_key(KeyCmd::SetScanMode, true);
    assert_eq!(s.scan_files_mode, ScanFilesMode::Threaded);
    s.search_text = chars("b1.5");
    s.handle_key(KeyCmd::SetScanMode, true);
    assert_eq!(s.scan_files_mode, ScanFilesMode::Timeout { millis: 1500 });
    s.search_text = chars("t0.25");
    s.handle_key(KeyCmd::SetScanMode, true);
    assert_eq!(s.scan_files_mode, ScanFilesMode::TimeoutThenThreaded { millis: 250 });
    s.search_text = chars("nonsense");
    s.handle_key(KeyCmd::SetScanMode, true);
    assert_eq!(s.scan_files_mode, ScanFilesMode::TimeoutThenThreaded { millis: 250 });
    s.search_text = chars("b");
    s.handle_key(KeyCmd::SetScanMode, true);
    assert_eq!(s.scan_files_mode, ScanFilesMode::Blocking);
}

#[test]
fn ascend_queues_reselection_of_the_left_directory() {
    let mut s = TuiFile::new(chars("/r/sub"));
    s.updates = 0;
    s.handle_key(KeyCmd::Ascend, true);
    assert_eq!(text(&s.current_dir), "/r");
    assert_ne!(s.updates & UPDATE_RESCAN_FILES, 0);
    assert_eq!(s.after_rescanning_files.len(), 1);
    // after the rescan lands, the cursor finds "sub/" by name
    s.apply_scan_result(Ok(vec![
        plain_entry("/r/other", "other", 0, DirContentType::File),
        plain_entry("/r/sub", "sub/", 0, DirContentType::Dir),
    ]));
    s.updates.dont_rescan_files();
    s.drain_state_updates();
    assert_eq!(s.current_index, 1);
}

#[test]
fn descend_enters_the_selected_entry() {
    let mut s = TuiFile::new(chars("/r"));
    s.apply_scan_result(Ok(vec![plain_entry("/r/sub", "sub/", 0, DirContentType::Dir)]));
    s.drain_state_updates();
    s.handle_key(KeyCmd::Descend, true);
    assert_eq!(text(&s.current_dir), "/r/sub");
    assert_eq!(s.updates, u32::MAX);
}

#[test]
fn remove_hands_selected_paths_in_reverse_order() {
    let mut s = TuiFile::new(chars("/r"));
    s.apply_scan_result(Ok(vec![
        plain_entry("/r/one", "one", 0, DirContentType::File),
        plain_entry("/r/two", "two", 0, DirContentType::File),
        plain_entry("/r/three", "three", 0, DirContentType::File),
    ]));
    s.drain_state_updates();
    s.dir_content[0].selected = true;
    s.dir_content[2].selected = true;
    match s.handle_key(KeyCmd::RemoveSelected, true) {
        KeyAction::Delete(paths) => {
            let got: Vec<String> = paths.iter().map(text).collect();
            assert_eq!(got, vec!["/r/three", "/r/one"]);
        },
        _ => panic!("expected a delete action"),
    }
}

#[test]
fn permissions_need_a_valid_octal_word() {
    let mut s = TuiFile::new(chars("/r"));
    s.apply_scan_result(Ok(vec![plain_entry("/r/f", "f", 0, DirContentType::File)]));
    s.drain_state_updates();
    s.dir_content[0].selected = true;
    s.search_text = chars("755");
    match s.handle_key(KeyCmd::SetPermissions, true) {
        KeyAction::Chmod(paths, mode) => {
            assert_eq!(mode, 0o755);
            assert_eq!(paths.len(), 1);
            assert_eq!(text(&paths[0]), "/r/f");
        },
        _ => panic!("expected a chmod action"),
    }
    s.search_text = chars("9x9");
    match s.handle_key(KeyCmd::SetPermissions, true) {
        KeyAction::Nothing => {},
        _ => panic!("an invalid mode word must do nothing"),
    }
}

#[test]
fn clone_copies_state_and_resets_runtime_bits() {
    let mut s = TuiFile::new(chars("/r"));
    s.apply_scan_result(Ok(vec![plain_entry("/r/a", "a", 0, DirContentType::File)]));
    s.drain_state_updates();
    type_text(&mut s, "a");
    s.drain_state_updates();
    s.scan_files_mode = ScanFilesMode::Timeout { millis: 750 };
    let c = s.clone();
    assert_eq!(c.updates, 0);
    assert_eq!(text(&c.current_dir), "/r");
    assert_eq!(c.dir_content.len(), 1);
    assert_eq!(text(&c.search_text), "a");
    assert_eq!(c.after_rescanning_files.len(), 0);
    // the scan-mode policy carries over; only runtime state resets
    assert_eq!(c.scan_files_mode, ScanFilesMode::Timeout { millis: 750 });
}

#[test]
fn root_scan_error_becomes_the_status_line() {
    let mut s = TuiFile::new(chars("/gone"));
    s.apply_scan_result(Err(chars("no such directory")));
    s.drain_state_updates();
    assert!(s.files_status_is_special);
    assert_eq!(text(&s.files_status), "no such directory");
}

#[test]
fn empty_listing_counts_zero_entries() {
    let mut s = TuiFile::new(chars("/r"));
    s.apply_scan_result(Ok(vec![]));
    s.drain_state_updates();
    assert_eq!(s.dir_content_len, 0);
    assert_eq!(text(&s.files_status), "0 entries");
}

#[test]
fn unlimited_depth_reads_as_recursive() {
    let mut s = TuiFile::new(chars("/r"));
    s.apply_scan_result(Ok(vec![plain_entry("/r/a", "a", 0, DirContentType::File)]));
    s.handle_key(KeyCmd::SetDepth(0), true);
    assert_eq!(s.scan_files_max_depth, usize::MAX);
    s.drain_state_updates();
    assert_eq!(text(&s.files_status), "1 entry (recursive)");
}

#[test]
fn filter_bit_requests_work_lazily() {
    let mut s = TuiFile::new(chars("/r"));
    s.apply_scan_result(Ok(vec![plain_entry("/r/a", "a", 0, DirContentType::File)]));
    s.drain_state_updates();
    // typing with live search off only redraws; filtering waits for confirm
    s.handle_key(KeyCmd::SearchInput('x'), false);
    assert_eq!(s.updates & UPDATE_FILTER_FILES, 0);
    s.handle_key(KeyCmd::SearchConfirm, false);
    assert_ne!(s.updates & UPDATE_FILTER_FILES, 0);
    s.drain_state_updates();
    assert!(!s.dir_content[0].passes_filter);
}
