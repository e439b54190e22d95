use tuifile::entry::{DirContentType, RawChild, RawKind, RawMeta};
use tuifile::scan::{align_info, ScanEngine};

fn chars(s: &str) -> Vec<char> {
    s.chars().collect()
}

fn text(v: &Vec<char>) -> String {
    v.iter().collect()
}

fn file(name: &str, size: u64) -> RawChild {
    RawChild {
        name: chars(name),
        meta: Ok(RawMeta { kind: RawKind::File, size, mode: 0o644 }),
    }
}

fn dir(name: &str) -> RawChild {
    RawChild {
        name: chars(name),
        meta: Ok(RawMeta { kind: RawKind::Dir, size: 0, mode: 0o755 }),
    }
}

/// Drives the engine over an in-memory tree: each requested directory
/// path maps to its listing.
fn run_scan(
    root: &str,
    max_depth: usize,
    tree: &[(&str, Vec<RawChild>)],
) -> (Vec<tuifile::entry::DirContent>, bool) {
    let mut engine = ScanEngine::new(chars(root), max_depth, vec![0u32, 1u32]);
    while !engine.done {
        if let Some(req) = &engine.pending {
            let path = text(&req.dir);
            let listing = tree
                .iter()
                .find(|(p, _)| *p == path)
                .map(|(_, l)| {
                    l.iter()
                        .map(|c| RawChild {
                            name: c.name.clone(),
                            meta: c.meta.clone(),
                        })
                        .collect::<Vec<_>>()
                })
                .ok_or_else(|| chars("permission denied"));
            engine.deliver(listing);
        } else {
            engine.step();
        }
    }
    engine.into_result().expect("root listing failed")
}

#[test]
fn depth_zero_returns_immediate_children_only() {
    let tree = vec![
        ("/r", vec![file("a.txt", 10), dir("sub"), file("b.log", 20)]),
        ("/r/sub", vec![file("inner", 1)]),
    ];
    let (entries, completed) = run_scan("/r", 0, &tree);
    assert!(completed);
    assert_eq!(entries.len(), 3);
    assert_eq!(text(&entries[0].name), "a.txt");
    assert_eq!(text(&entries[1].name), "sub/");
    assert_eq!(text(&entries[2].name), "b.log");
    for e in &entries {
        assert_eq!(e.rel_depth, 0);
        assert!(e.passes_filter);
        assert!(!e.selected);
    }
    assert_eq!(text(&entries[1].path), "/r/sub");
}

#[test]
fn depth_limit_bounds_every_entry_and_expands_shallow_dirs() {
    let tree = vec![
        ("/r", vec![dir("a"), file("x", 1)]),
        ("/r/a", vec![dir("b"), file("y", 2)]),
        ("/r/a/b", vec![file("z", 3)]),
    ];
    let (entries, completed) = run_scan("/r", 1, &tree);
    assert!(completed);
    // depth-first order: a, then its children, then x
    let names: Vec<String> = entries.iter().map(|e| text(&e.name)).collect();
    assert_eq!(names, vec!["a/", "b/", "y", "x"]);
    let depths: Vec<usize> = entries.iter().map(|e| e.rel_depth).collect();
    assert_eq!(depths, vec![0, 1, 1, 0]);
    for e in &entries {
        assert!(e.rel_depth <= 1);
    }
    // b sits exactly at the limit: its child z was never enumerated
    assert!(!names.contains(&"z".to_string()));
}

#[test]
fn shallow_scan_is_exactly_the_delivered_listing() {
    let listing = vec![file("a.txt", 10), dir("sub"), file("b.log", 20)];
    let entries = tuifile::scan::scan_shallow(chars("/r"), listing, vec![0u32, 1u32]);
    assert_eq!(entries.len(), 3);
    let names: Vec<String> = entries.iter().map(|e| text(&e.name)).collect();
    assert_eq!(names, vec!["a.txt", "sub/", "b.log"]);
    for e in &entries {
        assert_eq!(e.rel_depth, 0);
        assert!(e.passes_filter && !e.selected);
    }
    assert_eq!(text(&entries[1].path), "/r/sub");
}

#[test]
fn root_error_is_fatal() {
    let mut engine = ScanEngine::new(chars("/gone"), 0, vec![0u32]);
    engine.deliver(Err(chars("no such directory")));
    assert!(engine.done);
    match engine.into_result() {
        Err(err) => assert_eq!(text(&err), "no such directory"),
        Ok(_) => panic!("a failed root listing must fail the scan"),
    }
}

#[test]
fn unreadable_subdirectory_becomes_one_entry() {
    let tree = vec![("/r", vec![dir("locked"), file("x", 1)])];
    // /r/locked is not in the tree: its listing fails at depth 1
    let (entries, completed) = run_scan("/r", 5, &tree);
    assert!(completed);
    let names: Vec<String> = entries.iter().map(|e| text(&e.name)).collect();
    assert_eq!(names, vec!["locked/", "locked", "x"]);
    match &entries[1].more {
        DirContentType::Unreadable(msg) => assert_eq!(text(msg), "permission denied"),
        _ => panic!("expected an unreadable marker"),
    }
    assert_eq!(entries[1].rel_depth, 1);
}

#[test]
fn abort_keeps_a_strict_subset() {
    let mut engine = ScanEngine::new(chars("/r"), 3, vec![0u32]);
    engine.deliver(Ok(vec![dir("a"), file("x", 1), file("y", 2)]));
    engine.step(); // consume "a": issues the request for /r/a
    assert!(engine.pending.is_some());
    let before = engine.entries.len();
    assert_eq!(before, 1);
    engine.abort();
    assert!(engine.done);
    let (entries, completed) = engine.into_result().unwrap();
    assert!(!completed);
    // non-empty, and strictly fewer than the full listing would give
    assert_eq!(entries.len(), 1);
    assert_eq!(text(&entries[0].name), "a/");
}

#[test]
fn size_column_scales_by_1024_with_unit_suffixes() {
    let tree = vec![(
        "/r",
        vec![file("small", 1023), file("kb", 2048), file("gb", 3 * 1024 * 1024 * 1024)],
    )];
    let (mut entries, _) = run_scan("/r", 0, &tree);
    let widths = align_info(&mut entries);
    // raw cells: "< | ", ">" + value, ">" + unit, "< | ", ">" + mode
    let cell = |e: &tuifile::entry::DirContent, i: usize| text(&e.cells[i]);
    assert_eq!(cell(&entries[0], 1), ">1023");
    assert_eq!(cell(&entries[0], 2), ">B");
    assert_eq!(cell(&entries[1], 1), ">2");
    assert_eq!(cell(&entries[1], 2), ">KB");
    assert_eq!(cell(&entries[2], 1), ">3");
    assert_eq!(cell(&entries[2], 2), ">GB");
    assert_eq!(cell(&entries[0], 4), ">644");
    assert_eq!(widths.len(), 5);
}

#[test]
fn aligned_info_round_trips_through_recorded_widths() {
    let tree = vec![("/r", vec![file("a", 5), file("b", 123456)])];
    let (mut entries, _) = run_scan("/r", 0, &tree);
    let raw: Vec<Vec<String>> = entries
        .iter()
        .map(|e| e.cells.iter().map(|c| text(c)).collect())
        .collect();
    let widths = align_info(&mut entries);
    for (e, cells) in entries.iter().zip(raw.iter()) {
        // re-split the aligned line at the recorded widths
        let line: Vec<char> = e.info.clone();
        let mut off = 0usize;
        for (j, cell) in cells.iter().enumerate() {
            let w = widths[j];
            let block: String = line[off..off + w - 1].iter().collect();
            let body = &cell[1..];
            // trimming the alignment padding recovers the unpadded text
            if cell.starts_with('<') {
                assert_eq!(block.trim_end_matches(' '), body.trim_end_matches(' '));
            } else {
                assert_eq!(block.trim_start_matches(' '), body.trim_start_matches(' '));
            }
            assert_eq!(block.len(), w - 1);
            off += w - 1;
        }
        assert_eq!(off, line.len());
    }
}

#[test]
fn metadata_error_keeps_entry_with_message() {
    let tree = vec![(
        "/r",
        vec![RawChild { name: chars("ghost"), meta: Err(chars("stat failed")) }],
    )];
    let (entries, _) = run_scan("/r", 0, &tree);
    assert_eq!(entries.len(), 1);
    assert_eq!(text(&entries[0].name), "ghost");
    assert!(entries[0].cells.is_empty());
    match &entries[0].more {
        DirContentType::Unreadable(m) => assert_eq!(text(m), "stat failed"),
        _ => panic!("expected unreadable"),
    }
}
