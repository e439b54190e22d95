//! One browsing session (tab): its directory, entry list, cursor,
//! filter and scan state, and the verified state transitions the main
//! loop drives.
//!
//! The session never performs I/O. The caller runs the scan engine,
//! hands results to [`TuiFile::apply_scan_result`], drains the pending
//! state actions with [`TuiFile::drain_state_updates`], renders from the
//! public fields, and maps key events to [`KeyCmd`] values for
//! [`TuiFile::handle_key`], performing whatever [`KeyAction`] comes
//! back.

use vstd::prelude::*;

use crate::entry::{DirContent, DirContentType, clone_entry};
use crate::paths::{chars_clone, spec_file_name, spec_pop, spec_join, path_file_name, path_pop,
    path_join};
use crate::search::{SearchPattern, pattern_valid, spec_passes, compile_ci, regex_is_match,
    clone_pattern};
use crate::text::{chars_eq, spec_dec, spec_parse_octal, spec_parse_millis, parse_octal,
    parse_millis, dec_of_usize, push_str_chars};
use crate::updates::{Updates, UPDATE_RESCAN_FILES, UPDATE_REDRAW_INFOBAR,
    UPDATE_REDRAW_SEARCHBAR, UPDATE_REDRAW_FILELIST, UPDATE_MOVE_CURSOR, UPDATE_FILTER_FILES,
    UPDATE_RESET_CURRENT_INDEX, UPDATE_RESET_SEARCH, UPDATE_RESCANNING_FILES_COMPLETE,
    UPDATE_REDRAW_FILEBAR};

verus! {

/// Which pane keyboard input goes to.
#[derive(Clone, Copy, PartialEq, Eq, Structural, Debug)]
pub enum Focus {
    Files,
    SearchBar,
}

/// How the file scan treats the main loop.
#[derive(Clone, Copy, PartialEq, Eq, Structural, Debug)]
pub enum ScanFilesMode {
    /// File scanning blocks the main loop until it is done.
    Blocking,
    /// File scanning runs on a worker; the list stays stale meanwhile.
    Threaded,
    /// Blocking, but stopped at the deadline: the list may be partial.
    Timeout { millis: u64 },
    /// Blocking until the deadline, then restarted whole on a worker.
    TimeoutThenThreaded { millis: u64 },
}

impl Default for ScanFilesMode {
    fn default() -> (r: Self)
        ensures
            r == ScanFilesMode::Blocking,
    {
        ScanFilesMode::Blocking
    }
}

/// One deferred action, run once after the next rescan lands.
pub enum AfterRescan {
    /// Move the cursor to the entry with this name (a directory's
    /// trailing separator is ignored when comparing).
    SelectByName(Vec<char>),
}

/// One browsing session.
pub struct TuiFile {
    /// Whether the session takes part in multi-session operations.
    pub active: bool,
    /// The pending-action bitset.
    pub updates: u32,
    /// Absolute path of the directory on display.
    pub current_dir: Vec<char>,
    /// The scanned entry list, replaced whole by each rescan.
    pub dir_content: Vec<DirContent>,
    /// How many entries pass the current filter.
    pub dir_content_len: usize,
    /// First visible row of the file list.
    pub scroll: usize,
    /// The cursor: an index into `dir_content`.
    pub current_index: usize,
    pub focus: Focus,
    /// Depth limit for scans; the all-ones value means unlimited.
    pub scan_files_max_depth: usize,
    /// Whether `files_status` carries an error instead of the count.
    pub files_status_is_special: bool,
    /// The session's status line.
    pub files_status: Vec<char>,
    /// The filter text as typed.
    pub search_text: Vec<char>,
    /// The lazily compiled pattern; dropped whenever the text changes.
    pub search_regex: Option<SearchPattern>,
    /// How many file rows the last render had room for.
    pub last_drawn_files_height: usize,
    /// How many file rows the last render filled.
    pub last_drawn_files_count: usize,
    /// The scroll range the last render allowed.
    pub last_files_max_scroll: usize,
    /// Deferred actions to run once after the next rescan.
    pub after_rescanning_files: Vec<AfterRescan>,
    pub scan_files_mode: ScanFilesMode,
}

impl TuiFile {
    /// The compiled pattern, when present, was built from the current
    /// search text, which is then non-empty and valid.
    pub open spec fn wf(&self) -> bool {
        self.search_regex matches Some(sp) ==> sp.source() == self.search_text@
            && pattern_valid(self.search_text@) && self.search_text@.len() > 0
    }

    /// A fresh session on `current_dir`: everything pending, nothing
    /// scanned yet.
    pub fn new(current_dir: Vec<char>) -> (r: TuiFile)
        ensures
            r.wf(),
            r.active,
            r.updates == u32::MAX,
            r.current_dir@ == current_dir@,
            r.dir_content@.len() == 0,
            r.dir_content_len == 0,
            r.scroll == 0,
            r.current_index == 0,
            r.focus is Files,
            r.scan_files_max_depth == 0,
            !r.files_status_is_special,
            r.files_status@.len() == 0,
            r.search_text@.len() == 0,
            r.search_regex is None,
            r.last_drawn_files_height == 0,
            r.last_drawn_files_count == 0,
            r.last_files_max_scroll == 0,
            r.after_rescanning_files@.len() == 0,
            r.scan_files_mode is Blocking,
    {
        TuiFile {
            active: true,
            updates: u32::MAX,
            current_dir,
            dir_content: Vec::new(),
            dir_content_len: 0,
            scroll: 0,
            current_index: 0,
            focus: Focus::Files,
            scan_files_max_depth: 0,
            files_status_is_special: false,
            files_status: Vec::new(),
            search_text: Vec::new(),
            search_regex: None,
            last_drawn_files_height: 0,
            last_drawn_files_count: 0,
            last_files_max_scroll: 0,
            after_rescanning_files: Vec::new(),
            scan_files_mode: ScanFilesMode::Blocking,
        }
    }

    /// A deep, independent copy for session duplication: every field
    /// carries over, the scan-mode policy included. Only the runtime
    /// state resets: no pending actions and no deferred selections.
    pub fn clone(&self) -> (r: TuiFile)
        requires
            self.wf(),
        ensures
            r.wf(),
            r.active == self.active,
            r.updates == 0,
            r.current_dir@ == self.current_dir@,
            r.dir_content@.len() == self.dir_content@.len(),
            forall|i: int|
                0 <= i < self.dir_content@.len() ==> {
                    let e0 = #[trigger] self.dir_content@[i];
                    let e1 = r.dir_content@[i];
                    &&& e1.path@ == e0.path@
                    &&& e1.name@ == e0.name@
                    &&& e1.name_charlen == e0.name_charlen
                    &&& e1.rel_depth == e0.rel_depth
                    &&& e1.passes_filter == e0.passes_filter
                    &&& e1.selected == e0.selected
                    &&& e1.info@ == e0.info@
                    &&& e1.more@ == e0.more@
                },
            r.dir_content_len == self.dir_content_len,
            r.scroll == self.scroll,
            r.current_index == self.current_index,
            r.focus == self.focus,
            r.scan_files_max_depth == self.scan_files_max_depth,
            r.files_status_is_special == self.files_status_is_special,
            r.files_status@ == self.files_status@,
            r.search_text@ == self.search_text@,
            r.search_regex is Some == self.search_regex is Some,
            r.last_drawn_files_height == self.last_drawn_files_height,
            r.last_drawn_files_count == self.last_drawn_files_count,
            r.last_files_max_scroll == self.last_files_max_scroll,
            r.after_rescanning_files@.len() == 0,
            r.scan_files_mode == self.scan_files_mode,
    {
        let mut dir_content: Vec<DirContent> = Vec::new();
        let mut i: usize = 0;
        while i < self.dir_content.len()
            invariant
                i <= self.dir_content@.len(),
                dir_content@.len() == i,
                forall|k: int|
                    0 <= k < i ==> {
                        let e0 = #[trigger] self.dir_content@[k];
                        let e1 = dir_content@[k];
                        &&& e1.path@ == e0.path@
                        &&& e1.name@ == e0.name@
                        &&& e1.name_charlen == e0.name_charlen
                        &&& e1.rel_depth == e0.rel_depth
                        &&& e1.passes_filter == e0.passes_filter
                        &&& e1.selected == e0.selected
                        &&& e1.info@ == e0.info@
                        &&& e1.more@ == e0.more@
                    },
            decreases self.dir_content@.len() - i,
        {
            dir_content.push(clone_entry(&self.dir_content[i]));
            i += 1;
        }
        let search_regex = match &self.search_regex {
            Some(sp) => Some(clone_pattern(sp)),
            None => None,
        };
        TuiFile {
            active: self.active,
            updates: 0,
            current_dir: chars_clone(&self.current_dir),
            dir_content,
            dir_content_len: self.dir_content_len,
            scroll: self.scroll,
            current_index: self.current_index,
            focus: self.focus,
            scan_files_max_depth: self.scan_files_max_depth,
            files_status_is_special: self.files_status_is_special,
            files_status: chars_clone(&self.files_status),
            search_text: chars_clone(&self.search_text),
            search_regex,
            last_drawn_files_height: self.last_drawn_files_height,
            last_drawn_files_count: self.last_drawn_files_count,
            last_files_max_scroll: self.last_files_max_scroll,
            after_rescanning_files: Vec::new(),
            scan_files_mode: self.scan_files_mode,
        }
    }

    /// What the cursor lands on when asked for `i`: clamped to the
    /// last entry.
    pub open spec fn spec_clamp_index(len: nat, i: nat) -> nat {
        if i >= len {
            if len == 0 {
                0
            } else {
                (len - 1) as nat
            }
        } else {
            i
        }
    }

    /// The whole effect of moving the cursor to index `i`: the index
    /// clamps to the list, the scroll window shifts to keep the cursor
    /// inside it (requesting a file-list redraw when it does), and a
    /// cursor move is requested. Asking for the current index changes
    /// nothing.
    pub open spec fn spec_set_index(pre: TuiFile, i: nat) -> TuiFile {
        let len = pre.dir_content@.len();
        let ci = Self::spec_clamp_index(len, i);
        if ci == pre.current_index {
            pre
        } else {
            let s1 = if ci < pre.scroll {
                ci
            } else {
                pre.scroll as nat
            };
            let b1 = if ci < pre.scroll {
                pre.updates | UPDATE_REDRAW_FILELIST
            } else {
                pre.updates
            };
            let s2 = if ci >= s1 + pre.last_drawn_files_height {
                (ci - pre.last_drawn_files_height + 1) as nat
            } else {
                s1
            };
            let b2 = if ci >= s1 + pre.last_drawn_files_height {
                b1 | UPDATE_REDRAW_FILELIST
            } else {
                b1
            };
            TuiFile {
                current_index: ci as usize,
                scroll: s2 as usize,
                updates: b2 | UPDATE_MOVE_CURSOR,
                ..pre
            }
        }
    }

    /// Moves the cursor to index `i`.
    pub fn set_current_index(&mut self, i: usize)
        ensures
            *final(self) == Self::spec_set_index(*old(self), i as nat),
    {
        let len = self.dir_content.len();
        let ci = if i >= len {
            if len == 0 {
                0
            } else {
                len - 1
            }
        } else {
            i
        };
        if ci == self.current_index {
            return ;
        }
        if ci < self.scroll {
            self.scroll = ci;
            self.updates.request_redraw_filelist();
        }
        if ci >= self.scroll && ci - self.scroll >= self.last_drawn_files_height {
            self.scroll = ci - self.last_drawn_files_height + 1;
            self.updates.request_redraw_filelist();
        }
        self.updates.request_move_cursor();
        self.current_index = ci;
    }

    /// The first index at or after `j` whose entry passes the filter.
    pub open spec fn first_visible_from(entries: Seq<DirContent>, j: int) -> Option<int>
        decreases entries.len() - j,
    {
        if j < 0 || j >= entries.len() {
            None
        } else if entries[j].passes_filter {
            Some(j)
        } else {
            Self::first_visible_from(entries, j + 1)
        }
    }

    /// The last index at or before `j` (and inside the list) whose
    /// entry passes the filter.
    pub open spec fn last_visible_until(entries: Seq<DirContent>, j: int) -> Option<int>
        decreases j + 1,
    {
        if j < 0 {
            None
        } else if j < entries.len() && entries[j].passes_filter {
            Some(j)
        } else {
            Self::last_visible_until(entries, j - 1)
        }
    }

    /// Starting from `start`, walks up (or down) to the nearest visible
    /// entry and moves the cursor there; without one the cursor stays.
    pub fn set_current_index_to_visible(&mut self, start: usize, inc: bool)
        ensures
            inc ==> *final(self) == (match Self::first_visible_from(
                old(self).dir_content@,
                start as int,
            ) {
                Some(j) => Self::spec_set_index(*old(self), j as nat),
                None => *old(self),
            }),
            !inc ==> *final(self) == (match Self::last_visible_until(
                old(self).dir_content@,
                start as int,
            ) {
                Some(j) => Self::spec_set_index(*old(self), j as nat),
                None => *old(self),
            }),
    {
        let mut i = start;
        loop
            invariant
                self == old(self),
                inc ==> i >= start && Self::first_visible_from(old(self).dir_content@, start as int)
                    == Self::first_visible_from(old(self).dir_content@, i as int),
                !inc ==> i <= start && Self::last_visible_until(old(self).dir_content@, start as int)
                    == Self::last_visible_until(old(self).dir_content@, i as int),
                !inc ==> i <= old(self).dir_content@.len() || i <= start,
            decreases
                    if inc {
                        old(self).dir_content@.len() - i as int
                    } else {
                        i as int + 1
                    },
        {
            if i < self.dir_content.len() && self.dir_content[i].passes_filter {
                self.set_current_index(i);
                return ;
            }
            if inc {
                if i >= self.dir_content.len() {
                    return ;
                }
                i += 1;
            } else {
                if i == 0 {
                    proof {
                        assert(Self::last_visible_until(old(self).dir_content@, -1) is None);
                    }
                    return ;
                }
                i -= 1;
            }
        }
    }

    /// Queues a deferred selection and requests the rescan it waits
    /// for.
    pub fn request_rescan_files_then_select(&mut self, find: AfterRescan)
        ensures
            final(self).updates == old(self).updates | UPDATE_RESCAN_FILES,
            final(self).after_rescanning_files@ == old(self).after_rescanning_files@.push(find),
            *final(self) == (TuiFile {
                updates: final(self).updates,
                after_rescanning_files: final(self).after_rescanning_files,
                ..*old(self)
            }),
    {
        self.updates.request_rescan_files();
        self.after_rescanning_files.push(find);
    }

    /// After the next rescan, select the entry called `name`.
    pub fn request_rescan_files_then_select_by_name(&mut self, name: Vec<char>)
        ensures
            final(self).updates == old(self).updates | UPDATE_RESCAN_FILES,
            final(self).after_rescanning_files@ == old(self).after_rescanning_files@.push(
                AfterRescan::SelectByName(name),
            ),
            *final(self) == (TuiFile {
                updates: final(self).updates,
                after_rescanning_files: final(self).after_rescanning_files,
                ..*old(self)
            }),
    {
        self.request_rescan_files_then_select(AfterRescan::SelectByName(name));
    }

    /// After the next rescan, select again whatever the cursor is on
    /// now; with nothing under the cursor just request the rescan.
    pub fn request_rescan_files_then_select_current_again(&mut self)
        ensures
            final(self).updates == old(self).updates | UPDATE_RESCAN_FILES,
            old(self).current_index < old(self).dir_content@.len() ==> ({
                &&& final(self).after_rescanning_files@.len() == old(self).after_rescanning_files@.len() + 1
                &&& final(self).after_rescanning_files@.drop_last() == old(self).after_rescanning_files@
                &&& final(self).after_rescanning_files@.last() matches AfterRescan::SelectByName(n)
                    && n@ == old(self).dir_content@[old(self).current_index as int].name@
            }),
            old(self).current_index >= old(self).dir_content@.len() ==> final(self).after_rescanning_files@ == old(self).after_rescanning_files@,
            *final(self) == (TuiFile {
                updates: final(self).updates,
                after_rescanning_files: final(self).after_rescanning_files,
                ..*old(self)
            }),
    {
        if self.current_index < self.dir_content.len() {
            let name = chars_clone(&self.dir_content[self.current_index].name);
            self.request_rescan_files_then_select_by_name(name);
            proof {
                assert(final(self).after_rescanning_files@.drop_last() =~= old(self).after_rescanning_files@);
            }
        } else {
            self.updates.request_rescan_files();
        }
    }

    /// Opens a rescan: the stale entry list is dropped and the status
    /// line goes back to carrying the entry count, so a scan running on
    /// a worker shows an empty list until its result lands.
    pub fn begin_rescan(&mut self)
        requires
            old(self).wf(),
        ensures
            final(self).wf(),
            *final(self) == (TuiFile {
                dir_content: final(self).dir_content,
                files_status_is_special: false,
                ..*old(self)
            }),
            final(self).dir_content@.len() == 0,
    {
        self.dir_content = Vec::new();
        self.files_status_is_special = false;
    }

    /// Takes a finished scan in: the listing replaces the entry list
    /// whole, a failed root scan becomes the session's status text, and
    /// the scan-complete and filter actions are requested.
    pub fn apply_scan_result(&mut self, v: Result<Vec<DirContent>, Vec<char>>)
        requires
            old(self).wf(),
        ensures
            final(self).wf(),
            final(self).updates == old(self).updates | UPDATE_RESCANNING_FILES_COMPLETE
                | UPDATE_FILTER_FILES,
            (v matches Result::Ok(entries) ==> *final(self) == (TuiFile {
                updates: final(self).updates,
                dir_content: entries,
                ..*old(self)
            })),
            (v matches Result::Err(msg) ==> *final(self) == (TuiFile {
                updates: final(self).updates,
                files_status_is_special: true,
                files_status: msg,
                ..*old(self)
            })),
    {
        self.updates.request_rescanning_files_complete();
        self.updates.request_filter_files();
        match v {
            Result::Ok(entries) => {
                self.dir_content = entries;
            },
            Result::Err(msg) => {
                self.files_status_is_special = true;
                self.files_status = msg;
            },
        }
    }

    /// Whether a display name stands for `n`: equal outright, or equal
    /// once a directory's trailing separator is dropped.
    pub open spec fn spec_name_matches(name: Seq<char>, n: Seq<char>) -> bool {
        name == n || (name.len() > 0 && name.last() == '/' && name.drop_last() == n)
    }

    /// The first entry at or after `j` whose name stands for `n`.
    pub open spec fn first_name_match(entries: Seq<DirContent>, n: Seq<char>, j: int) -> Option<
        int,
    >
        decreases entries.len() - j,
    {
        if j < 0 || j >= entries.len() {
            None
        } else if Self::spec_name_matches(entries[j].name@, n) {
            Some(j)
        } else {
            Self::first_name_match(entries, n, j + 1)
        }
    }

    /// One deferred action's whole effect: the cursor moves to the
    /// first matching entry, or a cursor reset is requested when none
    /// matches.
    pub open spec fn spec_select_entry(pre: TuiFile, a: AfterRescan) -> TuiFile {
        match a {
            AfterRescan::SelectByName(n) => match Self::first_name_match(pre.dir_content@, n@, 0) {
                Some(j) => Self::spec_set_index(pre, j as nat),
                None => TuiFile { updates: pre.updates | UPDATE_RESET_CURRENT_INDEX, ..pre },
            },
        }
    }

    /// The deferred actions' combined effect, first queued first.
    pub open spec fn spec_drain_queue(pre: TuiFile, q: Seq<AfterRescan>) -> TuiFile
        decreases q.len(),
    {
        if q.len() == 0 {
            pre
        } else {
            Self::spec_drain_queue(Self::spec_select_entry(pre, q[0]), q.skip(1))
        }
    }

    /// Draining the deferred queue touches only the cursor, the scroll
    /// and the pending actions, and the actions it requests are redraw,
    /// cursor-move and cursor-reset ones.
    pub proof fn lemma_drain_queue_frame(pre: TuiFile, q: Seq<AfterRescan>, m: u32)
        requires
            m & (UPDATE_REDRAW_FILELIST | UPDATE_MOVE_CURSOR | UPDATE_RESET_CURRENT_INDEX) == 0,
        ensures
            ({
                let r = Self::spec_drain_queue(pre, q);
                &&& r == (TuiFile {
                    current_index: r.current_index,
                    scroll: r.scroll,
                    updates: r.updates,
                    ..pre
                })
                &&& r.updates & m == pre.updates & m
            }),
        decreases q.len(),
    {
        if q.len() > 0 {
            let mid = Self::spec_select_entry(pre, q[0]);
            assert(mid == (TuiFile {
                current_index: mid.current_index,
                scroll: mid.scroll,
                updates: mid.updates,
                ..pre
            }) && mid.updates & m == pre.updates & m) by {
                Self::lemma_select_entry_frame(pre, q[0], m);
            }
            Self::lemma_drain_queue_frame(mid, q.skip(1), m);
        }
    }

    proof fn lemma_select_entry_frame(pre: TuiFile, a: AfterRescan, m: u32)
        requires
            m & (UPDATE_REDRAW_FILELIST | UPDATE_MOVE_CURSOR | UPDATE_RESET_CURRENT_INDEX) == 0,
        ensures
            ({
                let r = Self::spec_select_entry(pre, a);
                &&& r == (TuiFile {
                    current_index: r.current_index,
                    scroll: r.scroll,
                    updates: r.updates,
                    ..pre
                })
                &&& r.updates & m == pre.updates & m
            }),
    {
        let r = Self::spec_select_entry(pre, a);
        let b = pre.updates;
        assert(0b10000u32 & m == 0 && 0b100000u32 & m == 0 && 0b10000000u32 & m == 0)
            by (bit_vector)
            requires
                m & (0b10000u32 | 0b100000u32 | 0b10000000u32) == 0,
        ;
        assert(UPDATE_REDRAW_FILELIST & m == 0 && UPDATE_MOVE_CURSOR & m == 0
            && UPDATE_RESET_CURRENT_INDEX & m == 0);
        crate::updates::lemma_request_preserves_disjoint(b, UPDATE_REDRAW_FILELIST, m);
        crate::updates::lemma_request_preserves_disjoint(
            b | UPDATE_REDRAW_FILELIST,
            UPDATE_REDRAW_FILELIST,
            m,
        );
        crate::updates::lemma_request_preserves_disjoint(b, UPDATE_RESET_CURRENT_INDEX, m);
        crate::updates::lemma_request_preserves_disjoint(b, UPDATE_MOVE_CURSOR, m);
        crate::updates::lemma_request_preserves_disjoint(
            b | UPDATE_REDRAW_FILELIST,
            UPDATE_MOVE_CURSOR,
            m,
        );
        crate::updates::lemma_request_preserves_disjoint(
            b | UPDATE_REDRAW_FILELIST | UPDATE_REDRAW_FILELIST,
            UPDATE_MOVE_CURSOR,
            m,
        );
    }

    /// Whether one display name stands for the searched-for name.
    pub fn name_matches(name: &Vec<char>, n: &Vec<char>) -> (r: bool)
        ensures
            r == Self::spec_name_matches(name@, n@),
    {
        if chars_eq(name, n) {
            return true;
        }
        let al = name.len();
        if al == 0 || name[al - 1] != '/' {
            return false;
        }
        if al - 1 != n.len() {
            assert(name@.drop_last().len() != n@.len());
            return false;
        }
        let mut i: usize = 0;
        while i < al - 1
            invariant
                al == name@.len(),
                al >= 1,
                al - 1 == n@.len(),
                i <= al - 1,
                forall|k: int| 0 <= k < i ==> name@[k] == n@[k],
            decreases al - 1 - i,
        {
            if name[i] != n[i] {
                assert(name@.drop_last()[i as int] != n@[i as int]);
                return false;
            }
            i += 1;
        }
        assert(name@.drop_last() =~= n@);
        true
    }

    /// The first entry whose name stands for `n`, if any.
    fn find_name(entries: &Vec<DirContent>, n: &Vec<char>) -> (r: Option<usize>)
        ensures
            match r {
                Some(j) => Self::first_name_match(entries@, n@, 0) == Some(j as int),
                None => Self::first_name_match(entries@, n@, 0) is None,
            },
    {
        let mut i: usize = 0;
        while i < entries.len()
            invariant
                i <= entries@.len(),
                Self::first_name_match(entries@, n@, 0) == Self::first_name_match(
                    entries@,
                    n@,
                    i as int,
                ),
            decreases entries@.len() - i,
        {
            if Self::name_matches(&entries[i].name, n) {
                return Some(i);
            }
            i += 1;
        }
        None
    }

    /// Consumes the scan-complete action: the cursor clamps to the new
    /// list and the deferred selections run, in the order queued.
    pub fn process_scan_complete(&mut self)
        requires
            old(self).wf(),
        ensures
            final(self).wf(),
            old(self).updates & UPDATE_RESCANNING_FILES_COMPLETE == 0 ==> *final(self) == *old(self),
            old(self).updates & UPDATE_RESCANNING_FILES_COMPLETE != 0 ==> ({
                &&& final(self).after_rescanning_files@.len() == 0
                &&& *final(self) == Self::spec_drain_queue(
                    TuiFile {
                        updates: old(self).updates ^ UPDATE_RESCANNING_FILES_COMPLETE,
                        current_index: Self::spec_clamp_index(
                            old(self).dir_content@.len(),
                            old(self).current_index as nat,
                        ) as usize,
                        after_rescanning_files: final(self).after_rescanning_files,
                        ..*old(self)
                    },
                    old(self).after_rescanning_files@,
                )
            }),
    {
        if !self.updates.rescanning_files_complete() {
            return ;
        }
        self.updates.dont_rescanning_files_complete();
        if self.current_index >= self.dir_content.len() {
            self.current_index = if self.dir_content.len() == 0 {
                0
            } else {
                self.dir_content.len() - 1
            };
        }
        let queue = self.after_rescanning_files.split_off(0);
        let ghost start = *self;
        proof {
            assert(0u32 & (UPDATE_REDRAW_FILELIST | UPDATE_MOVE_CURSOR
                | UPDATE_RESET_CURRENT_INDEX) == 0) by (bit_vector);
            assert(queue@.take(0) =~= Seq::<AfterRescan>::empty());
            assert(Self::spec_drain_queue(start, Seq::<AfterRescan>::empty()) == start);
        }
        let mut k: usize = 0;
        while k < queue.len()
            invariant
                k <= queue@.len(),
                old(self).wf(),
                start.wf(),
                start.search_regex == old(self).search_regex,
                start.search_text == old(self).search_text,
                *self == Self::spec_drain_queue(start, queue@.take(k as int)),
            decreases queue@.len() - k,
        {
            proof {
                assert(0u32 & (UPDATE_REDRAW_FILELIST | UPDATE_MOVE_CURSOR
                    | UPDATE_RESET_CURRENT_INDEX) == 0) by (bit_vector);
                Self::lemma_drain_queue_frame(start, queue@.take(k as int), 0);
            }
            match &queue[k] {
                AfterRescan::SelectByName(n) => {
                    match Self::find_name(&self.dir_content, n) {
                        Some(j) => {
                            self.set_current_index(j);
                        },
                        None => {
                            self.updates.request_reset_current_index();
                        },
                    }
                },
            }
            proof {
                assert(queue@.take(k + 1).drop_last() =~= queue@.take(k as int));
                Self::lemma_drain_take_snoc(start, queue@, k as int);
            }
            k += 1;
        }
        proof {
            assert(queue@.take(queue@.len() as int) =~= queue@);
            assert(0u32 & (UPDATE_REDRAW_FILELIST | UPDATE_MOVE_CURSOR
                | UPDATE_RESET_CURRENT_INDEX) == 0) by (bit_vector);
            Self::lemma_drain_queue_frame(start, queue@, 0);
            assert(queue@ =~= old(self).after_rescanning_files@);
            assert(final(self).after_rescanning_files == start.after_rescanning_files);
            assert(start.after_rescanning_files@ =~= Seq::<AfterRescan>::empty());
            assert(start == (TuiFile {
                updates: old(self).updates ^ UPDATE_RESCANNING_FILES_COMPLETE,
                current_index: Self::spec_clamp_index(
                    old(self).dir_content@.len(),
                    old(self).current_index as nat,
                ) as usize,
                after_rescanning_files: final(self).after_rescanning_files,
                ..*old(self)
            }));
        }
    }

    /// Consumes the reset-search action: a non-empty search text is
    /// cleared together with its compiled pattern, and the search bar
    /// redraw and a filter pass are requested.
    pub fn process_reset_search(&mut self)
        requires
            old(self).wf(),
        ensures
            final(self).wf(),
            old(self).updates & UPDATE_RESET_SEARCH == 0 ==> *final(self) == *old(self),
            old(self).updates & UPDATE_RESET_SEARCH != 0 && old(self).search_text@.len() == 0
                ==> *final(self) == (TuiFile {
                updates: old(self).updates ^ UPDATE_RESET_SEARCH,
                ..*old(self)
            }),
            old(self).updates & UPDATE_RESET_SEARCH != 0 && old(self).search_text@.len() > 0
                ==> *final(self) == (TuiFile {
                updates: (old(self).updates ^ UPDATE_RESET_SEARCH) | UPDATE_REDRAW_SEARCHBAR
                    | UPDATE_FILTER_FILES,
                search_text: final(self).search_text,
                search_regex: None,
                ..*old(self)
            }) && final(self).search_text@.len() == 0,
    {
        if !self.updates.reset_search() {
            return ;
        }
        self.updates.dont_reset_search();
        if self.search_text.len() > 0 {
            self.search_text = Vec::new();
            self.search_regex = None;
            self.updates.request_redraw_searchbar();
            self.updates.request_filter_files();
        }
    }

    /// How many entries a filter pass with pattern `pat` leaves
    /// visible.
    pub open spec fn spec_visible_count(pat: Seq<char>, entries: Seq<DirContent>) -> nat
        decreases entries.len(),
    {
        if entries.len() == 0 {
            0
        } else {
            Self::spec_visible_count(pat, entries.drop_last()) + if spec_passes(
                pat,
                entries.last().name@,
            ) {
                1nat
            } else {
                0nat
            }
        }
    }

    /// The session's status line: the visible and total entry counts,
    /// and the scanned layer count when a depth limit is set.
    pub open spec fn spec_status_text(visible: nat, total: nat, max_depth: nat) -> Seq<char> {
        let base = if visible != total {
            if total == 1 {
                spec_dec(visible) + " of 1 entry"@
            } else {
                spec_dec(visible) + " of "@ + spec_dec(total) + " entries"@
            }
        } else {
            if total == 1 {
                "1 entry"@
            } else {
                spec_dec(visible) + " entries"@
            }
        };
        if max_depth > 0 {
            if max_depth < usize::MAX {
                base + " ("@ + spec_dec((max_depth + 1) as nat) + " layers)"@
            } else {
                base + " (recursive)"@
            }
        } else {
            base
        }
    }

    /// Consumes the filter action: compiles the pattern lazily when the
    /// text changed, marks every entry as passing or not, recounts the
    /// visible entries, rewrites the status line (unless it carries an
    /// error), and requests the file-list redraw.
    pub fn process_filter(&mut self)
        requires
            old(self).wf(),
        ensures
            final(self).wf(),
            old(self).updates & UPDATE_FILTER_FILES == 0 ==> *final(self) == *old(self),
            old(self).updates & UPDATE_FILTER_FILES != 0 ==> ({
                &&& *final(self) == (TuiFile {
                    updates: (old(self).updates ^ UPDATE_FILTER_FILES) | UPDATE_REDRAW_FILELIST,
                    dir_content: final(self).dir_content,
                    dir_content_len: final(self).dir_content_len,
                    files_status: final(self).files_status,
                    search_regex: final(self).search_regex,
                    ..*old(self)
                })
                &&& final(self).search_regex is Some == (old(self).search_text@.len() > 0
                    && pattern_valid(old(self).search_text@))
                &&& final(self).dir_content@.len() == old(self).dir_content@.len()
                &&& forall|i: int|
                    0 <= i < old(self).dir_content@.len() ==> {
                        let e0 = #[trigger] old(self).dir_content@[i];
                        let e1 = final(self).dir_content@[i];
                        &&& e1.passes_filter == spec_passes(old(self).search_text@, e0.name@)
                        &&& e1.path@ == e0.path@
                        &&& e1.name@ == e0.name@
                        &&& e1.name_charlen == e0.name_charlen
                        &&& e1.rel_depth == e0.rel_depth
                        &&& e1.selected == e0.selected
                        &&& e1.info@ == e0.info@
                        &&& e1.cells.deep_view() == e0.cells.deep_view()
                        &&& e1.more@ == e0.more@
                    }
                &&& final(self).dir_content_len == Self::spec_visible_count(
                    old(self).search_text@,
                    old(self).dir_content@,
                )
                &&& (old(self).files_status_is_special ==> final(self).files_status@ == old(self).files_status@)
                &&& (!old(self).files_status_is_special ==> final(self).files_status@
                    == Self::spec_status_text(
                    Self::spec_visible_count(old(self).search_text@, old(self).dir_content@),
                    old(self).dir_content@.len(),
                    old(self).scan_files_max_depth as nat,
                ))
            }),
    {
        if !self.updates.filter_files() {
            return ;
        }
        if self.search_regex.is_none() && self.search_text.len() > 0 {
            self.search_regex = compile_ci(&self.search_text);
        }
        self.updates.dont_filter_files();
        self.updates.request_redraw_filelist();
        let ghost base = *self;
        proof {
            assert(base.search_regex is None ==> !(base.search_text@.len() > 0 && pattern_valid(
                base.search_text@,
            )));
        }
        let total = self.dir_content.len();
        let mut count: usize = 0;
        let mut i: usize = 0;
        while i < total
            invariant
                i <= total == base.dir_content@.len(),
                base.wf(),
                base.search_text@ == old(self).search_text@,
                base.search_regex is None ==> !(base.search_text@.len() > 0 && pattern_valid(
                    base.search_text@,
                )),
                *self == (TuiFile { dir_content: self.dir_content, ..base }),
                self.dir_content@.len() == total,
                count <= i,
                count == Self::spec_visible_count(
                    old(self).search_text@,
                    base.dir_content@.take(i as int),
                ),
                forall|k: int| i <= k < total ==> self.dir_content@[k] == base.dir_content@[k],
                forall|k: int|
                    0 <= k < i ==> {
                        let e0 = #[trigger] base.dir_content@[k];
                        let e1 = self.dir_content@[k];
                        &&& e1.passes_filter == spec_passes(old(self).search_text@, e0.name@)
                        &&& e1.path@ == e0.path@
                        &&& e1.name@ == e0.name@
                        &&& e1.name_charlen == e0.name_charlen
                        &&& e1.rel_depth == e0.rel_depth
                        &&& e1.selected == e0.selected
                        &&& e1.info@ == e0.info@
                        &&& e1.cells.deep_view() == e0.cells.deep_view()
                        &&& e1.more@ == e0.more@
                    },
            decreases total - i,
        {
            let passes = match &self.search_regex {
                Some(sp) => regex_is_match(sp, &self.dir_content[i].name),
                None => true,
            };
            assert(passes == spec_passes(old(self).search_text@, base.dir_content@[i as int].name@));
            let mut e = clone_entry(&self.dir_content[i]);
            e.passes_filter = passes;
            self.dir_content[i] = e;
            if passes {
                count += 1;
            }
            proof {
                assert(base.dir_content@.take(i + 1).drop_last() =~= base.dir_content@.take(
                    i as int,
                ));
                assert(base.dir_content@.take(i + 1).last() == base.dir_content@[i as int]);
            }
            i += 1;
        }
        proof {
            assert(base.dir_content@.take(total as int) =~= base.dir_content@);
        }
        self.dir_content_len = count;
        if !self.files_status_is_special {
            let mut st: Vec<char> = Vec::new();
            if count != total {
                let d = crate::text::dec_of_usize(count);
                crate::text::push_chars(&mut st, &d);
                if total == 1 {
                    push_str_chars(&mut st, " of 1 entry");
                } else {
                    push_str_chars(&mut st, " of ");
                    let t = crate::text::dec_of_usize(total);
                    crate::text::push_chars(&mut st, &t);
                    push_str_chars(&mut st, " entries");
                }
            } else {
                if total == 1 {
                    push_str_chars(&mut st, "1 entry");
                } else {
                    let d = crate::text::dec_of_usize(count);
                    crate::text::push_chars(&mut st, &d);
                    push_str_chars(&mut st, " entries");
                }
            }
            if self.scan_files_max_depth > 0 {
                if self.scan_files_max_depth < usize::MAX {
                    push_str_chars(&mut st, " (");
                    let l = crate::text::dec_of_usize(self.scan_files_max_depth + 1);
                    crate::text::push_chars(&mut st, &l);
                    push_str_chars(&mut st, " layers)");
                } else {
                    push_str_chars(&mut st, " (recursive)");
                }
            }
            assert(st@ =~= Self::spec_status_text(
                count as nat,
                total as nat,
                old(self).scan_files_max_depth as nat,
            ));
            self.files_status = st;
        }
    }

    /// Consumes the reset-cursor action: the cursor moves to the first
    /// visible entry, scanning from the top.
    pub fn process_reset_index(&mut self)
        requires
            old(self).wf(),
        ensures
            final(self).wf(),
            old(self).updates & UPDATE_RESET_CURRENT_INDEX == 0 ==> *final(self) == *old(self),
            old(self).updates & UPDATE_RESET_CURRENT_INDEX != 0 ==> *final(self) == (match Self::first_visible_from(
                old(self).dir_content@,
                0,
            ) {
                Some(j) => Self::spec_set_index(
                    TuiFile { updates: old(self).updates ^ UPDATE_RESET_CURRENT_INDEX, ..*old(self) },
                    j as nat,
                ),
                None => TuiFile {
                    updates: old(self).updates ^ UPDATE_RESET_CURRENT_INDEX,
                    ..*old(self)
                },
            }),
    {
        if !self.updates.reset_current_index() {
            return ;
        }
        self.updates.dont_reset_current_index();
        self.set_current_index_to_visible(0, true);
    }

    /// Moving the cursor touches only the cursor, the scroll and the
    /// pending actions, and requests only redraw and cursor-move ones.
    pub proof fn lemma_set_index_frame(pre: TuiFile, i: nat, m: u32)
        requires
            m & (UPDATE_REDRAW_FILELIST | UPDATE_MOVE_CURSOR) == 0,
        ensures
            ({
                let r = Self::spec_set_index(pre, i);
                &&& r == (TuiFile {
                    current_index: r.current_index,
                    scroll: r.scroll,
                    updates: r.updates,
                    ..pre
                })
                &&& r.updates & m == pre.updates & m
            }),
    {
        let b = pre.updates;
        assert(0b10000u32 & m == 0 && 0b100000u32 & m == 0) by (bit_vector)
            requires
                m & (0b10000u32 | 0b100000u32) == 0,
        ;
        assert(UPDATE_REDRAW_FILELIST & m == 0 && UPDATE_MOVE_CURSOR & m == 0);
        crate::updates::lemma_request_preserves_disjoint(b, UPDATE_REDRAW_FILELIST, m);
        crate::updates::lemma_request_preserves_disjoint(
            b | UPDATE_REDRAW_FILELIST,
            UPDATE_REDRAW_FILELIST,
            m,
        );
        crate::updates::lemma_request_preserves_disjoint(b, UPDATE_MOVE_CURSOR, m);
        crate::updates::lemma_request_preserves_disjoint(
            b | UPDATE_REDRAW_FILELIST,
            UPDATE_MOVE_CURSOR,
            m,
        );
        crate::updates::lemma_request_preserves_disjoint(
            b | UPDATE_REDRAW_FILELIST | UPDATE_REDRAW_FILELIST,
            UPDATE_MOVE_CURSOR,
            m,
        );
    }

    /// The visible count depends on the entry names alone.
    proof fn lemma_visible_count_names(pat: Seq<char>, a: Seq<DirContent>, b: Seq<DirContent>)
        requires
            a.len() == b.len(),
            forall|i: int| 0 <= i < a.len() ==> (#[trigger] a[i]).name@ == b[i].name@,
        ensures
            Self::spec_visible_count(pat, a) == Self::spec_visible_count(pat, b),
        decreases a.len(),
    {
        if a.len() > 0 {
            assert forall|i: int| 0 <= i < a.len() - 1 implies (#[trigger] a.drop_last()[i]).name@
                == b.drop_last()[i].name@ by {
                assert(a.drop_last()[i] == a[i]);
                assert(b.drop_last()[i] == b[i]);
            }
            Self::lemma_visible_count_names(pat, a.drop_last(), b.drop_last());
            assert(a.last().name@ == b.last().name@);
        }
    }

    /// One pass of the state half of the drain: the scan-complete,
    /// reset-search, filter and reset-cursor actions run in that fixed
    /// priority order, so a search reset triggers the filter pass it
    /// needs within the same drain, and a requested filter always runs
    /// before anything renders: when the drain ends no filter action is
    /// pending, and a filter that was pending has left every entry's
    /// visibility agreeing with the search text as it then stood.
    pub fn drain_state_updates(&mut self)
        requires
            old(self).wf(),
        ensures
            final(self).wf(),
            final(self).updates & UPDATE_FILTER_FILES == 0,
            old(self).updates & UPDATE_FILTER_FILES != 0 ==> ({
                &&& final(self).dir_content@.len() == old(self).dir_content@.len()
                &&& forall|i: int|
                    0 <= i < final(self).dir_content@.len() ==> (#[trigger] final(self).dir_content@[i]).passes_filter == spec_passes(
                        final(self).search_text@,
                        final(self).dir_content@[i].name@,
                    )
                &&& final(self).dir_content_len == Self::spec_visible_count(
                    final(self).search_text@,
                    final(self).dir_content@,
                )
            }),
    {
        let ghost s0 = *old(self);
        self.process_scan_complete();
        let ghost s1 = *self;
        proof {
            assert(UPDATE_FILTER_FILES & (UPDATE_REDRAW_FILELIST | UPDATE_MOVE_CURSOR
                | UPDATE_RESET_CURRENT_INDEX) == 0) by (bit_vector);
            assert(UPDATE_RESCANNING_FILES_COMPLETE & UPDATE_FILTER_FILES == 0) by (bit_vector);
            if s0.updates & UPDATE_RESCANNING_FILES_COMPLETE != 0 {
                let base = TuiFile {
                    updates: s0.updates ^ UPDATE_RESCANNING_FILES_COMPLETE,
                    current_index: Self::spec_clamp_index(
                        s0.dir_content@.len(),
                        s0.current_index as nat,
                    ) as usize,
                    after_rescanning_files: s1.after_rescanning_files,
                    ..s0
                };
                Self::lemma_drain_queue_frame(
                    base,
                    s0.after_rescanning_files@,
                    UPDATE_FILTER_FILES,
                );
                crate::updates::lemma_consume_preserves_disjoint(
                    s0.updates,
                    UPDATE_RESCANNING_FILES_COMPLETE,
                    UPDATE_FILTER_FILES,
                );
            }
            assert(s1.dir_content == s0.dir_content && s1.search_text == s0.search_text
                && s1.updates & UPDATE_FILTER_FILES == s0.updates & UPDATE_FILTER_FILES);
        }
        self.process_reset_search();
        let ghost s2 = *self;
        proof {
            assert(UPDATE_RESET_SEARCH & UPDATE_FILTER_FILES == 0) by (bit_vector);
            if s1.updates & UPDATE_RESET_SEARCH != 0 {
                if s1.search_text@.len() == 0 {
                    crate::updates::lemma_consume_preserves_disjoint(
                        s1.updates,
                        UPDATE_RESET_SEARCH,
                        UPDATE_FILTER_FILES,
                    );
                } else {
                    crate::updates::lemma_request_sets(
                        (s1.updates ^ UPDATE_RESET_SEARCH) | UPDATE_REDRAW_SEARCHBAR,
                        UPDATE_FILTER_FILES,
                    );
                }
            }
            assert(s2.dir_content == s1.dir_content);
            assert(s0.updates & UPDATE_FILTER_FILES != 0 ==> s2.updates & UPDATE_FILTER_FILES
                != 0);
        }
        self.process_filter();
        let ghost s3 = *self;
        proof {
            assert(UPDATE_REDRAW_FILELIST & UPDATE_FILTER_FILES == 0) by (bit_vector);
            if s2.updates & UPDATE_FILTER_FILES != 0 {
                crate::updates::lemma_single_flag_full(s2.updates, UPDATE_FILTER_FILES);
                crate::updates::lemma_consume_clears(s2.updates, UPDATE_FILTER_FILES);
                crate::updates::lemma_request_preserves_disjoint(
                    s2.updates ^ UPDATE_FILTER_FILES,
                    UPDATE_REDRAW_FILELIST,
                    UPDATE_FILTER_FILES,
                );
            }
            assert(s3.updates & UPDATE_FILTER_FILES == 0);
        }
        self.process_reset_index();
        proof {
            let s4 = *self;
            assert(UPDATE_RESET_CURRENT_INDEX & UPDATE_FILTER_FILES == 0) by (bit_vector);
            assert(UPDATE_FILTER_FILES & (UPDATE_REDRAW_FILELIST | UPDATE_MOVE_CURSOR) == 0)
                by (bit_vector);
            if s3.updates & UPDATE_RESET_CURRENT_INDEX != 0 {
                let base = TuiFile { updates: s3.updates ^ UPDATE_RESET_CURRENT_INDEX, ..s3 };
                crate::updates::lemma_consume_preserves_disjoint(
                    s3.updates,
                    UPDATE_RESET_CURRENT_INDEX,
                    UPDATE_FILTER_FILES,
                );
                match Self::first_visible_from(s3.dir_content@, 0) {
                    Some(j) => {
                        Self::lemma_set_index_frame(base, j as nat, UPDATE_FILTER_FILES);
                    },
                    None => {},
                }
            }
            assert(s4.updates & UPDATE_FILTER_FILES == 0);
            if s0.updates & UPDATE_FILTER_FILES != 0 {
                assert(s4.dir_content == s3.dir_content && s4.search_text == s3.search_text
                    && s4.dir_content_len == s3.dir_content_len);
                assert(s3.search_text == s2.search_text);
                assert forall|i: int| 0 <= i < s4.dir_content@.len() implies (#[trigger] s4.dir_content@[i]).passes_filter
                    == spec_passes(s4.search_text@, s4.dir_content@[i].name@) by {
                    let e0 = s2.dir_content@[i];
                    assert(s3.dir_content@[i].passes_filter == spec_passes(
                        s2.search_text@,
                        e0.name@,
                    ));
                    assert(s3.dir_content@[i].name@ == e0.name@);
                }
                assert forall|i: int| 0 <= i < s2.dir_content@.len() implies (#[trigger] s2.dir_content@[i]).name@
                    == s3.dir_content@[i].name@ by {
                    let e0 = s2.dir_content@[i];
                    assert(s3.dir_content@[i].name@ == e0.name@);
                }
                Self::lemma_visible_count_names(
                    s3.search_text@,
                    s2.dir_content@,
                    s3.dir_content@,
                );
                assert(s4.dir_content_len == Self::spec_visible_count(
                    s4.search_text@,
                    s4.dir_content@,
                ));
            }
        }
    }

    /// Clearing the filter restores every entry: a filter pass with the
    /// emptied search text (which clearing requests) marks every entry
    /// as passing, and the visible count equals the total.
    pub proof fn lemma_clear_restores_all(entries: Seq<DirContent>)
        ensures
            forall|i: int|
                0 <= i < entries.len() ==> spec_passes(
                    Seq::<char>::empty(),
                    (#[trigger] entries[i]).name@,
                ),
            Self::spec_visible_count(Seq::<char>::empty(), entries) == entries.len(),
        decreases entries.len(),
    {
        if entries.len() > 0 {
            Self::lemma_clear_restores_all(entries.drop_last());
            assert forall|i: int| 0 <= i < entries.len() implies spec_passes(
                Seq::<char>::empty(),
                (#[trigger] entries[i]).name@,
            ) by {
                if i < entries.len() - 1 {
                    assert(entries.drop_last()[i] == entries[i]);
                }
            }
        }
    }

    /// Paths of the selected entries, in reverse listing order, as the
    /// delete and permission-change commands gather them.
    pub open spec fn spec_selected_paths_rev(entries: Seq<DirContent>) -> Seq<Seq<char>>
        decreases entries.len(),
    {
        if entries.len() == 0 {
            Seq::empty()
        } else {
            (if entries.last().selected {
                seq![entries.last().path@]
            } else {
                Seq::empty()
            }) + Self::spec_selected_paths_rev(entries.drop_last())
        }
    }

    /// Gathers the selected entries' paths, last entry first.
    fn selected_paths_rev(&self) -> (r: Vec<Vec<char>>)
        ensures
            r.deep_view() == Self::spec_selected_paths_rev(self.dir_content@),
    {
        let mut r: Vec<Vec<char>> = Vec::new();
        let mut i = self.dir_content.len();
        while i > 0
            invariant
                i <= self.dir_content@.len(),
                r.deep_view() == Self::spec_selected_paths_rev(self.dir_content@.skip(i as int)),
            decreases i,
        {
            i -= 1;
            let ghost pre_dv = r.deep_view();
            if self.dir_content[i].selected {
                let p = chars_clone(&self.dir_content[i].path);
                proof {
                    crate::text::lemma_deep_view_chars(p);
                }
                let ghost pv = p@;
                r.push(p);
                assert(r.deep_view() =~~= pre_dv + seq![pv]);
            }
            proof {
                Self::lemma_selected_paths_suffix(self.dir_content@, i as int);
                assert(r.deep_view() =~= Self::spec_selected_paths_rev(
                    self.dir_content@.skip(i as int),
                ));
            }
        }
        proof {
            assert(self.dir_content@.skip(0) =~= self.dir_content@);
        }
        r
    }

    /// The gather from a suffix is the gather from one further in,
    /// with that entry's path appended when it is selected.
    proof fn lemma_selected_paths_suffix(entries: Seq<DirContent>, i: int)
        requires
            0 <= i < entries.len(),
        ensures
            Self::spec_selected_paths_rev(entries.skip(i)) == Self::spec_selected_paths_rev(
                entries.skip(i + 1),
            ) + (if entries[i].selected {
                seq![entries[i].path@]
            } else {
                Seq::<Seq<char>>::empty()
            }),
        decreases entries.len(),
    {
        let s = entries.skip(i);
        let tail = if entries[i].selected {
            seq![entries[i].path@]
        } else {
            Seq::<Seq<char>>::empty()
        };
        if i + 1 == entries.len() {
            assert(s.len() == 1);
            assert(s.last() == entries[i]);
            assert(entries.skip(i + 1) =~= s.drop_last());
            assert(Self::spec_selected_paths_rev(s.drop_last()) == Seq::<Seq<char>>::empty());
            assert(Self::spec_selected_paths_rev(s) =~= Self::spec_selected_paths_rev(
                entries.skip(i + 1),
            ) + tail);
        } else {
            let pre = entries.drop_last();
            let head = if entries.last().selected {
                seq![entries.last().path@]
            } else {
                Seq::<Seq<char>>::empty()
            };
            assert(s.last() == entries.last());
            assert(s.drop_last() =~= pre.skip(i));
            Self::lemma_selected_paths_suffix(pre, i);
            assert(pre[i] == entries[i]);
            assert(Self::spec_selected_paths_rev(s) == head + (Self::spec_selected_paths_rev(
                pre.skip(i + 1),
            ) + tail));
            assert(pre.skip(i + 1) =~= entries.skip(i + 1).drop_last());
            assert(entries.skip(i + 1).last() == entries.last());
            assert(Self::spec_selected_paths_rev(entries.skip(i + 1)) == head
                + Self::spec_selected_paths_rev(pre.skip(i + 1)));
            assert(head + (Self::spec_selected_paths_rev(pre.skip(i + 1)) + tail) =~= (head
                + Self::spec_selected_paths_rev(pre.skip(i + 1))) + tail);
        }
    }

    /// Flips the selection of every visible entry.
    fn toggle_select_all(&mut self)
        ensures
            final(self).dir_content@.len() == old(self).dir_content@.len(),
            forall|i: int|
                0 <= i < old(self).dir_content@.len() ==> {
                    let e0 = #[trigger] old(self).dir_content@[i];
                    let e1 = final(self).dir_content@[i];
                    &&& e1.selected == (if e0.passes_filter {
                        !e0.selected
                    } else {
                        e0.selected
                    })
                    &&& e1.passes_filter == e0.passes_filter
                    &&& e1.path@ == e0.path@
                    &&& e1.name@ == e0.name@
                    &&& e1.name_charlen == e0.name_charlen
                    &&& e1.rel_depth == e0.rel_depth
                    &&& e1.info@ == e0.info@
                    &&& e1.cells.deep_view() == e0.cells.deep_view()
                    &&& e1.more@ == e0.more@
                },
            *final(self) == (TuiFile { dir_content: final(self).dir_content, ..*old(self) }),
    {
        let n = self.dir_content.len();
        let mut i: usize = 0;
        while i < n
            invariant
                i <= n == self.dir_content@.len(),
                *self == (TuiFile { dir_content: self.dir_content, ..*old(self) }),
                forall|k: int| i <= k < n ==> self.dir_content@[k] == old(self).dir_content@[k],
                forall|k: int|
                    0 <= k < i ==> {
                        let e0 = #[trigger] old(self).dir_content@[k];
                        let e1 = self.dir_content@[k];
                        &&& e1.selected == (if e0.passes_filter {
                            !e0.selected
                        } else {
                            e0.selected
                        })
                        &&& e1.passes_filter == e0.passes_filter
                        &&& e1.path@ == e0.path@
                        &&& e1.name@ == e0.name@
                        &&& e1.name_charlen == e0.name_charlen
                        &&& e1.rel_depth == e0.rel_depth
                        &&& e1.info@ == e0.info@
                        &&& e1.cells.deep_view() == e0.cells.deep_view()
                        &&& e1.more@ == e0.more@
                    },
            decreases n - i,
        {
            let mut e = clone_entry(&self.dir_content[i]);
            if e.passes_filter {
                e.selected = !e.selected;
            }
            self.dir_content[i] = e;
            i += 1;
        }
    }

    /// Clears the selection of every visible entry.
    fn deselect_all(&mut self)
        ensures
            final(self).dir_content@.len() == old(self).dir_content@.len(),
            forall|i: int|
                0 <= i < old(self).dir_content@.len() ==> {
                    let e0 = #[trigger] old(self).dir_content@[i];
                    let e1 = final(self).dir_content@[i];
                    &&& e1.selected == (if e0.passes_filter {
                        false
                    } else {
                        e0.selected
                    })
                    &&& e1.passes_filter == e0.passes_filter
                    &&& e1.path@ == e0.path@
                    &&& e1.name@ == e0.name@
                    &&& e1.name_charlen == e0.name_charlen
                    &&& e1.rel_depth == e0.rel_depth
                    &&& e1.info@ == e0.info@
                    &&& e1.cells.deep_view() == e0.cells.deep_view()
                    &&& e1.more@ == e0.more@
                },
            *final(self) == (TuiFile { dir_content: final(self).dir_content, ..*old(self) }),
    {
        let n = self.dir_content.len();
        let mut i: usize = 0;
        while i < n
            invariant
                i <= n == self.dir_content@.len(),
                *self == (TuiFile { dir_content: self.dir_content, ..*old(self) }),
                forall|k: int| i <= k < n ==> self.dir_content@[k] == old(self).dir_content@[k],
                forall|k: int|
                    0 <= k < i ==> {
                        let e0 = #[trigger] old(self).dir_content@[k];
                        let e1 = self.dir_content@[k];
                        &&& e1.selected == (if e0.passes_filter {
                            false
                        } else {
                            e0.selected
                        })
                        &&& e1.passes_filter == e0.passes_filter
                        &&& e1.path@ == e0.path@
                        &&& e1.name@ == e0.name@
                        &&& e1.name_charlen == e0.name_charlen
                        &&& e1.rel_depth == e0.rel_depth
                        &&& e1.info@ == e0.info@
                        &&& e1.cells.deep_view() == e0.cells.deep_view()
                        &&& e1.more@ == e0.more@
                    },
            decreases n - i,
        {
            let mut e = clone_entry(&self.dir_content[i]);
            if e.passes_filter {
                e.selected = false;
            }
            self.dir_content[i] = e;
            i += 1;
        }
    }

    /// Appending one action to a drained prefix drains it last.
    proof fn lemma_drain_take_snoc(pre: TuiFile, q: Seq<AfterRescan>, k: int)
        requires
            0 <= k < q.len(),
        ensures
            Self::spec_drain_queue(pre, q.take(k + 1)) == Self::spec_select_entry(
                Self::spec_drain_queue(pre, q.take(k)),
                q[k],
            ),
        decreases k,
    {
        if k == 0 {
            let mid = Self::spec_select_entry(pre, q[0]);
            assert(q.take(1)[0] == q[0]);
            assert(q.take(1).skip(1) =~= Seq::<AfterRescan>::empty());
            assert(q.take(0) =~= Seq::<AfterRescan>::empty());
            assert(Self::spec_drain_queue(mid, Seq::<AfterRescan>::empty()) == mid);
            assert(Self::spec_drain_queue(pre, q.take(1)) == Self::spec_drain_queue(
                mid,
                q.take(1).skip(1),
            ));
            assert(Self::spec_drain_queue(pre, Seq::<AfterRescan>::empty()) == pre);
        } else {
            let mid = Self::spec_select_entry(pre, q[0]);
            assert(q.take(k + 1)[0] == q[0]);
            assert(q.take(k + 1).skip(1) =~= q.skip(1).take(k));
            assert(Self::spec_drain_queue(pre, q.take(k + 1)) == Self::spec_drain_queue(
                mid,
                q.skip(1).take(k),
            ));
            assert(q.take(k)[0] == q[0]);
            assert(q.take(k).skip(1) =~= q.skip(1).take(k - 1));
            assert(Self::spec_drain_queue(pre, q.take(k)) == Self::spec_drain_queue(
                mid,
                q.skip(1).take(k - 1),
            ));
            Self::lemma_drain_take_snoc(mid, q.skip(1), k - 1);
            assert(q.skip(1)[k - 1] == q[k]);
        }
    }
    /// What the scan-mode command reads from the search text: `b` and
    /// `t` choose the plain modes, a leading `b` or `t` followed by
    /// seconds chooses the deadline-bounded ones, anything else leaves
    /// the mode alone.
    pub open spec fn spec_mode_of(text: Seq<char>, cur: ScanFilesMode) -> ScanFilesMode {
        if text == seq!['b'] {
            ScanFilesMode::Blocking
        } else if text == seq!['t'] {
            ScanFilesMode::Threaded
        } else if text.len() > 0 && text[0] == 'b' {
            match spec_parse_millis(text.skip(1)) {
                Some(ms) => ScanFilesMode::Timeout { millis: ms },
                None => cur,
            }
        } else if text.len() > 0 && text[0] == 't' {
            match spec_parse_millis(text.skip(1)) {
                Some(ms) => ScanFilesMode::TimeoutThenThreaded { millis: ms },
                None => cur,
            }
        } else {
            cur
        }
    }

    /// Takes the directory-creation outcome in: on success the session
    /// moves into the new directory; either way a rescan is requested.
    pub fn mkdir_done(&mut self, ok: bool, dir: Vec<char>)
        requires
            old(self).wf(),
        ensures
            final(self).wf(),
            ok ==> *final(self) == (TuiFile {
                updates: old(self).updates | UPDATE_RESET_SEARCH | UPDATE_REDRAW_INFOBAR
                    | UPDATE_RESCAN_FILES,
                current_dir: dir,
                ..*old(self)
            }),
            !ok ==> *final(self) == (TuiFile {
                updates: old(self).updates | UPDATE_RESCAN_FILES,
                ..*old(self)
            }),
    {
        if ok {
            self.updates.request_reset_search();
            self.current_dir = dir;
            self.updates.request_redraw_infobar();
        }
        self.updates.request_rescan_files();
    }
}

/// One logical key command, as the input decoder maps raw events.
#[derive(Clone, Copy, PartialEq, Eq, Structural, Debug)]
pub enum KeyCmd {
    Quit,
    CloseInstance,
    DuplicateInstance,
    NextInstance,
    PrevInstance,
    MoveDown,
    MoveUp,
    Ascend,
    Descend,
    ToggleSelectAll,
    ToggleSelectCurrent,
    DeselectAll,
    FocusSearch,
    SetScanMode,
    NewDirFromSearch,
    CopySelected,
    RemoveSelected,
    SetPermissions,
    SetOwner,
    OpenTerminal,
    OpenEditor,
    SetDepth(u8),
    SearchCancel,
    SearchConfirm,
    SearchInput(char),
    SearchBackspace,
}

/// What the caller must do after a key command: route a session event,
/// or perform one filesystem or process action with the values handed
/// out.
pub enum KeyAction {
    Nothing,
    Quit,
    CloseInstance,
    DuplicateInstance,
    NextInstance,
    PrevInstance,
    /// Copy every active session's selection into this directory.
    CopyTo(Vec<char>),
    /// Delete these paths, in this order; a directory non-recursively.
    Delete(Vec<Vec<char>>),
    /// Apply this permission word to these paths, in this order.
    Chmod(Vec<Vec<char>>, u32),
    /// Create this directory, then report back via `mkdir_done`.
    MakeDir(Vec<char>),
    /// Open a terminal in this directory.
    OpenTerminal(Vec<char>),
    /// Open the editor in this directory, on this entry if any.
    OpenEditor(Vec<char>, Option<Vec<char>>),
}

/// How the session loop must run a scan in the given mode: whether to
/// scan synchronously, whether to hand the scan to a worker thread
/// (after an incomplete synchronous pass, when both are set), and the
/// deadline in milliseconds bounding the synchronous pass.
pub fn scan_dispatch(mode: &ScanFilesMode) -> (r: (bool, bool, Option<u64>))
    ensures
        r == (match mode {
            ScanFilesMode::Blocking => (true, false, Option::<u64>::None),
            ScanFilesMode::Threaded => (false, true, Option::<u64>::None),
            ScanFilesMode::Timeout { millis } => (true, false, Option::Some(*millis)),
            ScanFilesMode::TimeoutThenThreaded { millis } => (true, true, Option::Some(*millis)),
        }),
{
    match mode {
        ScanFilesMode::Blocking => (true, false, None),
        ScanFilesMode::Threaded => (false, true, None),
        ScanFilesMode::Timeout { millis } => (true, false, Some(*millis)),
        ScanFilesMode::TimeoutThenThreaded { millis } => (true, true, Some(*millis)),
    }
}

impl TuiFile {
    /// Everything after the first character of the search text.
    fn search_text_tail(&self) -> (r: Vec<char>)
        requires
            self.search_text@.len() >= 1,
        ensures
            r@ == self.search_text@.skip(1),
    {
        let mut r: Vec<char> = Vec::new();
        let mut i: usize = 1;
        while i < self.search_text.len()
            invariant
                1 <= i <= self.search_text@.len(),
                r@ =~= self.search_text@.subrange(1, i as int),
            decreases self.search_text@.len() - i,
        {
            r.push(self.search_text[i]);
            i += 1;
        }
        assert(r@ =~= self.search_text@.skip(1));
        r
    }

    /// Handles one key command: the session state changes exactly as
    /// the command asks, and whatever the caller must do — quit, route
    /// a session event, or run one filesystem or process action — comes
    /// back as the action.
    #[verifier::rlimit(100)]
    pub fn handle_key(&mut self, cmd: KeyCmd, live_search: bool) -> (r: KeyAction)
        requires
            old(self).wf(),
        ensures
            final(self).wf(),
            match cmd {
                KeyCmd::Quit => r is Quit && *final(self) == *old(self),
                KeyCmd::CloseInstance => r is CloseInstance && *final(self) == *old(self),
                KeyCmd::DuplicateInstance => r is DuplicateInstance && *final(self) == *old(self),
                KeyCmd::NextInstance => r is NextInstance && *final(self) == *old(self),
                KeyCmd::PrevInstance => r is PrevInstance && *final(self) == *old(self),
                KeyCmd::MoveDown => r is Nothing && *final(self) == (if old(self).current_index
                    < usize::MAX {
                    match Self::first_visible_from(
                        old(self).dir_content@,
                        old(self).current_index + 1,
                    ) {
                        Some(j) => Self::spec_set_index(*old(self), j as nat),
                        None => *old(self),
                    }
                } else {
                    *old(self)
                }),
                KeyCmd::MoveUp => r is Nothing && *final(self) == (if old(self).current_index > 0 {
                    match Self::last_visible_until(
                        old(self).dir_content@,
                        old(self).current_index - 1,
                    ) {
                        Some(j) => Self::spec_set_index(*old(self), j as nat),
                        None => *old(self),
                    }
                } else {
                    *old(self)
                }),
                KeyCmd::Ascend => r is Nothing && (match spec_file_name(old(self).current_dir@) {
                    Some(name) => {
                        &&& *final(self) == (TuiFile {
                            updates: old(self).updates | UPDATE_REDRAW_INFOBAR
                                | UPDATE_RESCAN_FILES,
                            current_dir: final(self).current_dir,
                            after_rescanning_files: final(self).after_rescanning_files,
                            ..*old(self)
                        })
                        &&& final(self).current_dir@ == spec_pop(old(self).current_dir@)
                        &&& final(self).after_rescanning_files@.len() == old(self).after_rescanning_files@.len() + 1
                        &&& final(self).after_rescanning_files@.drop_last() == old(self).after_rescanning_files@
                        &&& (final(self).after_rescanning_files@.last()
                            matches AfterRescan::SelectByName(n) && n@ == name)
                    },
                    None => *final(self) == *old(self),
                }),
                KeyCmd::Descend => r is Nothing && (if old(self).current_index < old(self).dir_content@.len() {
                    *final(self) == (TuiFile {
                        updates: u32::MAX,
                        current_dir: final(self).current_dir,
                        ..*old(self)
                    }) && final(self).current_dir@ == old(self).dir_content@[old(self).current_index as int].path@
                } else {
                    *final(self) == *old(self)
                }),
                KeyCmd::ToggleSelectAll => {
                    &&& r is Nothing
                    &&& *final(self) == (TuiFile {
                        updates: old(self).updates | UPDATE_REDRAW_FILELIST,
                        dir_content: final(self).dir_content,
                        ..*old(self)
                    })
                    &&& final(self).dir_content@.len() == old(self).dir_content@.len()
                    &&& forall|i: int|
                        0 <= i < old(self).dir_content@.len() ==> {
                            let e0 = #[trigger] old(self).dir_content@[i];
                            let e1 = final(self).dir_content@[i];
                            &&& e1.selected == (if e0.passes_filter {
                                !e0.selected
                            } else {
                                e0.selected
                            })
                            &&& e1.passes_filter == e0.passes_filter
                            &&& e1.path@ == e0.path@
                            &&& e1.name@ == e0.name@
                            &&& e1.rel_depth == e0.rel_depth
                            &&& e1.info@ == e0.info@
                            &&& e1.more@ == e0.more@
                        }
                },
                KeyCmd::ToggleSelectCurrent => {
                    &&& r is Nothing
                    &&& *final(self) == (TuiFile {
                        updates: old(self).updates | UPDATE_REDRAW_FILELIST,
                        dir_content: final(self).dir_content,
                        ..*old(self)
                    })
                    &&& final(self).dir_content@.len() == old(self).dir_content@.len()
                    &&& forall|i: int|
                        0 <= i < old(self).dir_content@.len() && i != old(self).current_index
                            ==> final(self).dir_content@[i] == old(self).dir_content@[i]
                    &&& (old(self).current_index < old(self).dir_content@.len() ==> {
                        let e0 = old(self).dir_content@[old(self).current_index as int];
                        let e1 = final(self).dir_content@[old(self).current_index as int];
                        &&& e1.selected == !e0.selected
                        &&& e1.passes_filter == e0.passes_filter
                        &&& e1.path@ == e0.path@
                        &&& e1.name@ == e0.name@
                        &&& e1.rel_depth == e0.rel_depth
                        &&& e1.info@ == e0.info@
                        &&& e1.more@ == e0.more@
                    })
                },
                KeyCmd::DeselectAll => {
                    &&& r is Nothing
                    &&& *final(self) == (TuiFile {
                        updates: old(self).updates | UPDATE_REDRAW_FILELIST,
                        dir_content: final(self).dir_content,
                        ..*old(self)
                    })
                    &&& final(self).dir_content@.len() == old(self).dir_content@.len()
                    &&& forall|i: int|
                        0 <= i < old(self).dir_content@.len() ==> {
                            let e0 = #[trigger] old(self).dir_content@[i];
                            let e1 = final(self).dir_content@[i];
                            &&& e1.selected == (if e0.passes_filter {
                                false
                            } else {
                                e0.selected
                            })
                            &&& e1.passes_filter == e0.passes_filter
                            &&& e1.path@ == e0.path@
                            &&& e1.name@ == e0.name@
                            &&& e1.rel_depth == e0.rel_depth
                            &&& e1.info@ == e0.info@
                            &&& e1.more@ == e0.more@
                        }
                },
                KeyCmd::FocusSearch => r is Nothing && *final(self) == (TuiFile {
                    focus: Focus::SearchBar,
                    updates: old(self).updates | UPDATE_MOVE_CURSOR,
                    ..*old(self)
                }),
                KeyCmd::SetScanMode => {
                    &&& r is Nothing
                    &&& *final(self) == (TuiFile {
                        updates: old(self).updates | UPDATE_RESET_SEARCH | UPDATE_REDRAW_FILEBAR,
                        scan_files_mode: Self::spec_mode_of(
                            old(self).search_text@,
                            old(self).scan_files_mode,
                        ),
                        ..*old(self)
                    })
                },
                KeyCmd::NewDirFromSearch => {
                    &&& *final(self) == *old(self)
                    &&& (r matches KeyAction::MakeDir(d) && d@ == spec_join(
                        old(self).current_dir@,
                        old(self).search_text@,
                    ))
                },
                KeyCmd::CopySelected => *final(self) == *old(self) && (if old(self).current_index
                    < old(self).dir_content@.len() && old(self).dir_content@[old(self).current_index as int].more@ is Dir {
                    r matches KeyAction::CopyTo(p) && p@ == old(self).dir_content@[old(self).current_index as int].path@
                } else {
                    r is Nothing
                }),
                KeyCmd::RemoveSelected => {
                    &&& *final(self) == (TuiFile {
                        updates: old(self).updates | UPDATE_REDRAW_INFOBAR,
                        ..*old(self)
                    })
                    &&& (r matches KeyAction::Delete(paths) && paths.deep_view()
                        == Self::spec_selected_paths_rev(old(self).dir_content@))
                },
                KeyCmd::SetPermissions => match spec_parse_octal(old(self).search_text@) {
                    Some(mode) => {
                        &&& *final(self) == (TuiFile {
                            updates: old(self).updates | UPDATE_RESET_SEARCH
                                | UPDATE_REDRAW_INFOBAR,
                            ..*old(self)
                        })
                        &&& (r matches KeyAction::Chmod(paths, m) && m == mode
                            && paths.deep_view() == Self::spec_selected_paths_rev(
                            old(self).dir_content@,
                        ))
                    },
                    None => {
                        &&& *final(self) == (TuiFile {
                            updates: old(self).updates | UPDATE_RESET_SEARCH,
                            ..*old(self)
                        })
                        &&& r is Nothing
                    },
                },
                KeyCmd::SetOwner => r is Nothing && *final(self) == (TuiFile {
                    updates: old(self).updates | UPDATE_RESET_SEARCH,
                    ..*old(self)
                }),
                KeyCmd::OpenTerminal => *final(self) == *old(self) && (r matches
                    KeyAction::OpenTerminal(d) && d@ == old(self).current_dir@),
                KeyCmd::OpenEditor => *final(self) == *old(self) && (r matches
                    KeyAction::OpenEditor(d, p) && d@ == old(self).current_dir@ && (if old(self).current_index < old(self).dir_content@.len() {
                    p matches Some(q) && q@ == old(self).dir_content@[old(self).current_index as int].path@
                } else {
                    p is None
                })),
                KeyCmd::SetDepth(d) => {
                    &&& r is Nothing
                    &&& final(self).scan_files_max_depth == (if d == 0 {
                        usize::MAX
                    } else {
                        (d - 1) as usize
                    })
                    &&& final(self).updates == old(self).updates | UPDATE_RESCAN_FILES
                    &&& *final(self) == (TuiFile {
                        updates: final(self).updates,
                        scan_files_max_depth: final(self).scan_files_max_depth,
                        after_rescanning_files: final(self).after_rescanning_files,
                        ..*old(self)
                    })
                },
                KeyCmd::SearchCancel => {
                    &&& r is Nothing
                    &&& *final(self) == (TuiFile {
                        focus: Focus::Files,
                        search_text: final(self).search_text,
                        search_regex: None,
                        updates: (if live_search {
                            old(self).updates | UPDATE_REDRAW_SEARCHBAR | UPDATE_MOVE_CURSOR
                                | UPDATE_FILTER_FILES
                        } else {
                            old(self).updates | UPDATE_REDRAW_SEARCHBAR | UPDATE_MOVE_CURSOR
                        }),
                        ..*old(self)
                    })
                    &&& final(self).search_text@.len() == 0
                },
                KeyCmd::SearchConfirm => r is Nothing && *final(self) == (TuiFile {
                    focus: Focus::Files,
                    updates: (if !live_search {
                        old(self).updates | UPDATE_MOVE_CURSOR | UPDATE_FILTER_FILES
                            | UPDATE_RESET_CURRENT_INDEX
                    } else {
                        old(self).updates | UPDATE_MOVE_CURSOR | UPDATE_RESET_CURRENT_INDEX
                    }),
                    ..*old(self)
                }),
                KeyCmd::SearchInput(ch) => {
                    &&& r is Nothing
                    &&& *final(self) == (TuiFile {
                        search_text: final(self).search_text,
                        search_regex: None,
                        updates: (if live_search {
                            old(self).updates | UPDATE_REDRAW_SEARCHBAR | UPDATE_FILTER_FILES
                        } else {
                            old(self).updates | UPDATE_REDRAW_SEARCHBAR
                        }),
                        ..*old(self)
                    })
                    &&& final(self).search_text@ == old(self).search_text@.push(ch)
                },
                KeyCmd::SearchBackspace => {
                    &&& r is Nothing
                    &&& *final(self) == (TuiFile {
                        search_text: final(self).search_text,
                        search_regex: None,
                        updates: (if live_search {
                            old(self).updates | UPDATE_REDRAW_SEARCHBAR | UPDATE_FILTER_FILES
                        } else {
                            old(self).updates | UPDATE_REDRAW_SEARCHBAR
                        }),
                        ..*old(self)
                    })
                    &&& final(self).search_text@ == (if old(self).search_text@.len() > 0 {
                        old(self).search_text@.drop_last()
                    } else {
                        old(self).search_text@
                    })
                },
            },
    {
        match cmd {
            KeyCmd::Quit => KeyAction::Quit,
            KeyCmd::CloseInstance => KeyAction::CloseInstance,
            KeyCmd::DuplicateInstance => KeyAction::DuplicateInstance,
            KeyCmd::NextInstance => KeyAction::NextInstance,
            KeyCmd::PrevInstance => KeyAction::PrevInstance,
            KeyCmd::MoveDown => {
                if self.current_index < usize::MAX {
                    self.set_current_index_to_visible(self.current_index + 1, true);
                }
                KeyAction::Nothing
            },
            KeyCmd::MoveUp => {
                if self.current_index > 0 {
                    self.set_current_index_to_visible(self.current_index - 1, false);
                }
                KeyAction::Nothing
            },
            KeyCmd::Ascend => {
                match path_file_name(&self.current_dir) {
                    Some(name) => {
                        path_pop(&mut self.current_dir);
                        self.updates.request_redraw_infobar();
                        self.request_rescan_files_then_select_by_name(name);
                        proof {
                            assert(final(self).after_rescanning_files@.drop_last() =~= old(self).after_rescanning_files@);
                        }
                    },
                    None => {},
                }
                KeyAction::Nothing
            },
            KeyCmd::Descend => {
                if self.current_index < self.dir_content.len() {
                    self.current_dir = chars_clone(&self.dir_content[self.current_index].path);
                    self.updates = u32::MAX;
                }
                KeyAction::Nothing
            },
            KeyCmd::ToggleSelectAll => {
                self.updates.request_redraw_filelist();
                self.toggle_select_all();
                KeyAction::Nothing
            },
            KeyCmd::ToggleSelectCurrent => {
                self.updates.request_redraw_filelist();
                if self.current_index < self.dir_content.len() {
                    let mut e = clone_entry(&self.dir_content[self.current_index]);
                    e.selected = !e.selected;
                    self.dir_content[self.current_index] = e;
                }
                KeyAction::Nothing
            },
            KeyCmd::DeselectAll => {
                self.updates.request_redraw_filelist();
                self.deselect_all();
                KeyAction::Nothing
            },
            KeyCmd::FocusSearch => {
                self.focus = Focus::SearchBar;
                self.updates.request_move_cursor();
                KeyAction::Nothing
            },
            KeyCmd::SetScanMode => {
                self.updates.request_reset_search();
                self.updates.request_redraw_filebar();
                if self.search_text.len() == 1 && self.search_text[0] == 'b' {
                    assert(self.search_text@ =~= seq!['b']);
                    self.scan_files_mode = ScanFilesMode::Blocking;
                } else if self.search_text.len() == 1 && self.search_text[0] == 't' {
                    assert(self.search_text@ =~= seq!['t']);
                    self.scan_files_mode = ScanFilesMode::Threaded;
                } else if self.search_text.len() > 0 && self.search_text[0] == 'b' {
                    proof {
                        assert(self.search_text@ != seq!['b'] && self.search_text@ != seq!['t']);
                    }
                    let tail = self.search_text_tail();
                    match parse_millis(&tail) {
                        Some(ms) => {
                            self.scan_files_mode = ScanFilesMode::Timeout { millis: ms };
                        },
                        None => {},
                    }
                } else if self.search_text.len() > 0 && self.search_text[0] == 't' {
                    proof {
                        assert(self.search_text@ != seq!['b'] && self.search_text@ != seq!['t']);
                    }
                    let tail = self.search_text_tail();
                    match parse_millis(&tail) {
                        Some(ms) => {
                            self.scan_files_mode = ScanFilesMode::TimeoutThenThreaded {
                                millis: ms,
                            };
                        },
                        None => {},
                    }
                }
                KeyAction::Nothing
            },
            KeyCmd::NewDirFromSearch => {
                let dir = path_join(&self.current_dir, &self.search_text);
                KeyAction::MakeDir(dir)
            },
            KeyCmd::CopySelected => {
                if self.current_index < self.dir_content.len() {
                    match &self.dir_content[self.current_index].more {
                        DirContentType::Dir => {
                            return KeyAction::CopyTo(
                                chars_clone(&self.dir_content[self.current_index].path),
                            );
                        },
                        _ => {},
                    }
                }
                KeyAction::Nothing
            },
            KeyCmd::RemoveSelected => {
                let paths = self.selected_paths_rev();
                self.updates.request_redraw_infobar();
                KeyAction::Delete(paths)
            },
            KeyCmd::SetPermissions => {
                self.updates.request_reset_search();
                match parse_octal(&self.search_text) {
                    Some(mode) => {
                        let paths = self.selected_paths_rev();
                        self.updates.request_redraw_infobar();
                        KeyAction::Chmod(paths, mode)
                    },
                    None => KeyAction::Nothing,
                }
            },
            KeyCmd::SetOwner => {
                self.updates.request_reset_search();
                KeyAction::Nothing
            },
            KeyCmd::OpenTerminal => KeyAction::OpenTerminal(chars_clone(&self.current_dir)),
            KeyCmd::OpenEditor => {
                let p = if self.current_index < self.dir_content.len() {
                    Some(chars_clone(&self.dir_content[self.current_index].path))
                } else {
                    None
                };
                KeyAction::OpenEditor(chars_clone(&self.current_dir), p)
            },
            KeyCmd::SetDepth(d) => {
                if d == 0 {
                    self.scan_files_max_depth = usize::MAX;
                } else {
                    self.scan_files_max_depth = (d - 1) as usize;
                }
                self.request_rescan_files_then_select_current_again();
                KeyAction::Nothing
            },
            KeyCmd::SearchCancel => {
                self.focus = Focus::Files;
                self.search_text = Vec::new();
                self.search_regex = None;
                self.updates.request_redraw_searchbar();
                self.updates.request_move_cursor();
                if live_search {
                    self.updates.request_filter_files();
                }
                KeyAction::Nothing
            },
            KeyCmd::SearchConfirm => {
                self.focus = Focus::Files;
                self.updates.request_move_cursor();
                if !live_search {
                    self.updates.request_filter_files();
                }
                self.updates.request_reset_current_index();
                KeyAction::Nothing
            },
            KeyCmd::SearchInput(ch) => {
                self.search_text.push(ch);
                self.search_regex = None;
                self.updates.request_redraw_searchbar();
                if live_search {
                    self.updates.request_filter_files();
                }
                KeyAction::Nothing
            },
            KeyCmd::SearchBackspace => {
                self.search_text.pop();
                self.search_regex = None;
                self.updates.request_redraw_searchbar();
                if live_search {
                    self.updates.request_filter_files();
                }
                KeyAction::Nothing
            },
        }
    }
}

} // verus!
