//! The session (tab) manager: the ordered sessions, the active index,
//! and the cross-session events — task completion fans a rescan out to
//! every session, and a copy gathers the selections of every active
//! session, not just the current one.

use vstd::prelude::*;

use crate::entry::DirContent;
use crate::paths::{chars_clone, spec_rel_path, rel_path_of, spec_file_name, path_file_name};
use crate::session::TuiFile;
use crate::tasks::{CopyItem, CopySource};
use crate::updates::{Updates, UPDATE_RESCAN_FILES};

verus! {

/// The spec-level value of one gathered item list.
pub open spec fn items_view(v: Vec<CopyItem>) -> Seq<(Seq<char>, bool)> {
    Seq::new(v@.len(), |i: int| (v@[i].rel_path@, v@[i].copy_recursive))
}

/// The spec-level value of the gathered sources.
pub open spec fn sources_view(v: Vec<CopySource>) -> Seq<(Seq<char>, Seq<(Seq<char>, bool)>)> {
    Seq::new(v@.len(), |i: int| (v@[i].parent@, items_view(v@[i].items)))
}

/// What one session contributes to a copy: for each selected entry
/// whose path lies under the session's directory (and names a file),
/// its relative path and whether it sat exactly at the scan's depth
/// limit, so its subtree must be copied whole.
pub closed spec fn spec_session_items(
    root: Seq<char>,
    entries: Seq<DirContent>,
    max_depth: int,
) -> Seq<(Seq<char>, bool)>
    decreases entries.len(),
{
    if entries.len() == 0 {
        Seq::empty()
    } else {
        let e = entries.last();
        spec_session_items(root, entries.drop_last(), max_depth) + (if e.selected && spec_rel_path(
            root,
            e.path@,
        ) is Some && spec_file_name(spec_rel_path(root, e.path@)->0) is Some {
            seq![(spec_rel_path(root, e.path@)->0, e.rel_depth == max_depth)]
        } else {
            Seq::empty()
        })
    }
}

/// What a copy dispatch gathers: every active session's directory and
/// selected items, in session order.
pub closed spec fn spec_gather(sessions: Seq<TuiFile>) -> Seq<(Seq<char>, Seq<(Seq<char>, bool)>)>
    decreases sessions.len(),
{
    if sessions.len() == 0 {
        Seq::empty()
    } else {
        let s = sessions.last();
        spec_gather(sessions.drop_last()) + (if s.active {
            seq![
                (
                    s.current_dir@,
                    spec_session_items(s.current_dir@, s.dir_content@, s.scan_files_max_depth as int),
                ),
            ]
        } else {
            Seq::empty()
        })
    }
}

/// Gathers one session's selected items relative to its directory.
fn session_items(s: &TuiFile) -> (r: Vec<CopyItem>)
    ensures
        items_view(r) == spec_session_items(
            s.current_dir@,
            s.dir_content@,
            s.scan_files_max_depth as int,
        ),
        forall|k: int|
            0 <= k < r@.len() ==> spec_file_name((#[trigger] r@[k]).rel_path@) is Some,
{
    let mut r: Vec<CopyItem> = Vec::new();
    let mut i: usize = 0;
    while i < s.dir_content.len()
        invariant
            i <= s.dir_content@.len(),
            items_view(r) == spec_session_items(
                s.current_dir@,
                s.dir_content@.take(i as int),
                s.scan_files_max_depth as int,
            ),
            forall|k: int|
                0 <= k < r@.len() ==> spec_file_name((#[trigger] r@[k]).rel_path@) is Some,
        decreases s.dir_content@.len() - i,
    {
        let ghost pre = items_view(r);
        if s.dir_content[i].selected {
            match rel_path_of(&s.current_dir, &s.dir_content[i].path) {
                Some(rel) => {
                    if path_file_name(&rel).is_some() {
                        let recursive = s.dir_content[i].rel_depth == s.scan_files_max_depth;
                        r.push(CopyItem { rel_path: rel, copy_recursive: recursive });
                    }
                },
                None => {},
            }
        }
        proof {
            let entries = s.dir_content@;
            assert(entries.take(i + 1).drop_last() =~= entries.take(i as int));
            assert(entries.take(i + 1).last() == entries[i as int]);
            assert(items_view(r) =~= spec_session_items(
                s.current_dir@,
                entries.take(i + 1),
                s.scan_files_max_depth as int,
            ));
        }
        i += 1;
    }
    proof {
        assert(s.dir_content@.take(s.dir_content@.len() as int) =~= s.dir_content@);
    }
    r
}

/// The session manager.
pub struct Manager {
    /// The open sessions, in tab order.
    pub instances: Vec<TuiFile>,
    /// Which session the main loop drives.
    pub active_instance: usize,
}

impl Manager {
    /// A manager owning one initial session.
    pub fn new(first: TuiFile) -> (r: Manager)
        ensures
            r.instances@.len() == 1,
            r.instances@[0] == first,
            r.active_instance == 0,
    {
        let mut instances: Vec<TuiFile> = Vec::new();
        instances.push(first);
        Manager { instances, active_instance: 0 }
    }

    /// Clamps the active index back into the session list.
    pub fn clamp_active(&mut self)
        requires
            old(self).instances@.len() > 0,
        ensures
            final(self).instances == old(self).instances,
            final(self).active_instance == (if old(self).active_instance >= old(self).instances@.len() {
                old(self).instances@.len() - 1
            } else {
                old(self).active_instance as int
            }),
    {
        if self.active_instance >= self.instances.len() {
            self.active_instance = self.instances.len() - 1;
        }
    }

    /// Closes the active session; the active index clamps to the
    /// previous one.
    pub fn close_active(&mut self)
        requires
            old(self).active_instance < old(self).instances@.len(),
        ensures
            final(self).instances@ == old(self).instances@.remove(
                old(self).active_instance as int,
            ),
            final(self).active_instance == (if old(self).active_instance > 0 {
                old(self).active_instance - 1
            } else {
                0int
            }),
    {
        self.instances.remove(self.active_instance);
        if self.active_instance > 0 {
            self.active_instance = self.active_instance - 1;
        }
    }

    /// Moves to the next session, without wrapping around.
    pub fn next_instance(&mut self)
        requires
            old(self).active_instance < old(self).instances@.len(),
        ensures
            final(self).instances == old(self).instances,
            final(self).active_instance == (if old(self).active_instance + 1 < old(self).instances@.len() {
                old(self).active_instance + 1
            } else {
                old(self).active_instance as int
            }),
    {
        let n = self.instances.len();
        if self.active_instance + 1 < n {
            self.active_instance = self.active_instance + 1;
        }
    }

    /// Moves to the previous session, without wrapping around.
    pub fn prev_instance(&mut self)
        ensures
            final(self).instances == old(self).instances,
            final(self).active_instance == (if old(self).active_instance > 0 {
                old(self).active_instance - 1
            } else {
                0int
            }),
    {
        if self.active_instance > 0 {
            self.active_instance = self.active_instance - 1;
        }
    }

    /// Duplicates the active session: a deep, independent copy is
    /// inserted right after it and becomes the active one.
    pub fn duplicate_active(&mut self)
        requires
            old(self).active_instance < old(self).instances@.len(),
            old(self).instances@[old(self).active_instance as int].wf(),
        ensures
            final(self).active_instance == old(self).active_instance + 1,
            final(self).instances@.len() == old(self).instances@.len() + 1,
            forall|k: int|
                0 <= k <= old(self).active_instance ==> final(self).instances@[k] == old(self).instances@[k],
            forall|k: int|
                old(self).active_instance + 1 < k < final(self).instances@.len() ==> final(self).instances@[k] == old(self).instances@[k - 1],
            ({
                let src = old(self).instances@[old(self).active_instance as int];
                let dup = final(self).instances@[old(self).active_instance as int + 1];
                &&& dup.wf()
                &&& dup.active == src.active
                &&& dup.updates == 0
                &&& dup.current_dir@ == src.current_dir@
                &&& dup.dir_content@.len() == src.dir_content@.len()
                &&& dup.search_text@ == src.search_text@
                &&& dup.current_index == src.current_index
                &&& dup.scroll == src.scroll
                &&& dup.scan_files_max_depth == src.scan_files_max_depth
                &&& dup.after_rescanning_files@.len() == 0
                &&& dup.scan_files_mode == src.scan_files_mode
            }),
    {
        let n = self.instances.len();
        assert(self.active_instance < n);
        let c = self.instances[self.active_instance].clone();
        self.active_instance = self.active_instance + 1;
        self.instances.insert(self.active_instance, c);
    }

    /// Fans a finished mutation task out: every session, not just the
    /// originating one, is flagged to rescan, since the task's target
    /// may be any open session's directory.
    pub fn broadcast_task_finished(&mut self)
        ensures
            final(self).active_instance == old(self).active_instance,
            final(self).instances@.len() == old(self).instances@.len(),
            forall|i: int|
                0 <= i < old(self).instances@.len() ==> final(self).instances@[i] == (TuiFile {
                    updates: (#[trigger] old(self).instances@[i]).updates | UPDATE_RESCAN_FILES,
                    ..old(self).instances@[i]
                }),
    {
        let ghost n = self.instances@.len();
        let mut rest = self.instances.split_off(0);
        let mut done: Vec<TuiFile> = Vec::new();
        while rest.len() > 0
            invariant
                done@.len() + rest@.len() == n,
                forall|j: int|
                    0 <= j < rest@.len() ==> rest@[j] == old(self).instances@[done@.len() + j],
                forall|i: int|
                    0 <= i < done@.len() ==> done@[i] == (TuiFile {
                        updates: (#[trigger] old(self).instances@[i]).updates
                            | UPDATE_RESCAN_FILES,
                        ..old(self).instances@[i]
                    }),
            decreases rest@.len(),
        {
            let mut s = rest.remove(0);
            s.updates.request_rescan_files();
            done.push(s);
        }
        self.instances = done;
    }

    /// Gathers the copy sources for a copy dispatch: every active
    /// session's directory with its selected items.
    pub fn gather_copy_sources(&self) -> (r: Vec<CopySource>)
        ensures
            sources_view(r) == spec_gather(self.instances@),
            forall|s: int, k: int|
                0 <= s < r@.len() && 0 <= k < r@[s].items@.len() ==> spec_file_name(
                    (#[trigger] r@[s].items@[k]).rel_path@,
                ) is Some,
    {
        let mut r: Vec<CopySource> = Vec::new();
        let mut i: usize = 0;
        while i < self.instances.len()
            invariant
                i <= self.instances@.len(),
                sources_view(r) == spec_gather(self.instances@.take(i as int)),
                forall|s: int, k: int|
                    0 <= s < r@.len() && 0 <= k < r@[s].items@.len() ==> spec_file_name(
                        (#[trigger] r@[s].items@[k]).rel_path@,
                    ) is Some,
            decreases self.instances@.len() - i,
        {
            let ghost pre = sources_view(r);
            if self.instances[i].active {
                let items = session_items(&self.instances[i]);
                let parent = chars_clone(&self.instances[i].current_dir);
                r.push(CopySource { parent, items });
            }
            proof {
                let sessions = self.instances@;
                assert(sessions.take(i + 1).drop_last() =~= sessions.take(i as int));
                assert(sessions.take(i + 1).last() == sessions[i as int]);
                assert(sources_view(r) =~= spec_gather(sessions.take(i + 1)));
            }
            i += 1;
        }
        proof {
            assert(self.instances@.take(self.instances@.len() as int) =~= self.instances@);
        }
        r
    }
}

} // verus!
