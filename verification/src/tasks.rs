//! Planners for the filesystem mutation tasks, and the background-task
//! reap decision.
//!
//! Each planner is the decision half of one background task: the caller
//! (a worker thread) asks it step by step what to do next, performs the
//! filesystem action, and reports what only the filesystem knows (for
//! copy: whether the source is a directory). The planner computes every
//! destination, keeps the remaining-item count, and rewrites the live
//! status text after each item. Per-item failures are the caller's to
//! swallow: the plan continues regardless, as the operations are
//! best-effort.

use vstd::prelude::*;

use crate::paths::{chars_clone, spec_join, spec_pop, path_join, path_pop, spec_file_name,
    path_file_name};
use crate::text::{spec_dec, dec_of_usize, push_str_chars, push_chars, chars_list_contains};

verus! {

/// One selected node to copy: its path relative to its session's scan
/// root, and whether a directory's whole subtree must be copied because
/// it sat exactly at the scan's depth limit, so its contents were never
/// enumerated as entries of their own.
pub struct CopyItem {
    pub rel_path: Vec<char>,
    pub copy_recursive: bool,
}

/// One session's contribution to a copy: its scan root and its selected
/// items.
pub struct CopySource {
    pub parent: Vec<char>,
    pub items: Vec<CopyItem>,
}

/// What the worker must do for one copy item.
pub enum CopyCmd {
    /// Copy one file.
    CopyFile { from: Vec<char>, to: Vec<char> },
    /// Create the directory; when `recursive`, copy its whole subtree.
    CopyDir { from: Vec<char>, to: Vec<char>, recursive: bool },
}

/// The status text of a task: its verb and the remaining-item count.
pub open spec fn spec_task_status(verb: Seq<char>, remaining: nat) -> Seq<char> {
    verb + spec_dec(remaining)
}

/// The index right after the component ending at or after `i`: the next
/// separator, or the end.
pub open spec fn next_boundary(par: Seq<char>, i: int) -> int
    decreases par.len() - i,
{
    if i < 0 {
        0
    } else if i >= par.len() {
        par.len() as int
    } else if par[i] == '/' {
        i
    } else {
        next_boundary(par, i + 1)
    }
}

/// A boundary search never moves backwards, and stays inside the path.
pub proof fn lemma_next_boundary_bounds(par: Seq<char>, i: int)
    ensures
        i < 0 ==> next_boundary(par, i) == 0,
        0 <= i <= par.len() ==> i <= next_boundary(par, i) <= par.len(),
    decreases par.len() - i,
{
    if 0 <= i < par.len() && par[i] != '/' {
        lemma_next_boundary_bounds(par, i + 1);
    }
}

/// The longest chain of leading components of `par` all of whose
/// accumulated prefixes were already created, walked left to right and
/// stopped at the first missing one.
pub open spec fn spec_created_prefix(
    created: Seq<Seq<char>>,
    par: Seq<char>,
    i: int,
    acc: Seq<char>,
) -> Seq<char>
    decreases par.len() - i + 1,
    via spec_created_prefix_decreases
{
    if i > par.len() {
        acc
    } else {
        let j = next_boundary(par, i);
        let cand = par.take(j);
        if created.contains(cand) {
            if j >= par.len() {
                cand
            } else {
                spec_created_prefix(created, par, j + 1, cand)
            }
        } else {
            acc
        }
    }
}

#[via_fn]
proof fn spec_created_prefix_decreases(
    created: Seq<Seq<char>>,
    par: Seq<char>,
    i: int,
    acc: Seq<char>,
) {
    lemma_next_boundary_bounds(par, i);
}

/// Where one item lands: under the already-created part of its parent
/// chain when there is one, else flattened to its bare file name
/// directly under the target.
pub open spec fn spec_copy_dest(created: Seq<Seq<char>>, target: Seq<char>, rel: Seq<char>) -> Seq<
    char,
>
    recommends
        spec_file_name(rel) is Some,
{
    let p = spec_created_prefix(created, spec_pop(rel), 0, Seq::empty());
    spec_join(spec_join(target, p), spec_file_name(rel)->0)
}

/// The copy planner: walks the sources item by item, computing each
/// item's destination and tracking which relative directories this
/// operation has already created (reset for each source session).
pub struct CopyPlanner {
    pub sources: Vec<CopySource>,
    pub target: Vec<char>,
    /// Current source.
    pub si: usize,
    /// Next item within the current source.
    pub ii: usize,
    /// Relative paths of directories created for the current source.
    pub created: Vec<Vec<char>>,
    /// Items not yet begun, over all sources.
    pub remaining: usize,
    /// The live status text.
    pub status: Vec<char>,
    /// Whether an item was begun and awaits `place`.
    pub in_item: bool,
}

impl CopyPlanner {
    /// Every item can be placed: its relative path has a final
    /// component; and the walk position is sound.
    pub open spec fn wf(&self) -> bool {
        &&& forall|s: int, k: int|
            0 <= s < self.sources@.len() && 0 <= k < self.sources@[s].items@.len()
                ==> spec_file_name((#[trigger] self.sources@[s].items@[k]).rel_path@) is Some
        &&& self.si <= self.sources@.len()
        &&& (self.si < self.sources@.len() ==> self.ii <= self.sources@[self.si as int].items@.len())
        &&& (self.in_item ==> self.si < self.sources@.len() && self.ii < self.sources@[self.si as int].items@.len())
    }

    /// Sets a copy up. The remaining count is the total item count,
    /// saturated at the machine limit.
    pub fn new(sources: Vec<CopySource>, target: Vec<char>) -> (r: CopyPlanner)
        requires
            forall|s: int, k: int|
                0 <= s < sources@.len() && 0 <= k < sources@[s].items@.len() ==> spec_file_name(
                    (#[trigger] sources@[s].items@[k]).rel_path@,
                ) is Some,
        ensures
            r.wf(),
            !r.in_item,
            r.si == 0 && r.ii == 0,
            r.sources == sources,
            r.target == target,
            r.created@.len() == 0,
            r.status@ == spec_task_status("cp "@, r.remaining as nat),
    {
        let mut remaining: usize = 0;
        let mut s: usize = 0;
        while s < sources.len()
            invariant
                s <= sources@.len(),
            decreases sources@.len() - s,
        {
            let n = sources[s].items.len();
            if remaining <= usize::MAX - n {
                remaining = remaining + n;
            } else {
                remaining = usize::MAX;
            }
            s += 1;
        }
        let mut status: Vec<char> = Vec::new();
        push_str_chars(&mut status, "cp ");
        let d = dec_of_usize(remaining);
        push_chars(&mut status, &d);
        CopyPlanner {
            sources,
            target,
            si: 0,
            ii: 0,
            created: Vec::new(),
            remaining,
            status,
            in_item: false,
        }
    }

    /// Begins the next item: counts it off the status text and hands
    /// out its source path, or reports the plan done.
    pub fn begin_item(&mut self) -> (r: Option<Vec<char>>)
        requires
            old(self).wf(),
            !old(self).in_item,
        ensures
            final(self).wf(),
            final(self).sources == old(self).sources,
            final(self).target == old(self).target,
            match r {
                Some(from) => {
                    &&& final(self).in_item
                    &&& final(self).si < final(self).sources@.len()
                    &&& final(self).ii < final(self).sources@[final(self).si as int].items@.len()
                    &&& from@ == spec_join(
                        final(self).sources@[final(self).si as int].parent@,
                        final(self).sources@[final(self).si as int].items@[final(self).ii as int].rel_path@,
                    )
                    &&& final(self).si >= old(self).si
                    &&& (final(self).si == old(self).si ==> final(self).ii == old(self).ii
                        && final(self).created == old(self).created)
                    &&& (final(self).si > old(self).si ==> final(self).ii == 0 && final(self).created@.len() == 0 && old(self).si < old(self).sources@.len() && old(self).ii >= old(self).sources@[old(self).si as int].items@.len())
                    &&& forall|s: int|
                        old(self).si < s < final(self).si ==> (#[trigger] old(self).sources@[s]).items@.len() == 0
                    &&& final(self).remaining == (if old(self).remaining > 0 {
                        (old(self).remaining - 1) as usize
                    } else {
                        0
                    })
                    &&& final(self).status@ == spec_task_status(
                        "cp "@,
                        final(self).remaining as nat,
                    )
                },
                None => {
                    &&& !final(self).in_item
                    &&& final(self).si == final(self).sources@.len()
                    &&& (old(self).si < old(self).sources@.len() ==> old(self).ii >= old(self).sources@[old(self).si as int].items@.len())
                    &&& forall|s: int|
                        old(self).si < s < old(self).sources@.len() ==> (#[trigger] old(self).sources@[s]).items@.len() == 0
                },
            },
    {
        loop
            invariant
                self.wf(),
                !self.in_item,
                self.sources == old(self).sources,
                self.target == old(self).target,
                self.remaining == old(self).remaining,
                self.status == old(self).status,
                self.si >= old(self).si,
                self.si == old(self).si ==> self.ii == old(self).ii && self.created == old(self).created,
                self.si > old(self).si ==> self.ii == 0 && self.created@.len() == 0 && old(self).si < old(self).sources@.len() && old(self).ii >= old(self).sources@[old(self).si as int].items@.len(),
                forall|s: int|
                    old(self).si < s < self.si ==> (#[trigger] old(self).sources@[s]).items@.len() == 0,
            decreases self.sources@.len() - self.si,
        {
            if self.si >= self.sources.len() {
                return None;
            }
            if self.ii < self.sources[self.si].items.len() {
                if self.remaining > 0 {
                    self.remaining = self.remaining - 1;
                }
                let mut status: Vec<char> = Vec::new();
                push_str_chars(&mut status, "cp ");
                let d = dec_of_usize(self.remaining);
                push_chars(&mut status, &d);
                self.status = status;
                self.in_item = true;
                let from = path_join(
                    &self.sources[self.si].parent,
                    &self.sources[self.si].items[self.ii].rel_path,
                );
                return Some(from);
            }
            self.si += 1;
            self.ii = 0;
            self.created = Vec::new();
        }
    }

    /// Places the begun item, knowing from the caller whether the
    /// source is a directory: its destination follows the created-chain
    /// rule, a directory is remembered as created, and the command says
    /// whether the worker must copy a subtree.
    pub fn place(&mut self, is_dir: bool) -> (r: CopyCmd)
        requires
            old(self).wf(),
            old(self).in_item,
        ensures
            final(self).wf(),
            !final(self).in_item,
            final(self).sources == old(self).sources,
            final(self).target == old(self).target,
            final(self).si == old(self).si,
            final(self).ii == old(self).ii + 1,
            final(self).remaining == old(self).remaining,
            final(self).status == old(self).status,
            ({
                let item = old(self).sources@[old(self).si as int].items@[old(self).ii as int];
                let from = spec_join(
                    old(self).sources@[old(self).si as int].parent@,
                    item.rel_path@,
                );
                let to = spec_copy_dest(
                    old(self).created.deep_view(),
                    old(self).target@,
                    item.rel_path@,
                );
                if is_dir {
                    &&& (r matches CopyCmd::CopyDir { from: f, to: t, recursive: rec } && f@
                        == from && t@ == to && rec == item.copy_recursive)
                    &&& final(self).created.deep_view() == old(self).created.deep_view().push(
                        item.rel_path@,
                    )
                } else {
                    &&& (r matches CopyCmd::CopyFile { from: f, to: t } && f@ == from && t@ == to)
                    &&& final(self).created == old(self).created
                }
            }),
    {
        let from = path_join(
            &self.sources[self.si].parent,
            &self.sources[self.si].items[self.ii].rel_path,
        );
        let rel = chars_clone(&self.sources[self.si].items[self.ii].rel_path);
        let mut par = chars_clone(&rel);
        path_pop(&mut par);
        let p = self.created_prefix(&par);
        let name = match path_file_name(&rel) {
            Some(n) => n,
            None => {
                proof {
                    assert(false);
                }
                Vec::new()
            },
        };
        let to = path_join(&path_join(&self.target, &p), &name);
        let recursive = self.sources[self.si].items[self.ii].copy_recursive;
        let nlen = self.sources[self.si].items.len();
        assert(self.ii < nlen);
        self.in_item = false;
        self.ii = self.ii + 1;
        if is_dir {
            proof {
                crate::text::lemma_deep_view_chars(rel);
            }
            let ghost relv = rel@;
            self.created.push(rel);
            assert(self.created.deep_view() =~~= old(self).created.deep_view().push(relv));
            CopyCmd::CopyDir { from, to, recursive }
        } else {
            CopyCmd::CopyFile { from, to }
        }
    }

    /// Walks the components of `par`, keeping the longest chain of
    /// prefixes already created.
    fn created_prefix(&self, par: &Vec<char>) -> (r: Vec<char>)
        ensures
            r@ == spec_created_prefix(self.created.deep_view(), par@, 0, Seq::empty()),
    {
        let mut acc: Vec<char> = Vec::new();
        let ghost mut acc0 = Seq::<char>::empty();
        assert(acc@ =~= acc0);
        let mut i: usize = 0;
        loop
            invariant
                0 <= i <= par@.len() + 1,
                acc@ == acc0,
                spec_created_prefix(self.created.deep_view(), par@, 0, Seq::empty())
                    == spec_created_prefix(self.created.deep_view(), par@, i as int, acc@),
            decreases par@.len() + 1 - i,
        {
            if i > par.len() {
                return acc;
            }
            // find the next component boundary
            let mut j = i;
            while j < par.len() && par[j] != '/'
                invariant
                    i <= j <= par@.len(),
                    next_boundary(par@, i as int) == next_boundary(par@, j as int),
                decreases par@.len() - j,
            {
                j += 1;
            }
            assert(next_boundary(par@, i as int) == j);
            let mut cand: Vec<char> = Vec::new();
            let mut k: usize = 0;
            while k < j
                invariant
                    k <= j <= par@.len(),
                    cand@ =~= par@.subrange(0, k as int),
                decreases j - k,
            {
                cand.push(par[k]);
                k += 1;
            }
            assert(cand@ =~= par@.take(j as int));
            if chars_list_contains(&self.created, &cand) {
                if j >= par.len() {
                    return cand;
                }
                let ghost prev = acc@;
                acc = cand;
                proof {
                    acc0 = acc@;
                }
                i = j + 1;
            } else {
                return acc;
            }
        }
    }
}

/// A boundary search over a separator-free stretch runs to the end.
proof fn lemma_next_boundary_clean(par: Seq<char>, i: int)
    requires
        0 <= i <= par.len(),
        forall|k: int| i <= k < par.len() ==> par[k] != '/',
    ensures
        next_boundary(par, i) == par.len(),
    decreases par.len() - i,
{
    if i < par.len() {
        lemma_next_boundary_clean(par, i + 1);
    }
}

/// Copying flattens an item whose parent directory this operation has
/// not created: a separator-free relative path (a selected file whose
/// unselected parent was never itself copied is the one-component
/// case) lands directly under the target, as its bare name.
pub proof fn lemma_copy_flatten(created: Seq<Seq<char>>, target: Seq<char>, rel: Seq<char>)
    requires
        rel.len() > 0,
        forall|k: int| 0 <= k < rel.len() ==> rel[k] != '/',
        !created.contains(Seq::<char>::empty()),
        target.len() > 0,
        target.last() != '/',
    ensures
        spec_copy_dest(created, target, rel) == target + seq!['/'] + rel,
{
    crate::paths::lemma_after_last_slash_at(rel, 0);
    assert(rel.skip(0) =~= rel);
    assert(spec_file_name(rel) == Some(rel));
    assert(spec_pop(rel) =~= Seq::<char>::empty());
    let par = spec_pop(rel);
    assert(next_boundary(par, 0) == 0);
    assert(par.take(0) =~= Seq::<char>::empty());
    assert(spec_created_prefix(created, par, 0, Seq::empty()) =~= Seq::<char>::empty());
    let t1 = spec_join(target, Seq::<char>::empty());
    assert(t1 == target + seq!['/']);
    assert(t1.last() == '/');
    assert(spec_join(t1, rel) == t1 + rel);
    assert((target + seq!['/']) + rel =~= target + seq!['/'] + rel);
}

/// Copying nests an item under a directory this operation has already
/// created: a selected directory copied earlier in the same operation
/// receives its selected children at their relative places, recreating
/// the structure under the target.
pub proof fn lemma_copy_nests(
    created: Seq<Seq<char>>,
    target: Seq<char>,
    dir: Seq<char>,
    name: Seq<char>,
)
    requires
        dir.len() > 0,
        forall|k: int| 0 <= k < dir.len() ==> dir[k] != '/',
        name.len() > 0,
        forall|k: int| 0 <= k < name.len() ==> name[k] != '/',
        created.contains(dir),
        target.len() > 0,
        target.last() != '/',
    ensures
        spec_copy_dest(created, target, dir + seq!['/'] + name) == target + seq!['/'] + dir
            + seq!['/'] + name,
{
    let rel = dir + seq!['/'] + name;
    let k = dir.len() + 1;
    assert(rel[k - 1] == '/');
    assert forall|j: int| k <= j < rel.len() implies rel[j] != '/' by {
        assert(rel[j] == name[j - k]);
    }
    crate::paths::lemma_after_last_slash_at(rel, k as int);
    assert(rel.skip(k as int) =~= name);
    assert(spec_file_name(rel) == Some(name));
    assert(spec_pop(rel) =~= dir);
    let par = spec_pop(rel);
    assert forall|j: int| 0 <= j < par.len() implies par[j] != '/' by {
        assert(par[j] == dir[j]);
    }
    lemma_next_boundary_clean(par, 0);
    assert(par.take(par.len() as int) =~= dir);
    assert(spec_created_prefix(created, par, 0, Seq::empty()) == dir);
    let t1 = spec_join(target, dir);
    assert(dir[0] != '/');
    assert(t1 == target + seq!['/'] + dir);
    assert(t1.len() > 0);
    assert(t1.last() == dir.last());
    assert(t1.last() != '/');
    assert(name[0] != '/');
    assert(spec_join(t1, name) == t1 + seq!['/'] + name);
    assert(t1 + seq!['/'] + name =~= target + seq!['/'] + dir + seq!['/'] + name);
    assert(spec_copy_dest(created, target, rel) == spec_join(t1, name));
}

/// What the worker must do to remove one path; directories go
/// non-recursively, so a non-empty directory is left in place.
pub enum DeleteKind {
    DirNonRecursive,
    File,
}

/// The removal decision for one path: a directory is removed
/// non-recursively, anything else directly.
pub fn delete_kind(is_dir: bool) -> (r: DeleteKind)
    ensures
        is_dir ==> r is DirNonRecursive,
        !is_dir ==> r is File,
{
    if is_dir {
        DeleteKind::DirNonRecursive
    } else {
        DeleteKind::File
    }
}

/// The delete planner: hands the gathered paths out in order, counting
/// each off the status text.
pub struct DeletePlanner {
    pub paths: Vec<Vec<char>>,
    pub idx: usize,
    pub remaining: usize,
    pub status: Vec<char>,
}

impl DeletePlanner {
    pub open spec fn wf(&self) -> bool {
        &&& self.idx <= self.paths@.len()
        &&& self.remaining == self.paths@.len() - self.idx
    }

    /// Sets a removal up over these paths.
    pub fn new(paths: Vec<Vec<char>>) -> (r: DeletePlanner)
        ensures
            r.wf(),
            r.idx == 0,
            r.paths == paths,
            r.status@ == spec_task_status("rm "@, paths@.len()),
    {
        let remaining = paths.len();
        let mut status: Vec<char> = Vec::new();
        push_str_chars(&mut status, "rm ");
        let d = dec_of_usize(remaining);
        push_chars(&mut status, &d);
        DeletePlanner { paths, idx: 0, remaining, status }
    }

    /// The next path to remove, counted off the status text; nothing
    /// once every path was handed out.
    pub fn step(&mut self) -> (r: Option<Vec<char>>)
        requires
            old(self).wf(),
        ensures
            final(self).wf(),
            final(self).paths == old(self).paths,
            old(self).idx < old(self).paths@.len() ==> ({
                &&& (r matches Some(p) && p@ == old(self).paths.deep_view()[old(self).idx as int])
                &&& final(self).idx == old(self).idx + 1
                &&& final(self).status@ == spec_task_status(
                    "rm "@,
                    final(self).remaining as nat,
                )
            }),
            old(self).idx >= old(self).paths@.len() ==> r is None && *final(self) == *old(self),
    {
        if self.idx >= self.paths.len() {
            return None;
        }
        self.remaining = self.remaining - 1;
        let mut status: Vec<char> = Vec::new();
        push_str_chars(&mut status, "rm ");
        let d = dec_of_usize(self.remaining);
        push_chars(&mut status, &d);
        self.status = status;
        let p = chars_clone(&self.paths[self.idx]);
        self.idx = self.idx + 1;
        proof {
            crate::text::lemma_deep_view_chars(old(self).paths@[old(self).idx as int]);
        }
        Some(p)
    }
}

/// The permission-change planner: hands each path out with the parsed
/// mode word, counting items off the status text.
pub struct ChmodPlanner {
    pub paths: Vec<Vec<char>>,
    pub mode: u32,
    pub idx: usize,
    pub remaining: usize,
    pub status: Vec<char>,
}

impl ChmodPlanner {
    pub open spec fn wf(&self) -> bool {
        &&& self.idx <= self.paths@.len()
        &&& self.remaining == self.paths@.len() - self.idx
    }

    /// Sets a permission change up over these paths.
    pub fn new(paths: Vec<Vec<char>>, mode: u32) -> (r: ChmodPlanner)
        ensures
            r.wf(),
            r.idx == 0,
            r.paths == paths,
            r.mode == mode,
            r.status@ == spec_task_status("chmod "@, paths@.len()),
    {
        let remaining = paths.len();
        let mut status: Vec<char> = Vec::new();
        push_str_chars(&mut status, "chmod ");
        let d = dec_of_usize(remaining);
        push_chars(&mut status, &d);
        ChmodPlanner { paths, mode, idx: 0, remaining, status }
    }

    /// The next path to change, with the mode to apply.
    pub fn step(&mut self) -> (r: Option<(Vec<char>, u32)>)
        requires
            old(self).wf(),
        ensures
            final(self).wf(),
            final(self).paths == old(self).paths,
            final(self).mode == old(self).mode,
            old(self).idx < old(self).paths@.len() ==> ({
                &&& (r matches Some(p) && p.0@ == old(self).paths.deep_view()[old(self).idx as int] && p.1 == old(self).mode)
                &&& final(self).idx == old(self).idx + 1
                &&& final(self).status@ == spec_task_status(
                    "chmod "@,
                    final(self).remaining as nat,
                )
            }),
            old(self).idx >= old(self).paths@.len() ==> r is None && *final(self) == *old(self),
    {
        if self.idx >= self.paths.len() {
            return None;
        }
        self.remaining = self.remaining - 1;
        let mut status: Vec<char> = Vec::new();
        push_str_chars(&mut status, "chmod ");
        let d = dec_of_usize(self.remaining);
        push_chars(&mut status, &d);
        self.status = status;
        let p = chars_clone(&self.paths[self.idx]);
        self.idx = self.idx + 1;
        proof {
            crate::text::lemma_deep_view_chars(old(self).paths@[old(self).idx as int]);
        }
        Some((p, self.mode))
    }
}

/// Which background task to reap this pass: the first finished one, so
/// at most one task is reaped per main-loop iteration.
pub fn first_finished(finished: &Vec<bool>) -> (r: Option<usize>)
    ensures
        match r {
            Some(i) => i < finished@.len() && finished@[i as int] && (forall|j: int|
                0 <= j < i ==> !finished@[j]),
            None => forall|j: int| 0 <= j < finished@.len() ==> !finished@[j],
        },
{
    let mut i: usize = 0;
    while i < finished.len()
        invariant
            i <= finished@.len(),
            forall|j: int| 0 <= j < i ==> !finished@[j],
        decreases finished@.len() - i,
    {
        if finished[i] {
            return Some(i);
        }
        i += 1;
    }
    None
}

} // verus!
