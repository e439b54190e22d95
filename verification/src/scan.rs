//! Directory scan engine: depth-limited, abortable traversal.
//!
//! The engine never touches the filesystem. It issues one listing
//! request at a time (`pending`); the caller reads that directory and
//! hands the children back through [`ScanEngine::deliver`], then calls
//! [`ScanEngine::step`] until the next request appears or the scan is
//! done. Between any two calls the caller may stop the traversal with
//! [`ScanEngine::abort`], keeping every entry gathered so far — that is
//! how a deadline bounds a scan. Entries appear in depth-first order:
//! each directory's entry first, then, while its depth lies below the
//! limit, its children.
//!
//! [`align_info`] is the post-pass: it measures every raw info cell,
//! records one width per column, and pads each entry's cells into the
//! final aligned line.

use vstd::prelude::*;

use crate::entry::{
    DirContent, DirContentType, EntryKind, RawChild, build_entry, clone_entry, raw_is_dir,
    spec_entry_name, spec_entry_kind, spec_info_cells, spec_is_dir,
};
use crate::paths::{chars_clone, spec_join};

verus! {

/// One directory the engine wants listed: its path, the depth its
/// children will get, and the name it is known by in its parent.
pub struct PendingReq {
    pub dir: Vec<char>,
    pub depth: usize,
    pub name: Vec<char>,
}

/// One partially consumed directory listing on the traversal stack.
pub struct ScanFrame {
    pub dir: Vec<char>,
    pub depth: usize,
    pub children: Vec<RawChild>,
    pub next: usize,
}

/// The scan engine's whole state.
pub struct ScanEngine {
    /// Entries at depths beyond this limit are never gathered.
    pub max_depth: usize,
    /// The metadata columns each entry's info cells are built from.
    pub columns: Vec<u32>,
    /// Entries gathered so far, in depth-first order.
    pub entries: Vec<DirContent>,
    /// The stack of listings still being consumed, root lowest.
    pub frames: Vec<ScanFrame>,
    /// The listing request awaiting an answer, if any.
    pub pending: Option<PendingReq>,
    /// False once the traversal was aborted before its end.
    pub completed: bool,
    /// The error text when the root itself could not be listed.
    pub root_error: Option<Vec<char>>,
    /// True once no further request or step will change anything.
    pub done: bool,
    /// Every directory path whose listing was requested, in order.
    pub requested: Ghost<Seq<Seq<char>>>,
}

impl ScanEngine {
    /// Well-formedness: no gathered entry lies beyond the depth limit,
    /// stack frames are consistent, a failed root ends the scan with
    /// nothing gathered, and — as long as the traversal was not aborted
    /// — every gathered directory entry below the depth limit has had
    /// its listing requested, or is the request on the wire right now:
    /// no shallow directory is ever passed over.
    pub open spec fn wf(&self) -> bool {
        &&& forall|i: int|
            0 <= i < self.entries@.len() ==> (#[trigger] self.entries@[i]).rel_depth
                <= self.max_depth
        &&& forall|i: int|
            0 <= i < self.frames@.len() ==> (#[trigger] self.frames@[i]).depth <= self.max_depth
                && self.frames@[i].next <= self.frames@[i].children@.len()
        &&& (self.pending matches Some(r) ==> r.depth <= self.max_depth)
        &&& (self.pending matches Some(r) && r.depth == 0 ==> self.frames@.len() == 0
            && self.entries@.len() == 0)
        &&& (self.done ==> self.pending is None)
        &&& (self.root_error is Some ==> self.done && self.entries@.len() == 0)
        &&& (self.completed ==> forall|i: int|
            0 <= i < self.entries@.len() && (#[trigger] self.entries@[i]).more@ is Dir
                && self.entries@[i].rel_depth < self.max_depth ==> self.requested@.contains(
                self.entries@[i].path@,
            ) || (self.pending matches Some(q) && q.dir@ == self.entries@[i].path@))
    }

    /// Starts a scan of `root`. The first request asks for the root
    /// itself; its children will carry depth 0.
    pub fn new(root: Vec<char>, max_depth: usize, columns: Vec<u32>) -> (r: ScanEngine)
        ensures
            r.wf(),
            r.max_depth == max_depth,
            r.columns@ == columns@,
            r.entries@.len() == 0,
            r.frames@.len() == 0,
            r.pending matches Some(q) && q.dir@ == root@ && q.depth == 0,
            r.completed,
            r.root_error is None,
            !r.done,
    {
        ScanEngine {
            max_depth,
            columns,
            entries: Vec::new(),
            frames: Vec::new(),
            pending: Some(PendingReq { dir: root, depth: 0, name: Vec::new() }),
            completed: true,
            root_error: None,
            done: false,
            requested: Ghost(Seq::empty()),
        }
    }

    /// Answers the pending request. A successful listing becomes a new
    /// stack frame; a failed root listing is fatal to the scan, while a
    /// failed subdirectory listing is recorded as a single `Unreadable`
    /// entry and the traversal continues with the siblings.
    pub fn deliver(&mut self, listing: Result<Vec<RawChild>, Vec<char>>)
        requires
            old(self).wf(),
            !old(self).done,
            old(self).pending is Some,
        ensures
            final(self).wf(),
            final(self).max_depth == old(self).max_depth,
            final(self).columns@ == old(self).columns@,
            final(self).completed == old(self).completed,
            final(self).pending is None,
            final(self).requested@ == old(self).requested@.push((old(self).pending->0).dir@),
            ({
                let req = old(self).pending->0;
                match listing {
                    Result::Ok(children) => {
                        &&& final(self).entries@ == old(self).entries@
                        &&& final(self).frames@ =~= old(self).frames@.push(
                            ScanFrame {
                                dir: req.dir,
                                depth: req.depth,
                                children,
                                next: 0,
                            },
                        )
                        &&& final(self).root_error == old(self).root_error
                        &&& !final(self).done
                    },
                    Result::Err(msg) => {
                        if req.depth == 0 {
                            &&& final(self).root_error matches Some(e) && e@ == msg@
                            &&& final(self).entries@.len() == 0
                            &&& final(self).done
                        } else {
                            &&& final(self).entries@.len() == old(self).entries@.len() + 1
                            &&& final(self).entries@.drop_last() == old(self).entries@
                            &&& ({
                                let e = final(self).entries@.last();
                                &&& e.path@ == req.dir@
                                &&& e.name@ == req.name@
                                &&& e.rel_depth == req.depth
                                &&& e.passes_filter
                                &&& !e.selected
                                &&& e.more@ == EntryKind::Unreadable(msg@)
                            })
                            &&& final(self).frames@ == old(self).frames@
                            &&& final(self).root_error == old(self).root_error
                            &&& !final(self).done
                        }
                    },
                }
            }),
    {
        let req = match self.pending.take() {
            Some(r) => r,
            None => {
                proof {
                    assert(false);
                }
                PendingReq { dir: Vec::new(), depth: 0, name: Vec::new() }
            },
        };
        proof {
            let oldreq = self.requested@;
            self.requested@ = oldreq.push(req.dir@);
            assert forall|y: Seq<char>| oldreq.contains(y) implies self.requested@.contains(
                y,
            ) by {
                let i = choose|i: int| 0 <= i < oldreq.len() && oldreq[i] == y;
                assert(self.requested@[i] == y);
            }
            assert(self.requested@[self.requested@.len() - 1] == req.dir@);
            assert(self.requested@.contains(req.dir@));
        }
        match listing {
            Result::Ok(children) => {
                self.frames.push(ScanFrame { dir: req.dir, depth: req.depth, children, next: 0 });
            },
            Result::Err(msg) => {
                if req.depth == 0 {
                    self.root_error = Some(msg);
                    self.done = true;
                } else {
                    let name_charlen = req.name.len();
                    self.entries.push(
                        DirContent {
                            path: req.dir,
                            name: req.name,
                            name_charlen,
                            rel_depth: req.depth,
                            passes_filter: true,
                            selected: false,
                            info: Vec::new(),
                            cells: Vec::new(),
                            more: DirContentType::Unreadable(msg),
                        },
                    );
                    assert(final(self).entries@.drop_last() =~= old(self).entries@);
                }
            },
        }
    }

    /// Takes one traversal step: appends the next child of the top
    /// frame as an entry and, when that child is a directory lying
    /// below the depth limit, issues the request for its listing;
    /// an exhausted frame is popped, and with no frame left the scan
    /// is done. With a depth limit of zero no step ever issues a
    /// request, so such a scan gathers exactly the root's immediate
    /// children, each at relative depth zero.
    pub fn step(&mut self)
        requires
            old(self).wf(),
            !old(self).done,
            old(self).pending is None,
        ensures
            final(self).wf(),
            old(self).max_depth == 0 ==> final(self).pending is None,
            final(self).max_depth == old(self).max_depth,
            final(self).columns@ == old(self).columns@,
            final(self).completed == old(self).completed,
            final(self).root_error == old(self).root_error,
            final(self).requested == old(self).requested,
            old(self).frames@.len() == 0 ==> final(self).done && final(self).entries@ == old(self).entries@
                && final(self).pending is None,
            old(self).frames@.len() > 0 ==> ({
                let fl = old(self).frames@.len() - 1;
                let fr = old(self).frames@[fl];
                if fr.next < fr.children@.len() {
                    let c = fr.children@[fr.next as int];
                    &&& final(self).entries@.len() == old(self).entries@.len() + 1
                    &&& final(self).entries@.drop_last() == old(self).entries@
                    &&& ({
                        let e = final(self).entries@.last();
                        &&& e.path@ == spec_join(fr.dir@, c.name@)
                        &&& e.name@ == spec_entry_name(c.name@, spec_is_dir(c.meta))
                        &&& e.name_charlen == e.name@.len()
                        &&& e.rel_depth == fr.depth
                        &&& e.passes_filter
                        &&& !e.selected
                        &&& e.cells.deep_view() == (match c.meta {
                            Result::Ok(m) => spec_info_cells(
                                old(self).columns@,
                                m.size as nat,
                                m.mode as nat,
                            ),
                            Result::Err(_) => Seq::<Seq<char>>::empty(),
                        })
                        &&& e.more@ == spec_entry_kind(c.meta)
                    })
                    &&& final(self).frames@ =~= old(self).frames@.update(
                        fl,
                        ScanFrame {
                            dir: fr.dir,
                            depth: fr.depth,
                            children: fr.children,
                            next: (fr.next + 1) as usize,
                        },
                    )
                    &&& (spec_is_dir(c.meta) && fr.depth < old(self).max_depth
                        ==> (final(self).pending matches Some(q) && q.dir@ == spec_join(fr.dir@, c.name@)
                            && q.depth == fr.depth + 1 && q.name@ == c.name@))
                    &&& (!(spec_is_dir(c.meta) && fr.depth < old(self).max_depth)
                        ==> final(self).pending is None)
                    &&& !final(self).done
                } else {
                    &&& final(self).entries@ == old(self).entries@
                    &&& final(self).frames@ == old(self).frames@.drop_last()
                    &&& final(self).pending is None
                    &&& final(self).done == (old(self).frames@.len() == 1)
                }
            }),
    {
        let opt = self.frames.pop();
        match opt {
            None => {
                self.done = true;
            },
            Some(mut fr) => {
                if fr.next < fr.children.len() {
                    let k = fr.next;
                    let e = build_entry(&fr.dir, &fr.children[k], fr.depth, &self.columns);
                    let descend = raw_is_dir(&fr.children[k]) && fr.depth < self.max_depth;
                    if descend {
                        let dir = chars_clone(&e.path);
                        let name = chars_clone(&fr.children[k].name);
                        self.pending = Some(PendingReq { dir, depth: fr.depth + 1, name });
                    }
                    self.entries.push(e);
                    fr.next = k + 1;
                    self.frames.push(fr);
                    assert(final(self).entries@.drop_last() =~= old(self).entries@);
                } else {
                    if self.frames.len() == 0 {
                        self.done = true;
                    }
                }
            },
        }
    }

    /// Stops the traversal early, keeping every entry gathered so far:
    /// the result is marked incomplete.
    pub fn abort(&mut self)
        requires
            old(self).wf(),
        ensures
            final(self).wf(),
            final(self).max_depth == old(self).max_depth,
            final(self).columns@ == old(self).columns@,
            final(self).entries@ == old(self).entries@,
            final(self).root_error == old(self).root_error,
            final(self).requested == old(self).requested,
            !final(self).completed,
            final(self).done,
            final(self).pending is None,
    {
        self.completed = false;
        self.done = true;
        self.pending = None;
        self.frames = Vec::new();
    }

    /// Hands the finished scan out: the gathered entries and whether
    /// the traversal ran to its end, or the root error.
    pub fn into_result(self) -> (r: Result<(Vec<DirContent>, bool), Vec<char>>)
        requires
            self.done,
        ensures
            match r {
                Result::Ok(p) => self.root_error is None && p.0@ == self.entries@ && p.1
                    == self.completed,
                Result::Err(msg) => self.root_error matches Some(e) && e@ == msg@,
            },
    {
        match self.root_error {
            Some(msg) => Result::Err(msg),
            None => Result::Ok((self.entries, self.completed)),
        }
    }
}

/// A whole scan with a depth limit of zero, in one statement: given
/// the root's listing, the result is exactly its immediate children —
/// one entry per child, in order, no extras — each at relative depth
/// zero, visible and unselected, built as [`build_entry`] builds them.
pub fn scan_shallow(root: Vec<char>, listing: Vec<RawChild>, columns: Vec<u32>) -> (r: Vec<
    DirContent,
>)
    ensures
        r@.len() == listing@.len(),
        forall|i: int|
            0 <= i < listing@.len() ==> {
                let c = #[trigger] listing@[i];
                let e = r@[i];
                &&& e.path@ == spec_join(root@, c.name@)
                &&& e.name@ == spec_entry_name(c.name@, spec_is_dir(c.meta))
                &&& e.name_charlen == e.name@.len()
                &&& e.rel_depth == 0
                &&& e.passes_filter
                &&& !e.selected
                &&& e.cells.deep_view() == (match c.meta {
                    Result::Ok(m) => spec_info_cells(columns@, m.size as nat, m.mode as nat),
                    Result::Err(_) => Seq::<Seq<char>>::empty(),
                })
                &&& e.more@ == spec_entry_kind(c.meta)
            },
{
    let ghost rootv = root@;
    let n = listing.len();
    let ghost l = listing@;
    let ghost cols = columns@;
    let mut engine = ScanEngine::new(root, 0, columns);
    engine.deliver(Ok(listing));
    while !engine.done
        invariant
            engine.wf(),
            engine.max_depth == 0,
            engine.columns@ == cols,
            engine.completed,
            engine.root_error is None,
            engine.pending is None,
            l.len() == n,
            !engine.done ==> engine.frames@.len() == 1,
            !engine.done ==> engine.frames@[0].depth == 0,
            !engine.done ==> engine.frames@[0].dir@ == rootv,
            !engine.done ==> engine.frames@[0].children@ == l,
            !engine.done ==> engine.frames@[0].next == engine.entries@.len(),
            engine.entries@.len() <= l.len(),
            engine.done ==> engine.entries@.len() == l.len(),
            forall|i: int|
                0 <= i < engine.entries@.len() ==> {
                    let c = #[trigger] l[i];
                    let e = engine.entries@[i];
                    &&& e.path@ == spec_join(rootv, c.name@)
                    &&& e.name@ == spec_entry_name(c.name@, spec_is_dir(c.meta))
                    &&& e.name_charlen == e.name@.len()
                    &&& e.rel_depth == 0
                    &&& e.passes_filter
                    &&& !e.selected
                    &&& e.cells.deep_view() == (match c.meta {
                        Result::Ok(m) => spec_info_cells(cols, m.size as nat, m.mode as nat),
                        Result::Err(_) => Seq::<Seq<char>>::empty(),
                    })
                    &&& e.more@ == spec_entry_kind(c.meta)
                },
        decreases l.len() - engine.entries@.len() + engine.frames@.len(),
    {
        let ghost pre = engine.entries@;
        let ghost fr = engine.frames@[0];
        engine.step();
        proof {
            if fr.next < fr.children@.len() {
                assert(fr.children@.len() == n);
                assert(fr.next + 1 <= n <= usize::MAX);
                assert(engine.entries@.drop_last() == pre);
                assert(engine.entries@.last() == engine.entries@[pre.len() as int]);
                assert(l[pre.len() as int] == fr.children@[fr.next as int]);
                assert(engine.frames@[0] == ScanFrame {
                    dir: fr.dir,
                    depth: fr.depth,
                    children: fr.children,
                    next: (fr.next + 1) as usize,
                });
                assert forall|i: int| 0 <= i < engine.entries@.len() implies engine.entries@[i]
                    == (if i < pre.len() {
                    pre[i]
                } else {
                    engine.entries@.last()
                }) by {}
            } else {
                assert(engine.frames@.len() == 0);
                assert(engine.done);
                assert(pre.len() == l.len());
            }
        }
    }
    match engine.into_result() {
        Result::Ok(p) => p.0,
        Result::Err(_) => {
            proof {
                assert(false);
            }
            Vec::new()
        },
    }
}

/// A run of spaces.
pub open spec fn spaces(n: nat) -> Seq<char> {
    Seq::new(n, |i: int| ' ')
}

/// One raw cell padded to the recorded column width: the first
/// character is the alignment directive and is dropped, and the
/// remainder is padded with spaces on the right (`<`), the left (`>`)
/// or both sides (anything else).
pub open spec fn pad_cell(cell: Seq<char>, w: nat) -> Seq<char> {
    if cell.len() == 0 {
        Seq::empty()
    } else {
        let body = cell.skip(1);
        let rem = if w >= cell.len() {
            (w - cell.len()) as nat
        } else {
            0
        };
        if cell[0] == '<' {
            body + spaces(rem)
        } else if cell[0] == '>' {
            spaces(rem) + body
        } else {
            spaces(rem / 2) + body + spaces((rem - rem / 2) as nat)
        }
    }
}

/// How many info columns a listing has: the largest cell count over
/// its entries.
pub open spec fn spec_num_cols(entries: Seq<DirContent>) -> nat
    decreases entries.len(),
{
    if entries.len() == 0 {
        0
    } else {
        let rest = spec_num_cols(entries.drop_last());
        if entries.last().cells@.len() > rest {
            entries.last().cells@.len()
        } else {
            rest
        }
    }
}

/// The recorded width of one column: the largest raw cell length in it.
pub open spec fn spec_max_width(entries: Seq<DirContent>, col: int) -> nat
    decreases entries.len(),
{
    if entries.len() == 0 {
        0
    } else {
        let rest = spec_max_width(entries.drop_last(), col);
        let cs = entries.last().cells@;
        if 0 <= col < cs.len() && cs[col]@.len() > rest {
            cs[col]@.len()
        } else {
            rest
        }
    }
}

/// The aligned info line: each raw cell padded to its column's
/// recorded width, concatenated in column order.
pub open spec fn spec_aligned_info(cells: Seq<Seq<char>>, widths: Seq<usize>) -> Seq<char>
    decreases cells.len(),
{
    if cells.len() == 0 {
        Seq::empty()
    } else {
        spec_aligned_info(cells.drop_last(), widths) + pad_cell(
            cells.last(),
            widths[cells.len() - 1] as nat,
        )
    }
}

proof fn lemma_max_width_covers(entries: Seq<DirContent>, i: int, col: int)
    requires
        0 <= i < entries.len(),
        0 <= col < entries[i].cells@.len(),
    ensures
        entries[i].cells@[col]@.len() <= spec_max_width(entries, col),
    decreases entries.len(),
{
    if i == entries.len() - 1 {
    } else {
        assert(entries.drop_last()[i] == entries[i]);
        lemma_max_width_covers(entries.drop_last(), i, col);
    }
}

proof fn lemma_num_cols_covers(entries: Seq<DirContent>, i: int)
    requires
        0 <= i < entries.len(),
    ensures
        entries[i].cells@.len() <= spec_num_cols(entries),
    decreases entries.len(),
{
    if i == entries.len() - 1 {
    } else {
        assert(entries.drop_last()[i] == entries[i]);
        lemma_num_cols_covers(entries.drop_last(), i);
    }
}

/// Counts the info columns of a listing.
fn count_cols(entries: &Vec<DirContent>) -> (n: usize)
    ensures
        n == spec_num_cols(entries@),
{
    let mut n: usize = 0;
    let mut i: usize = 0;
    while i < entries.len()
        invariant
            i <= entries@.len(),
            n == spec_num_cols(entries@.take(i as int)),
        decreases entries@.len() - i,
    {
        let c = entries[i].cells.len();
        if c > n {
            n = c;
        }
        proof {
            assert(entries@.take(i + 1).drop_last() =~= entries@.take(i as int));
            assert(entries@.take(i + 1).last() == entries@[i as int]);
        }
        i += 1;
    }
    assert(entries@.take(entries@.len() as int) =~= entries@);
    n
}

/// Measures every column of a listing: one recorded width per column,
/// the largest raw cell length found in it.
pub fn column_widths(entries: &Vec<DirContent>) -> (w: Vec<usize>)
    ensures
        w@.len() == spec_num_cols(entries@),
        forall|c: int| 0 <= c < w@.len() ==> w@[c] == spec_max_width(entries@, c),
{
    let ncols = count_cols(entries);
    let mut w: Vec<usize> = Vec::new();
    let mut c: usize = 0;
    while c < ncols
        invariant
            c <= ncols == spec_num_cols(entries@),
            w@.len() == c,
            forall|k: int| 0 <= k < c ==> w@[k] == spec_max_width(entries@, k),
        decreases ncols - c,
    {
        let mut m: usize = 0;
        let mut i: usize = 0;
        while i < entries.len()
            invariant
                i <= entries@.len(),
                m == spec_max_width(entries@.take(i as int), c as int),
            decreases entries@.len() - i,
        {
            if c < entries[i].cells.len() {
                let l = entries[i].cells[c].len();
                if l > m {
                    m = l;
                }
            }
            proof {
                assert(entries@.take(i + 1).drop_last() =~= entries@.take(i as int));
                assert(entries@.take(i + 1).last() == entries@[i as int]);
            }
            i += 1;
        }
        assert(entries@.take(entries@.len() as int) =~= entries@);
        w.push(m);
        c += 1;
    }
    w
}

/// Pads one raw cell to its column width and appends it to `out`.
fn push_padded(out: &mut Vec<char>, cell: &Vec<char>, w: usize)
    ensures
        final(out)@ == old(out)@ + pad_cell(cell@, w as nat),
{
    let n = cell.len();
    if n == 0 {
        assert(old(out)@ + pad_cell(cell@, w as nat) =~= old(out)@);
        return ;
    }
    let rem: usize = if w >= n {
        w - n
    } else {
        0
    };
    let ghost base = out@;
    let a = cell[0];
    if a == '<' {
        push_body(out, cell);
        crate::text::push_repeat(out, ' ', rem);
        assert(out@ =~= base + pad_cell(cell@, w as nat));
    } else if a == '>' {
        crate::text::push_repeat(out, ' ', rem);
        push_body(out, cell);
        assert(out@ =~= base + pad_cell(cell@, w as nat));
    } else {
        let l = rem / 2;
        crate::text::push_repeat(out, ' ', l);
        push_body(out, cell);
        crate::text::push_repeat(out, ' ', rem - l);
        assert(out@ =~= base + pad_cell(cell@, w as nat));
    }
}

/// Appends everything after a cell's alignment directive.
fn push_body(out: &mut Vec<char>, cell: &Vec<char>)
    requires
        cell@.len() >= 1,
    ensures
        final(out)@ == old(out)@ + cell@.skip(1),
{
    let mut k: usize = 1;
    while k < cell.len()
        invariant
            1 <= k <= cell@.len(),
            out@ == old(out)@ + cell@.subrange(1, k as int),
        decreases cell@.len() - k,
    {
        out.push(cell[k]);
        assert(out@ =~= old(out)@ + cell@.subrange(1, k + 1));
        k += 1;
    }
    assert(out@ =~= old(out)@ + cell@.skip(1));
}

/// The alignment post-pass: measures every column across the listing,
/// then rewrites each entry's aligned info line from its raw cells.
/// Returns the recorded column widths. Every other field of every
/// entry keeps its value, so alignment is independent of row order and
/// of the filter and selection state.
pub fn align_info(entries: &mut Vec<DirContent>) -> (w: Vec<usize>)
    ensures
        w@.len() == spec_num_cols(old(entries)@),
        forall|c: int| 0 <= c < w@.len() ==> w@[c] == spec_max_width(old(entries)@, c),
        final(entries)@.len() == old(entries)@.len(),
        forall|i: int|
            0 <= i < old(entries)@.len() ==> {
                let e0 = #[trigger] old(entries)@[i];
                let e1 = final(entries)@[i];
                &&& e1.info@ == spec_aligned_info(e0.cells.deep_view(), w@)
                &&& e1.path@ == e0.path@
                &&& e1.name@ == e0.name@
                &&& e1.name_charlen == e0.name_charlen
                &&& e1.rel_depth == e0.rel_depth
                &&& e1.passes_filter == e0.passes_filter
                &&& e1.selected == e0.selected
                &&& e1.cells.deep_view() == e0.cells.deep_view()
                &&& e1.more@ == e0.more@
            },
{
    let w = column_widths(entries);
    let mut i: usize = 0;
    while i < entries.len()
        invariant
            i <= entries@.len(),
            entries@.len() == old(entries)@.len(),
            w@.len() == spec_num_cols(old(entries)@),
            forall|c: int| 0 <= c < w@.len() ==> w@[c] == spec_max_width(old(entries)@, c),
            forall|k: int| i <= k < entries@.len() ==> entries@[k] == old(entries)@[k],
            forall|k: int|
                0 <= k < i ==> {
                    let e0 = #[trigger] old(entries)@[k];
                    let e1 = entries@[k];
                    &&& e1.info@ == spec_aligned_info(e0.cells.deep_view(), w@)
                    &&& e1.path@ == e0.path@
                    &&& e1.name@ == e0.name@
                    &&& e1.name_charlen == e0.name_charlen
                    &&& e1.rel_depth == e0.rel_depth
                    &&& e1.passes_filter == e0.passes_filter
                    &&& e1.selected == e0.selected
                    &&& e1.cells.deep_view() == e0.cells.deep_view()
                    &&& e1.more@ == e0.more@
                },
        decreases entries@.len() - i,
    {
        let mut e = clone_entry(&entries[i]);
        let mut info: Vec<char> = Vec::new();
        let mut j: usize = 0;
        proof {
            lemma_num_cols_covers(old(entries)@, i as int);
            crate::text::lemma_deep_view_chars(e.info);
            assert(e.cells@.len() == e.cells.deep_view().len());
            assert(old(entries)@[i as int].cells@.len() == old(
                entries,
            )@[i as int].cells.deep_view().len());
        }
        while j < e.cells.len()
            invariant
                j <= e.cells@.len(),
                e.cells.deep_view() == old(entries)@[i as int].cells.deep_view(),
                e.cells@.len() <= w@.len(),
                forall|c: int| 0 <= c < w@.len() ==> w@[c] == spec_max_width(old(entries)@, c),
                info@ == spec_aligned_info(e.cells.deep_view().take(j as int), w@),
                0 <= i < old(entries)@.len(),
            decreases e.cells@.len() - j,
        {
            proof {
                crate::text::lemma_deep_view_chars(e.cells@[j as int]);
            }
            push_padded(&mut info, &e.cells[j], w[j]);
            proof {
                let dv = e.cells.deep_view();
                assert(dv.take(j + 1).drop_last() =~= dv.take(j as int));
                assert(dv.take(j + 1).last() == dv[j as int]);
            }
            j += 1;
        }
        proof {
            assert(e.cells.deep_view().take(e.cells.deep_view().len() as int) =~= e.cells.deep_view());
        }
        e.info = info;
        let ghost snapshot = entries@;
        entries[i] = e;
        proof {
            assert(forall|k: int|
                0 <= k < entries@.len() && k != i ==> entries@[k] == snapshot[k]);
        }
        i += 1;
    }
    w
}

/// Where one column's padded block starts inside the aligned line.
pub open spec fn block_start(widths: Seq<usize>, j: int) -> int
    decreases j,
{
    if j <= 0 {
        0
    } else {
        block_start(widths, j - 1) + widths[j - 1] - 1
    }
}

/// A padded block is one narrower than its recorded width.
pub proof fn lemma_pad_len(cell: Seq<char>, w: nat)
    requires
        1 <= cell.len() <= w,
    ensures
        pad_cell(cell, w).len() == w - 1,
{
}

/// Splitting the aligned line at the recorded widths recovers each
/// column's padded block: block `j` spans exactly
/// `[block_start(w, j), block_start(w, j + 1))`.
pub proof fn lemma_aligned_block(cells: Seq<Seq<char>>, widths: Seq<usize>, j: int)
    requires
        0 <= j < cells.len(),
        cells.len() <= widths.len(),
        forall|k: int| 0 <= k < cells.len() ==> 1 <= (#[trigger] cells[k]).len() <= widths[k],
    ensures
        block_start(widths, j + 1) <= spec_aligned_info(cells, widths).len(),
        block_start(widths, j) <= block_start(widths, j + 1),
        spec_aligned_info(cells, widths).subrange(block_start(widths, j), block_start(widths, j + 1))
            == pad_cell(cells[j], widths[j] as nat),
    decreases cells.len(),
{
    assert forall|k: int| 0 <= k < cells.len() implies (#[trigger] widths[k]) >= 1 by {
        assert(cells[k].len() >= 1);
    }
    lemma_aligned_len(cells, widths);
    lemma_block_start_grows(widths, cells.len() as int, j + 1);
    lemma_block_start_grows(widths, j + 1, j);
    let pre = cells.drop_last();
    let last = cells.last();
    let lw = widths[cells.len() - 1] as nat;
    lemma_aligned_len(pre, widths);
    lemma_pad_len(last, lw);
    if j == cells.len() - 1 {
        assert(block_start(widths, j) == spec_aligned_info(pre, widths).len());
        assert(spec_aligned_info(cells, widths).subrange(
            block_start(widths, j),
            block_start(widths, j + 1),
        ) =~= pad_cell(last, lw));
    } else {
        lemma_aligned_block(pre, widths, j);
        assert(spec_aligned_info(cells, widths).subrange(
            block_start(widths, j),
            block_start(widths, j + 1),
        ) =~= spec_aligned_info(pre, widths).subrange(
            block_start(widths, j),
            block_start(widths, j + 1),
        ));
    }
}

/// The aligned line's length is where the block after the last column
/// would start.
pub proof fn lemma_aligned_len(cells: Seq<Seq<char>>, widths: Seq<usize>)
    requires
        cells.len() <= widths.len(),
        forall|k: int| 0 <= k < cells.len() ==> 1 <= (#[trigger] cells[k]).len() <= widths[k],
    ensures
        spec_aligned_info(cells, widths).len() == block_start(widths, cells.len() as int),
    decreases cells.len(),
{
    if cells.len() > 0 {
        lemma_aligned_len(cells.drop_last(), widths);
        lemma_pad_len(cells.last(), widths[cells.len() - 1] as nat);
    }
}

proof fn lemma_block_start_grows(widths: Seq<usize>, a: int, b: int)
    requires
        0 <= b <= a <= widths.len(),
        forall|k: int| 0 <= k < a ==> (#[trigger] widths[k]) >= 1,
    ensures
        block_start(widths, b) <= block_start(widths, a),
        block_start(widths, b) >= 0,
    decreases a,
{
    if a > 0 {
        if b == a {
            lemma_block_start_grows(widths, a - 1, 0);
        } else {
            lemma_block_start_grows(widths, a - 1, b);
        }
    }
}

/// Trimming the alignment padding from a padded block recovers the
/// cell's own text: the added spaces sit after a left-aligned body and
/// before a right-aligned one.
pub proof fn lemma_unpad(cell: Seq<char>, w: nat)
    requires
        1 <= cell.len() <= w,
    ensures
        cell[0] == '<' ==> pad_cell(cell, w).take(cell.len() - 1) == cell.skip(1),
        cell[0] == '>' ==> pad_cell(cell, w).skip(w - cell.len()) == cell.skip(1),
{
    if cell[0] == '<' {
        assert(pad_cell(cell, w).take(cell.len() - 1) =~= cell.skip(1));
    }
    if cell[0] == '>' {
        assert(pad_cell(cell, w).skip(w - cell.len()) =~= cell.skip(1));
    }
}

} // verus!
