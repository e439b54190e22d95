//! Entries: one filesystem node discovered by a scan, with its
//! pre-formatted info columns.
//!
//! The scan engine receives each node as a `RawChild` (its name and what
//! the caller could read of its metadata, all plain values) and builds a
//! `DirContent` from it: display name with a trailing separator for
//! directories, relative depth, selection and filter state, and the raw
//! info cells that the alignment post-pass later pads into one line.

use vstd::prelude::*;

use crate::paths::{chars_clone, spec_join, path_join};
use crate::text::{spec_dec, spec_oct3, dec_of, oct3_of, push_str_chars};

verus! {

/// What kind of node the caller's metadata showed.
#[derive(Clone, Copy, PartialEq, Eq, Structural, Debug)]
pub enum RawKind {
    Dir,
    File,
    Symlink,
    Other,
}

/// Metadata read for one node, as plain values.
#[derive(Clone, Copy, PartialEq, Eq, Structural, Debug)]
pub struct RawMeta {
    pub kind: RawKind,
    pub size: u64,
    pub mode: u32,
}

/// One directory child as the caller hands it to the scan engine:
/// the file name and the metadata, or the error text when reading the
/// metadata failed.
pub struct RawChild {
    pub name: Vec<char>,
    pub meta: Result<RawMeta, Vec<char>>,
}

/// The variant of a scanned entry.
pub enum DirContentType {
    /// Couldn't get more info on this entry.
    Unreadable(Vec<char>),
    Dir,
    File,
    Symlink,
}

/// Spec-level value of an entry variant.
pub enum EntryKind {
    Unreadable(Seq<char>),
    Dir,
    File,
    Symlink,
}

impl View for DirContentType {
    type V = EntryKind;

    open spec fn view(&self) -> EntryKind {
        match self {
            DirContentType::Unreadable(m) => EntryKind::Unreadable(m@),
            DirContentType::Dir => EntryKind::Dir,
            DirContentType::File => EntryKind::File,
            DirContentType::Symlink => EntryKind::Symlink,
        }
    }
}

/// One filesystem node discovered during a scan.
pub struct DirContent {
    /// Absolute path of the node, without a trailing separator.
    pub path: Vec<char>,
    /// Display name; directories carry a trailing `/`.
    pub name: Vec<char>,
    /// Character length of the display name.
    pub name_charlen: usize,
    /// Depth below the scan root: the root's own children sit at 0.
    pub rel_depth: usize,
    /// Whether the entry passes the current filter; meaningful only
    /// until the next full rescan.
    pub passes_filter: bool,
    /// Whether the entry is selected; meaningful only within one scan
    /// generation.
    pub selected: bool,
    /// The aligned info line, filled by the alignment post-pass.
    pub info: Vec<char>,
    /// The raw info cells, each starting with its alignment directive.
    pub cells: Vec<Vec<char>>,
    pub more: DirContentType,
}

/// Scaling a byte count down by 1024 per unit, at most five steps.
pub open spec fn spec_scale(n: nat, i: nat) -> (nat, nat)
    decreases 6 - i,
{
    if n < 1024 || i + 1 >= 6 {
        (n, i)
    } else {
        spec_scale(n / 1024, i + 1)
    }
}

/// The unit suffix for each scaling step.
pub open spec fn spec_unit(i: nat) -> Seq<char> {
    if i == 0 {
        "B"@
    } else if i == 1 {
        "KB"@
    } else if i == 2 {
        "MB"@
    } else if i == 3 {
        "GB"@
    } else if i == 4 {
        "TB"@
    } else {
        "PB"@
    }
}

/// Scales a byte count to the largest unit that keeps it under 1024.
pub fn scale_bytes(n: u64) -> (r: (u64, usize))
    ensures
        (r.0 as nat, r.1 as nat) == spec_scale(n as nat, 0),
        r.1 <= 5,
{
    let mut b = n;
    let mut i: usize = 0;
    while !(b < 1024 || i + 1 >= 6)
        invariant
            i <= 5,
            spec_scale(n as nat, 0) == spec_scale(b as nat, i as nat),
        decreases 6 - i,
    {
        b = b / 1024;
        i = i + 1;
    }
    (b, i)
}

/// The unit suffix for one scaling step.
pub fn unit_of(i: usize) -> (r: &'static str)
    ensures
        r@ == spec_unit(i as nat),
{
    if i == 0 {
        "B"
    } else if i == 1 {
        "KB"
    } else if i == 2 {
        "MB"
    } else if i == 3 {
        "GB"
    } else if i == 4 {
        "TB"
    } else {
        "PB"
    }
}

/// The column-separator cell.
pub open spec fn sep_cell() -> Seq<char> {
    "< | "@
}

/// The raw cells one metadata column contributes: the size column
/// scales the byte count and renders value and unit right-aligned; the
/// mode column renders the low permission bits as a base-8 triplet.
pub open spec fn spec_col_cells(c: u32, size: nat, mode: nat) -> Seq<Seq<char>> {
    if c == 0 {
        seq![
            sep_cell(),
            seq!['>'] + spec_dec(spec_scale(size, 0).0),
            seq!['>'] + spec_unit(spec_scale(size, 0).1),
        ]
    } else if c == 1 {
        seq![sep_cell(), seq!['>'] + spec_oct3(mode % 512)]
    } else {
        Seq::empty()
    }
}

/// The raw cells of all requested columns, in order.
pub open spec fn spec_info_cells(cols: Seq<u32>, size: nat, mode: nat) -> Seq<Seq<char>>
    decreases cols.len(),
{
    if cols.len() == 0 {
        Seq::empty()
    } else {
        spec_info_cells(cols.drop_last(), size, mode) + spec_col_cells(cols.last(), size, mode)
    }
}

/// Builds the raw info cells for one entry's metadata.
pub fn cells_of_meta(cols: &Vec<u32>, size: u64, mode: u32) -> (r: Vec<Vec<char>>)
    ensures
        r.deep_view() == spec_info_cells(cols@, size as nat, mode as nat),
{
    let mut r: Vec<Vec<char>> = Vec::new();
    let mut i: usize = 0;
    while i < cols.len()
        invariant
            i <= cols@.len(),
            r.deep_view() == spec_info_cells(cols@.take(i as int), size as nat, mode as nat),
        decreases cols@.len() - i,
    {
        let ghost pre = r.deep_view();
        let c = cols[i];
        if c == 0 {
            let mut sep: Vec<char> = Vec::new();
            push_str_chars(&mut sep, "< | ");
            r.push(sep);
            let (b, u) = scale_bytes(size);
            let mut num: Vec<char> = Vec::new();
            num.push('>');
            let digits = dec_of(b);
            crate::text::push_chars(&mut num, &digits);
            assert(num@ =~= seq!['>'] + spec_dec(b as nat));
            r.push(num);
            let mut unit: Vec<char> = Vec::new();
            unit.push('>');
            push_str_chars(&mut unit, unit_of(u));
            assert(unit@ =~= seq!['>'] + spec_unit(u as nat));
            r.push(unit);
            assert(r.deep_view() =~~= pre + spec_col_cells(c, size as nat, mode as nat));
        } else if c == 1 {
            let mut sep: Vec<char> = Vec::new();
            push_str_chars(&mut sep, "< | ");
            r.push(sep);
            let masked = mode % 512;
            let mut oct: Vec<char> = Vec::new();
            oct.push('>');
            let digits = oct3_of(masked);
            crate::text::push_chars(&mut oct, &digits);
            assert(oct@ =~= seq!['>'] + spec_oct3((mode % 512) as nat));
            r.push(oct);
            assert(r.deep_view() =~~= pre + spec_col_cells(c, size as nat, mode as nat));
        } else {
            assert(r.deep_view() =~~= pre + spec_col_cells(c, size as nat, mode as nat));
        }
        proof {
            assert(cols@.take(i + 1).drop_last() =~= cols@.take(i as int));
            assert(cols@.take(i + 1).last() == cols@[i as int]);
        }
        i += 1;
    }
    assert(cols@.take(cols@.len() as int) =~= cols@);
    r
}

/// The display name of an entry: directories get a trailing separator.
pub open spec fn spec_entry_name(raw_name: Seq<char>, is_dir: bool) -> Seq<char> {
    if is_dir {
        raw_name.push('/')
    } else {
        raw_name
    }
}

/// The variant a raw child maps to.
pub open spec fn spec_entry_kind(meta: Result<RawMeta, Vec<char>>) -> EntryKind {
    match meta {
        Result::Ok(m) => match m.kind {
            RawKind::Symlink => EntryKind::Symlink,
            RawKind::File => EntryKind::File,
            RawKind::Dir => EntryKind::Dir,
            RawKind::Other => EntryKind::Unreadable("not a file, dir or symlink"@),
        },
        Result::Err(msg) => EntryKind::Unreadable(msg@),
    }
}

/// Whether the raw child is a directory whose listing the scan may
/// descend into.
pub open spec fn spec_is_dir(meta: Result<RawMeta, Vec<char>>) -> bool {
    meta matches Result::Ok(m) && m.kind is Dir
}

/// Whether a raw child is a directory.
pub fn raw_is_dir(c: &RawChild) -> (r: bool)
    ensures
        r == spec_is_dir(c.meta),
{
    match &c.meta {
        Result::Ok(m) => match m.kind {
            RawKind::Dir => true,
            _ => false,
        },
        Result::Err(_) => false,
    }
}

/// Clones an entry; every field keeps its value.
pub fn clone_entry(e: &DirContent) -> (r: DirContent)
    ensures
        r.path@ == e.path@,
        r.name@ == e.name@,
        r.name_charlen == e.name_charlen,
        r.rel_depth == e.rel_depth,
        r.passes_filter == e.passes_filter,
        r.selected == e.selected,
        r.info@ == e.info@,
        r.cells.deep_view() == e.cells.deep_view(),
        r.more@ == e.more@,
{
    let more = match &e.more {
        DirContentType::Unreadable(m) => DirContentType::Unreadable(chars_clone(m)),
        DirContentType::Dir => DirContentType::Dir,
        DirContentType::File => DirContentType::File,
        DirContentType::Symlink => DirContentType::Symlink,
    };
    let mut cells: Vec<Vec<char>> = Vec::new();
    let mut i: usize = 0;
    while i < e.cells.len()
        invariant
            i <= e.cells@.len(),
            cells.deep_view() =~= e.cells.deep_view().take(i as int),
        decreases e.cells@.len() - i,
    {
        let c = chars_clone(&e.cells[i]);
        proof {
            crate::text::lemma_deep_view_chars(c);
            crate::text::lemma_deep_view_chars(e.cells@[i as int]);
        }
        let ghost pre_dv = cells.deep_view();
        let ghost cv = c@;
        cells.push(c);
        proof {
            assert(cells.deep_view() =~~= pre_dv + seq![cv]);
            assert(e.cells.deep_view()[i as int] == e.cells@[i as int].deep_view());
            assert(e.cells.deep_view().take(i + 1) =~= e.cells.deep_view().take(i as int) + seq![
                e.cells.deep_view()[i as int],
            ]);
        }
        assert(cells.deep_view() =~= e.cells.deep_view().take(i + 1));
        i += 1;
    }
    assert(cells.deep_view() =~= e.cells.deep_view());
    DirContent {
        path: chars_clone(&e.path),
        name: chars_clone(&e.name),
        name_charlen: e.name_charlen,
        rel_depth: e.rel_depth,
        passes_filter: e.passes_filter,
        selected: e.selected,
        info: chars_clone(&e.info),
        cells,
        more,
    }
}

/// Builds one entry from a raw child discovered at `depth` under `dir`.
///
/// The entry starts visible and unselected; its aligned info line stays
/// empty until the post-pass runs over the whole listing.
pub fn build_entry(dir: &Vec<char>, raw: &RawChild, depth: usize, cols: &Vec<u32>) -> (e:
    DirContent)
    ensures
        e.path@ == spec_join(dir@, raw.name@),
        e.name@ == spec_entry_name(raw.name@, spec_is_dir(raw.meta)),
        e.name_charlen == e.name@.len(),
        e.rel_depth == depth,
        e.passes_filter,
        !e.selected,
        e.info@.len() == 0,
        e.cells.deep_view() == (match raw.meta {
            Result::Ok(m) => spec_info_cells(cols@, m.size as nat, m.mode as nat),
            Result::Err(_) => Seq::<Seq<char>>::empty(),
        }),
        e.more@ == spec_entry_kind(raw.meta),
{
    let path = path_join(dir, &raw.name);
    let mut name = chars_clone(&raw.name);
    let (is_dir, cells, more) = match &raw.meta {
        Result::Ok(m) => {
            let cells = cells_of_meta(cols, m.size, m.mode);
            let more = match m.kind {
                RawKind::Symlink => DirContentType::Symlink,
                RawKind::File => DirContentType::File,
                RawKind::Dir => DirContentType::Dir,
                RawKind::Other => {
                    let mut msg: Vec<char> = Vec::new();
                    push_str_chars(&mut msg, "not a file, dir or symlink");
                    DirContentType::Unreadable(msg)
                },
            };
            (matches!(m.kind, RawKind::Dir), cells, more)
        },
        Result::Err(msg) => {
            let cells: Vec<Vec<char>> = Vec::new();
            assert(cells.deep_view() =~= Seq::<Seq<char>>::empty());
            (false, cells, DirContentType::Unreadable(chars_clone(msg)))
        },
    };
    if is_dir {
        name.push('/');
    }
    let name_charlen = name.len();
    DirContent {
        path,
        name,
        name_charlen,
        rel_depth: depth,
        passes_filter: true,
        selected: false,
        info: Vec::new(),
        cells,
        more,
    }
}

} // verus!
