//! Path arithmetic over `/`-separated character paths.
//!
//! Sessions carry absolute paths as `Vec<char>`; these helpers mirror the
//! handful of path operations the explorer needs: joining a child name,
//! taking the final component, popping it, and stripping a root prefix to
//! get a path relative to a scan root.

use vstd::prelude::*;

verus! {

/// Clones a character vector; the result holds the same characters.
pub fn chars_clone(v: &Vec<char>) -> (r: Vec<char>)
    ensures
        r@ == v@,
{
    let r = v.clone();
    proof {
        assert forall|i: int| 0 <= i < v@.len() implies r@[i] == v@[i] by {
            assert(vstd::pervasive::cloned::<char>(v@[i], r@[i]));
        }
        assert(r@ =~= v@);
    }
    r
}

/// The characters after the last `/`, or the whole path when it has none.
pub open spec fn after_last_slash(p: Seq<char>) -> Seq<char>
    decreases p.len(),
{
    if p.len() == 0 {
        Seq::empty()
    } else if p.last() == '/' {
        Seq::empty()
    } else {
        after_last_slash(p.drop_last()).push(p.last())
    }
}

/// The final component of a path, as the ascend command reads it:
/// nothing for the root `/` or for a trailing separator.
pub open spec fn spec_file_name(p: Seq<char>) -> Option<Seq<char>> {
    if after_last_slash(p).len() == 0 {
        None
    } else {
        Some(after_last_slash(p))
    }
}

pub proof fn lemma_after_last_slash_at(p: Seq<char>, k: int)
    requires
        0 <= k <= p.len(),
        forall|j: int| k <= j < p.len() ==> p[j] != '/',
        k > 0 ==> p[k - 1] == '/',
    ensures
        after_last_slash(p) =~= p.skip(k),
    decreases p.len(),
{
    if p.len() == 0 {
    } else if p.last() == '/' {
        assert(k == p.len());
    } else {
        assert(k < p.len());
        lemma_after_last_slash_at(p.drop_last(), k);
    }
}

/// Index just after the last `/` of `p`, or 0 when there is none.
fn last_component_start(p: &Vec<char>) -> (k: usize)
    ensures
        k <= p@.len(),
        forall|j: int| k <= j < p@.len() ==> p@[j] != '/',
        k > 0 ==> p@[k - 1] == '/',
        after_last_slash(p@) =~= p@.skip(k as int),
{
    let mut k = p.len();
    while k > 0
        invariant
            k <= p@.len(),
            forall|j: int| k <= j < p@.len() ==> p@[j] != '/',
        decreases k,
    {
        if p[k - 1] == '/' {
            proof {
                lemma_after_last_slash_at(p@, k as int);
            }
            return k;
        }
        k -= 1;
    }
    proof {
        lemma_after_last_slash_at(p@, 0);
    }
    0
}

/// The final component of the path, or nothing when it has none.
pub fn path_file_name(p: &Vec<char>) -> (r: Option<Vec<char>>)
    ensures
        match r {
            Some(name) => spec_file_name(p@) == Some(name@),
            None => spec_file_name(p@) is None,
        },
{
    let k = last_component_start(p);
    if k == p.len() {
        return None;
    }
    let mut name: Vec<char> = Vec::new();
    let mut i = k;
    while i < p.len()
        invariant
            k <= i <= p@.len(),
            name@ =~= p@.subrange(k as int, i as int),
        decreases p@.len() - i,
    {
        name.push(p[i]);
        i += 1;
    }
    assert(name@ =~= p@.skip(k as int));
    Some(name)
}

/// What removing the final component leaves: the parent directory,
/// keeping a leading `/`, or the unchanged path when there is no
/// component to remove.
pub open spec fn spec_pop(p: Seq<char>) -> Seq<char> {
    let name = after_last_slash(p);
    if name.len() == 0 {
        p
    } else {
        let k = p.len() - name.len();
        if k == 0 {
            Seq::empty()
        } else if k == 1 {
            p.take(1)
        } else {
            p.take(k - 1)
        }
    }
}

/// Removes the final component of the path in place.
pub fn path_pop(p: &mut Vec<char>)
    ensures
        final(p)@ == spec_pop(old(p)@),
{
    let k = last_component_start(p);
    if k == p.len() {
        return ;
    }
    assert(after_last_slash(p@).len() == p@.len() - k);
    if k == 0 {
        p.truncate(0);
        assert(p@ =~= spec_pop(old(p)@));
    } else if k == 1 {
        p.truncate(1);
        assert(p@ =~= spec_pop(old(p)@));
    } else {
        p.truncate(k - 1);
        assert(p@ =~= spec_pop(old(p)@));
    }
}

/// What joining a name onto a directory yields: the name alone when it
/// is absolute, otherwise the directory, a separator unless one is
/// already there, and the name.
pub open spec fn spec_join(dir: Seq<char>, name: Seq<char>) -> Seq<char> {
    if name.len() > 0 && name[0] == '/' {
        name
    } else if dir.len() == 0 {
        name
    } else if dir.last() == '/' {
        dir + name
    } else {
        dir + seq!['/'] + name
    }
}

/// Joins a child name onto a directory path.
pub fn path_join(dir: &Vec<char>, name: &Vec<char>) -> (r: Vec<char>)
    ensures
        r@ == spec_join(dir@, name@),
{
    if name.len() > 0 && name[0] == '/' {
        return chars_clone(name);
    }
    if dir.len() == 0 {
        return chars_clone(name);
    }
    let mut r = chars_clone(dir);
    if dir[dir.len() - 1] != '/' {
        r.push('/');
        assert(r@ =~= dir@ + seq!['/']);
    }
    crate::text::push_chars(&mut r, name);
    assert(r@ =~= spec_join(dir@, name@));
    r
}

/// What stripping the scan root from an entry path yields: the part
/// after the root and its separator, or nothing when the path does not
/// lie under the root.
pub open spec fn spec_rel_path(root: Seq<char>, path: Seq<char>) -> Option<Seq<char>> {
    if root.len() > 0 && root.last() == '/' {
        if path.len() > root.len() && path.take(root.len() as int) == root {
            Some(path.skip(root.len() as int))
        } else {
            None
        }
    } else {
        if path.len() > root.len() + 1 && path.take(root.len() as int) == root && path[root.len() as int]
            == '/' {
            Some(path.skip(root.len() as int + 1))
        } else {
            None
        }
    }
}

/// Strips the root prefix from a path lying under it.
pub fn rel_path_of(root: &Vec<char>, path: &Vec<char>) -> (r: Option<Vec<char>>)
    ensures
        match r {
            Some(rel) => spec_rel_path(root@, path@) == Some(rel@),
            None => spec_rel_path(root@, path@) is None,
        },
{
    let rn = root.len();
    if path.len() <= rn {
        return None;
    }
    let mut i: usize = 0;
    while i < rn
        invariant
            i <= rn == root@.len(),
            path@.len() > rn,
            forall|j: int| 0 <= j < i ==> path@[j] == root@[j],
        decreases rn - i,
    {
        if path[i] != root[i] {
            assert(path@.take(rn as int)[i as int] != root@[i as int]);
            return None;
        }
        i += 1;
    }
    assert(path@.take(rn as int) =~= root@);
    let start: usize = if rn > 0 && root[rn - 1] == '/' {
        rn
    } else {
        if path[rn] != '/' {
            return None;
        }
        if path.len() == rn + 1 {
            return None;
        }
        rn + 1
    };
    let mut rel: Vec<char> = Vec::new();
    let mut j = start;
    while j < path.len()
        invariant
            start <= j <= path@.len(),
            rel@ =~= path@.subrange(start as int, j as int),
        decreases path@.len() - j,
    {
        rel.push(path[j]);
        j += 1;
    }
    assert(rel@ =~= path@.skip(start as int));
    Some(rel)
}

} // verus!
