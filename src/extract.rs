use vstd::prelude::*;
use vstd::string::*;

use crate::models::ToolError;
use crate::storage::joined;
use crate::text::str_eq;

verus! {

/// One entry of an archive: its stored path as components (none where the
/// archive reader could not make it a relative path), and whether it is a
/// directory.
#[derive(Debug, Clone)]
pub struct ArchiveEntry {
    pub path: Option<Vec<String>>,
    pub is_dir: bool,
}

/// Where archive entry `index` goes: a directory to create, or a file to
/// write (its parent directories created first).
#[derive(Debug, Clone)]
pub struct ExtractStep {
    pub index: usize,
    pub path: Vec<String>,
    pub is_dir: bool,
}

/// A path component that names a child of its directory: not empty, not
/// `.` or `..`, and free of `/`.
pub open spec fn is_plain_component(c: Seq<char>) -> bool {
    &&& c.len() > 0
    &&& c != "."@
    &&& c != ".."@
    &&& forall|k: int| 0 <= k < c.len() ==> #[trigger] c[k] != '/'
}

/// Where a relative path leads, as plain components: `.` stays, `..` goes
/// back one level. None where `..` would climb above the start, or where a
/// component is neither `.`, `..` nor plain.
pub open spec fn resolve(p: Seq<String>) -> Option<Seq<String>>
    decreases p.len(),
{
    if p.len() == 0 {
        Some(Seq::empty())
    } else {
        match resolve(p.drop_last()) {
            None => None,
            Some(s) => {
                let c = p.last();
                if c@ == "."@ {
                    Some(s)
                } else if c@ == ".."@ {
                    if s.len() == 0 { None } else { Some(s.drop_last()) }
                } else if is_plain_component(c@) {
                    Some(s.push(c))
                } else {
                    None
                }
            },
        }
    }
}

/// Whether an entry's stored path stays inside the directory it is
/// extracted into.
pub open spec fn is_safe_entry(e: ArchiveEntry) -> bool {
    match e.path {
        None => false,
        Some(p) => resolve(p@) is Some,
    }
}

proof fn lemma_resolve_plain(p: Seq<String>)
    requires
        resolve(p) is Some,
    ensures
        forall|k: int| 0 <= k < resolve(p).unwrap().len() ==> is_plain_component(
            #[trigger] resolve(p).unwrap()[k]@),
    decreases p.len(),
{
    if p.len() > 0 {
        lemma_resolve_plain(p.drop_last());
    }
}

proof fn lemma_resolve_prefix_none(p: Seq<String>, i: int, j: int)
    requires
        0 <= i <= j <= p.len(),
        resolve(p.subrange(0, i)) is None,
    ensures
        resolve(p.subrange(0, j)) is None,
    decreases j - i,
{
    if i < j {
        lemma_resolve_prefix_none(p, i, j - 1);
        assert(p.subrange(0, j).drop_last() =~= p.subrange(0, j - 1));
    }
}

fn plain_component(c: &str) -> (r: bool)
    ensures
        r == is_plain_component(c@),
{
    proof {
        reveal_strlit(".");
        reveal_strlit("..");
    }
    let n = c.unicode_len();
    if n == 0 || str_eq(c, ".") || str_eq(c, "..") {
        return false;
    }
    let mut i: usize = 0;
    while i < n
        invariant
            i <= n,
            n == c@.len(),
            forall|k: int| 0 <= k < i ==> #[trigger] c@[k] != '/',
        decreases n - i,
    {
        if c.get_char(i) == '/' {
            return false;
        }
        i = i + 1;
    }
    true
}

/// Where a relative path leads, or none where it leaves its start.
pub fn resolve_path(p: &Vec<String>) -> (r: Option<Vec<String>>)
    ensures
        match r {
            Some(s) => resolve(p@) == Some(s@),
            None => resolve(p@) is None,
        },
{
    proof {
        reveal_strlit(".");
        reveal_strlit("..");
    }
    let mut out: Vec<String> = Vec::new();
    let mut i: usize = 0;
    assert(p@.subrange(0, 0) =~= Seq::<String>::empty());
    while i < p.len()
        invariant
            i <= p@.len(),
            resolve(p@.subrange(0, i as int)) == Some(out@),
        decreases p.len() - i,
    {
        let c = &p[i];
        assert(p@.subrange(0, i + 1).drop_last() =~= p@.subrange(0, i as int));
        assert(p@.subrange(0, i + 1).last() == *c);
        if str_eq(c.as_str(), ".") {
        } else if str_eq(c.as_str(), "..") {
            if out.len() == 0 {
                proof { lemma_resolve_prefix_none(p@, i + 1, p@.len() as int); }
                assert(p@.subrange(0, p@.len() as int) =~= p@);
                return None;
            }
            let ghost before = out@;
            out.pop();
            assert(out@ =~= before.drop_last());
        } else if plain_component(c.as_str()) {
            out.push(c.clone());
        } else {
            proof { lemma_resolve_prefix_none(p@, i + 1, p@.len() as int); }
            assert(p@.subrange(0, p@.len() as int) =~= p@);
            return None;
        }
        i = i + 1;
    }
    assert(p@.subrange(0, p@.len() as int) =~= p@);
    Some(out)
}

/// Where each archive entry goes inside `target`, in archive order, each
/// stored path resolved. Fails with `ArchiveFailure`, before anything is
/// written, where some entry's path could leave `target`. Every planned path
/// is `target` followed by plain components only, so nothing lands outside
/// `target`.
pub fn plan_extraction(target: &Vec<String>, entries: &Vec<ArchiveEntry>) -> (r: Result<Vec<ExtractStep>, ToolError>)
    ensures
        r is Err <==> exists|i: int| 0 <= i < entries@.len() && !is_safe_entry(#[trigger] entries@[i]),
        r is Err ==> r == Err::<Vec<ExtractStep>, ToolError>(ToolError::ArchiveFailure),
        r matches Ok(steps) ==> {
            &&& steps@.len() == entries@.len()
            &&& forall|i: int| 0 <= i < steps@.len() ==> {
                &&& (#[trigger] steps@[i]).index == i
                &&& steps@[i].is_dir == entries@[i].is_dir
                &&& entries@[i].path matches Some(p) && resolve(p@) matches Some(q) && steps@[i].path@ == target@ + q
                &&& steps@[i].path@.subrange(0, target@.len() as int) == target@
                &&& forall|k: int| target@.len() <= k < steps@[i].path@.len()
                    ==> is_plain_component(#[trigger] steps@[i].path@[k]@)
            }
        },
{
    let mut steps: Vec<ExtractStep> = Vec::new();
    let mut i: usize = 0;
    while i < entries.len()
        invariant
            i <= entries@.len(),
            steps@.len() == i,
            forall|j: int| 0 <= j < i ==> is_safe_entry(#[trigger] entries@[j]),
            forall|j: int| 0 <= j < i ==> {
                &&& (#[trigger] steps@[j]).index == j
                &&& steps@[j].is_dir == entries@[j].is_dir
                &&& entries@[j].path matches Some(p) && resolve(p@) matches Some(q) && steps@[j].path@ == target@ + q
                &&& steps@[j].path@.subrange(0, target@.len() as int) == target@
                &&& forall|k: int| target@.len() <= k < steps@[j].path@.len()
                    ==> is_plain_component(#[trigger] steps@[j].path@[k]@)
            },
        decreases entries.len() - i,
    {
        let e = &entries[i];
        match &e.path {
            None => return Err(ToolError::ArchiveFailure),
            Some(p) => {
                let q = match resolve_path(p) {
                    Some(q) => q,
                    None => return Err(ToolError::ArchiveFailure),
                };
                let path = joined(target, &q);
                proof { lemma_resolve_plain(p@); }
                assert(path@.subrange(0, target@.len() as int) =~= target@);
                assert forall|k: int| target@.len() <= k < path@.len() implies is_plain_component(
                    #[trigger] path@[k]@) by {
                    assert(path@[k] == q@[k - target@.len()]);
                    assert(resolve(p@).unwrap() == q@);
                    assert(is_plain_component(resolve(p@).unwrap()[k - target@.len()]@));
                }
                steps.push(ExtractStep { index: i, path, is_dir: e.is_dir });
            },
        }
        i = i + 1;
    }
    Ok(steps)
}

} // verus!
