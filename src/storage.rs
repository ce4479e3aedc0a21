use vstd::prelude::*;
use vstd::string::*;

use crate::models::{InstalledVersion, ToolError};
use crate::order::{lemma_insert_to_multiset, lemma_map_insert};
use crate::text::{decimal, decimal_string, eq_ignore_ascii_case, eq_ignore_ascii_case_spec, parse_u32, parse_u32_spec, str_eq};

verus! {

broadcast use vstd::seq_lib::group_to_multiset_ensures;

/// Name of the data directory under the user's home directory.
pub const ROOT_DIR_NAME: &'static str = ".chrome-tool";

pub const VERSIONS_DIR_NAME: &'static str = "versions";

pub const CACHE_DIR_NAME: &'static str = "cache";

pub const PROFILES_DIR_NAME: &'static str = "profiles";

/// File name of the browser executable, compared without regard to the
/// case of ASCII letters.
pub const EXE_NAME: &'static str = "chrome.exe";

/// A path as the texts of its components.
pub open spec fn path_view(p: Seq<String>) -> Seq<Seq<char>> {
    p.map_values(|s: String| s@)
}

/// Name of the cached archive of `milestone`.
pub open spec fn archive_name(milestone: u32) -> Seq<char> {
    "chrome-"@ + decimal(milestone as nat) + ".zip"@
}

/// Whether a file, given by its path relative to a version directory, is
/// the browser executable.
pub open spec fn is_exe_file(rel: Seq<Seq<char>>) -> bool {
    rel.len() > 0 && eq_ignore_ascii_case_spec(rel.last(), EXE_NAME@)
}

fn pushed(base: &Vec<String>, name: String) -> (r: Vec<String>)
    ensures
        r@ == base@.push(name),
        path_view(r@) == path_view(base@).push(name@),
{
    let mut r = copy_path(base);
    r.push(name);
    assert(path_view(r@) =~= path_view(base@).push(name@));
    r
}

fn copy_path(p: &Vec<String>) -> (r: Vec<String>)
    ensures
        r@ == p@,
{
    let mut r: Vec<String> = Vec::new();
    let mut i: usize = 0;
    while i < p.len()
        invariant
            i <= p@.len(),
            r@ == p@.subrange(0, i as int),
        decreases p.len() - i,
    {
        r.push(p[i].clone());
        assert(r@ =~= p@.subrange(0, i + 1));
        i = i + 1;
    }
    assert(p@.subrange(0, p@.len() as int) =~= p@);
    r
}

pub(crate) fn joined(base: &Vec<String>, rel: &Vec<String>) -> (r: Vec<String>)
    ensures
        r@ == base@ + rel@,
{
    let mut r = copy_path(base);
    let mut i: usize = 0;
    while i < rel.len()
        invariant
            i <= rel@.len(),
            r@ == base@ + rel@.subrange(0, i as int),
        decreases rel.len() - i,
    {
        r.push(rel[i].clone());
        assert(r@ =~= base@ + rel@.subrange(0, i + 1));
        i = i + 1;
    }
    assert(rel@.subrange(0, rel@.len() as int) =~= rel@);
    r
}

/// The data directory under the home directory `home`; an error where the
/// home directory is unknown.
pub fn get_root_dir(home: Option<Vec<String>>) -> (r: Result<Vec<String>, ToolError>)
    ensures
        home is None ==> r == Err::<Vec<String>, ToolError>(ToolError::NoHomeDirectory),
        home matches Some(h) ==> r matches Ok(p) && path_view(p@) == path_view(h@).push(ROOT_DIR_NAME@),
{
    match home {
        None => Err(ToolError::NoHomeDirectory),
        Some(h) => Ok(pushed(&h, String::from_str(ROOT_DIR_NAME))),
    }
}

/// Where installed versions live.
pub fn get_versions_dir(root: &Vec<String>) -> (r: Vec<String>)
    ensures
        path_view(r@) == path_view(root@).push(VERSIONS_DIR_NAME@),
{
    pushed(root, String::from_str(VERSIONS_DIR_NAME))
}

/// Where downloaded archives are kept until they are extracted.
pub fn get_cache_dir(root: &Vec<String>) -> (r: Vec<String>)
    ensures
        path_view(r@) == path_view(root@).push(CACHE_DIR_NAME@),
{
    pushed(root, String::from_str(CACHE_DIR_NAME))
}

/// Where the per-version browser profiles live.
pub fn get_profiles_dir(root: &Vec<String>) -> (r: Vec<String>)
    ensures
        path_view(r@) == path_view(root@).push(PROFILES_DIR_NAME@),
{
    pushed(root, String::from_str(PROFILES_DIR_NAME))
}

/// The installation directory of `milestone`.
pub fn get_version_dir(root: &Vec<String>, milestone: u32) -> (r: Vec<String>)
    ensures
        path_view(r@) == path_view(root@).push(VERSIONS_DIR_NAME@).push(decimal(milestone as nat)),
{
    let versions = get_versions_dir(root);
    pushed(&versions, decimal_string(milestone))
}

/// The profile directory of `milestone`.
pub fn get_profile_dir(root: &Vec<String>, milestone: u32) -> (r: Vec<String>)
    ensures
        path_view(r@) == path_view(root@).push(PROFILES_DIR_NAME@).push(decimal(milestone as nat)),
{
    let profiles = get_profiles_dir(root);
    pushed(&profiles, decimal_string(milestone))
}

/// The cached archive of `milestone`.
pub fn get_archive_path(root: &Vec<String>, milestone: u32) -> (r: Vec<String>)
    ensures
        path_view(r@) == path_view(root@).push(CACHE_DIR_NAME@).push(archive_name(milestone)),
{
    let cache = get_cache_dir(root);
    let mut name = String::from_str("chrome-");
    let digits = decimal_string(milestone);
    name.append(digits.as_str());
    name.append(".zip");
    proof {
        reveal_strlit("chrome-");
        reveal_strlit(".zip");
    }
    pushed(&cache, name)
}

/// The executable in a version directory, given the files below it as
/// paths relative to it, in depth-first order: the first file whose name
/// is the executable's name, ignoring ASCII case.
pub fn find_chrome_exe(version_dir: &Vec<String>, files: &Vec<Vec<String>>) -> (r: Option<Vec<String>>)
    ensures
        r is None <==> forall|k: int| 0 <= k < files@.len() ==> !is_exe_file(path_view(#[trigger] files@[k]@)),
        r matches Some(p) ==> exists|i: int| 0 <= i < files@.len()
            && is_exe_file(path_view(files@[i]@))
            && p@ == version_dir@ + files@[i]@
            && forall|k: int| 0 <= k < i ==> !is_exe_file(path_view(#[trigger] files@[k]@)),
{
    let mut i: usize = 0;
    while i < files.len()
        invariant
            i <= files@.len(),
            forall|k: int| 0 <= k < i ==> !is_exe_file(path_view(#[trigger] files@[k]@)),
        decreases files.len() - i,
    {
        let rel = &files[i];
        let n = rel.len();
        if n > 0 {
            assert(path_view(rel@).last() == rel@[n - 1]@);
            if eq_ignore_ascii_case(rel[n - 1].as_str(), EXE_NAME) {
                return Some(joined(version_dir, rel));
            }
        }
        i = i + 1;
    }
    None
}

/// What one subdirectory of the versions directory contributes to the list
/// of installed versions: its milestone and executable path, where its name
/// is the decimal notation of a milestone (the milestone's own version
/// directory) and it holds the executable.
pub open spec fn installed_entry(versions_dir: Seq<String>, name: String, files: Seq<Vec<String>>) -> Option<(u32, Seq<String>)> {
    match parse_u32_spec(name@) {
        None => None,
        Some(m) => if name@ != decimal(m as nat) {
            None
        } else if exists|i: int| 0 <= i < files.len() && is_exe_file(path_view(#[trigger] files[i]@)) {
            let i = choose|i: int| 0 <= i < files.len() && is_exe_file(path_view(#[trigger] files[i]@))
                && forall|k: int| 0 <= k < i ==> !is_exe_file(path_view(#[trigger] files[k]@));
            Some((m, versions_dir.push(name) + files[i]@))
        } else {
            None
        },
    }
}

/// The installed versions that a listing of the versions directory yields,
/// in listing order.
pub open spec fn installed_entries(versions_dir: Seq<String>, entries: Seq<(String, Vec<Vec<String>>)>) -> Seq<(u32, Seq<String>)>
    decreases entries.len(),
{
    if entries.len() == 0 {
        Seq::empty()
    } else {
        let rest = installed_entries(versions_dir, entries.drop_last());
        match installed_entry(versions_dir, entries.last().0, entries.last().1@) {
            Some(e) => rest.push(e),
            None => rest,
        }
    }
}

pub open spec fn installed_views(s: Seq<InstalledVersion>) -> Seq<(u32, Seq<String>)> {
    s.map_values(|v: InstalledVersion| (v.milestone, v.chrome_exe@))
}

/// Non-decreasing by milestone.
pub open spec fn installed_sorted(s: Seq<InstalledVersion>) -> bool {
    forall|i: int, j: int| 0 <= i < j < s.len() ==> s[i].milestone <= s[j].milestone
}

/// The installed versions, ordered by milestone, given a listing of the
/// versions directory: each subdirectory's name with the files below it in
/// depth-first order. A subdirectory counts where its name is a milestone
/// and it holds the executable.
pub fn list_installed(versions_dir: &Vec<String>, entries: &Vec<(String, Vec<Vec<String>>)>) -> (r: Vec<InstalledVersion>)
    ensures
        installed_sorted(r@),
        installed_views(r@).to_multiset() == installed_entries(versions_dir@, entries@).to_multiset(),
{
    let mut r: Vec<InstalledVersion> = Vec::new();
    let mut i: usize = 0;
    while i < entries.len()
        invariant
            i <= entries@.len(),
            installed_sorted(r@),
            installed_views(r@).to_multiset()
                == installed_entries(versions_dir@, entries@.subrange(0, i as int)).to_multiset(),
        decreases entries.len() - i,
    {
        let ghost prefix = entries@.subrange(0, i + 1);
        assert(prefix.drop_last() =~= entries@.subrange(0, i as int));
        let name = &entries[i].0;
        let files = &entries[i].1;
        let parsed = match parse_u32(name.as_str()) {
            Some(m) => if str_eq(name.as_str(), decimal_string(m).as_str()) {
                Some(m)
            } else {
                None
            },
            None => None,
        };
        if let Some(milestone) = parsed {
            let dir = pushed(versions_dir, name.clone());
            if let Some(exe) = find_chrome_exe(&dir, files) {
                proof {
                    let j = choose|j: int| 0 <= j < files@.len() && is_exe_file(path_view(files@[j]@))
                        && exe@ == dir@ + files@[j]@
                        && forall|k: int| 0 <= k < j ==> !is_exe_file(path_view(#[trigger] files@[k]@));
                    let c = choose|c: int| 0 <= c < files@.len() && is_exe_file(path_view(#[trigger] files@[c]@))
                        && forall|k: int| 0 <= k < c ==> !is_exe_file(path_view(#[trigger] files@[k]@));
                    assert(c == j) by {
                        if c < j { assert(!is_exe_file(path_view(files@[c]@))); }
                        if j < c { assert(!is_exe_file(path_view(files@[j]@))); }
                    }
                    assert(installed_entry(versions_dir@, *name, files@) == Some((milestone, exe@)));
                }
                let item = InstalledVersion { milestone, chrome_exe: exe };
                let mut p: usize = 0;
                while p < r.len() && r[p].milestone <= milestone
                    invariant
                        p <= r@.len(),
                        forall|k: int| 0 <= k < p ==> #[trigger] r@[k].milestone <= milestone,
                    decreases r.len() - p,
                {
                    p = p + 1;
                }
                let ghost old_r = r@;
                let ghost f = |v: InstalledVersion| (v.milestone, v.chrome_exe@);
                r.insert(p, item);
                proof {
                    lemma_map_insert(old_r, p as int, item, f);
                    assert(installed_views(old_r) == old_r.map_values(f));
                    assert(installed_views(r@) == r@.map_values(f));
                    lemma_insert_to_multiset(installed_views(old_r), p as int, f(item));
                    assert forall|a: int, b: int| 0 <= a < b < r@.len() implies r@[a].milestone
                        <= r@[b].milestone by {
                        if p < old_r.len() {
                            assert(milestone < old_r[p as int].milestone);
                        }
                    }
                    assert(installed_views(r@).to_multiset() =~= installed_entries(versions_dir@, prefix).to_multiset());
                }
            } else {
                proof {
                    assert(installed_entry(versions_dir@, *name, files@) is None);
                }
            }
        }
        i = i + 1;
    }
    assert(entries@.subrange(0, entries@.len() as int) =~= entries@);
    r
}

} // verus!
