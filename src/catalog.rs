use vstd::prelude::*;
use vstd::string::*;
use vstd::multiset::Multiset;

use crate::models::{CftMilestone, CftMilestoneResponse, CftPlatformDownload, VersionInfo, VersionSource, VersionView};
use crate::order::{lemma_insert_to_multiset, lemma_map_insert};
use crate::text::{parse_u32, parse_u32_spec, str_eq};

verus! {

broadcast use vstd::seq_lib::group_to_multiset_ensures;

/// Address of a snapshot build, before its build number.
pub const SNAPSHOT_URL_PREFIX: &'static str = "https://commondatastorage.googleapis.com/chromium-browser-snapshots/Win_x64/";

/// Address of a snapshot build, after its build number.
pub const SNAPSHOT_URL_SUFFIX: &'static str = "/chrome-win.zip";

/// The platform whose downloads the live catalog is read for.
pub const TARGET_PLATFORM: &'static str = "win64";

/// Number of rows of the compiled-in table.
pub const LEGACY_COUNT: usize = 11;

/// Download address of the snapshot build `revision`.
pub open spec fn snapshot_url(revision: Seq<char>) -> Seq<char> {
    SNAPSHOT_URL_PREFIX@ + revision + SNAPSHOT_URL_SUFFIX@
}

/// Row `i` of the compiled-in table: milestone, full version, build number.
pub open spec fn legacy_row(i: int) -> (u32, Seq<char>, Seq<char>) {
    if i == 0 { (80, "80.0.3987.163"@, "722274"@) }
    else if i == 1 { (83, "83.0.4103.116"@, "756071"@) }
    else if i == 2 { (85, "85.0.4183.121"@, "818858"@) }
    else if i == 3 { (88, "88.0.4324.150"@, "827102"@) }
    else if i == 4 { (91, "91.0.4472.124"@, "870758"@) }
    else if i == 5 { (95, "95.0.4638.69"@, "929999"@) }
    else if i == 6 { (99, "99.0.4844.84"@, "972766"@) }
    else if i == 7 { (103, "103.0.5060.134"@, "1003031"@) }
    else if i == 8 { (106, "106.0.5249.119"@, "1036745"@) }
    else if i == 9 { (109, "109.0.5414.119"@, "1083080"@) }
    else { (112, "112.0.5615.121"@, "1108766"@) }
}

/// The catalog entry that row `i` of the compiled-in table stands for.
pub open spec fn legacy_view(i: int) -> VersionView {
    VersionView {
        milestone: legacy_row(i).0,
        version: legacy_row(i).1,
        download_url: snapshot_url(legacy_row(i).2),
        source: VersionSource::ChromiumSnapshot,
    }
}

/// The whole compiled-in table as catalog entries.
pub open spec fn legacy_views() -> Seq<VersionView> {
    Seq::new(LEGACY_COUNT as nat, |i: int| legacy_view(i))
}

/// Whether `m` is a milestone of the compiled-in table.
pub open spec fn is_legacy_milestone(m: u32) -> bool {
    exists|i: int| 0 <= i < LEGACY_COUNT && #[trigger] legacy_row(i).0 == m
}

pub open spec fn views(s: Seq<VersionInfo>) -> Seq<VersionView> {
    s.map_values(|v: VersionInfo| v@)
}

pub open spec fn milestones(s: Seq<VersionInfo>) -> Seq<u32> {
    s.map_values(|v: VersionInfo| v.milestone)
}

/// Non-decreasing by milestone.
pub open spec fn sorted_by_milestone(s: Seq<VersionInfo>) -> bool {
    forall|i: int, j: int| 0 <= i < j < s.len() ==> s[i].milestone <= s[j].milestone
}

/// The download address of the first entry of `ps` for the target platform.
pub open spec fn target_url(ps: Seq<CftPlatformDownload>) -> Option<Seq<char>>
    decreases ps.len(),
{
    if ps.len() == 0 {
        None
    } else if ps[0].platform@ == TARGET_PLATFORM@ {
        Some(ps[0].url@)
    } else {
        target_url(ps.drop_first())
    }
}

/// The catalog entry that one live record yields: none where its milestone
/// is not a positive integer or where it has no download for the target
/// platform.
pub open spec fn record_view(ms: CftMilestone) -> Option<VersionView> {
    match parse_u32_spec(ms.milestone@) {
        Some(m) => if m == 0 {
            None
        } else {
            match ms.downloads.chrome {
                None => None,
                Some(ps) => match target_url(ps@) {
                    None => None,
                    Some(url) => Some(VersionView {
                        milestone: m,
                        version: ms.version@,
                        download_url: url,
                        source: VersionSource::ChromeForTesting,
                    }),
                },
            }
        },
        None => None,
    }
}

/// The entries that a sequence of live records yields, in record order.
pub open spec fn records_views(recs: Seq<(String, CftMilestone)>) -> Seq<VersionView>
    decreases recs.len(),
{
    if recs.len() == 0 {
        Seq::empty()
    } else {
        let rest = records_views(recs.drop_last());
        match record_view(recs.last().1) {
            Some(v) => rest.push(v),
            None => rest,
        }
    }
}

fn legacy_entry(i: usize) -> (r: (u32, &'static str, &'static str))
    requires
        i < LEGACY_COUNT,
    ensures
        r.0 == legacy_row(i as int).0,
        r.1@ == legacy_row(i as int).1,
        r.2@ == legacy_row(i as int).2,
{
    if i == 0 { (80, "80.0.3987.163", "722274") }
    else if i == 1 { (83, "83.0.4103.116", "756071") }
    else if i == 2 { (85, "85.0.4183.121", "818858") }
    else if i == 3 { (88, "88.0.4324.150", "827102") }
    else if i == 4 { (91, "91.0.4472.124", "870758") }
    else if i == 5 { (95, "95.0.4638.69", "929999") }
    else if i == 6 { (99, "99.0.4844.84", "972766") }
    else if i == 7 { (103, "103.0.5060.134", "1003031") }
    else if i == 8 { (106, "106.0.5249.119", "1036745") }
    else if i == 9 { (109, "109.0.5414.119", "1083080") }
    else { (112, "112.0.5615.121", "1108766") }
}

/// The compiled-in table of snapshot builds, in table order.
pub fn get_legacy_versions() -> (r: Vec<VersionInfo>)
    ensures
        views(r@) == legacy_views(),
{
    let mut r: Vec<VersionInfo> = Vec::new();
    let mut i: usize = 0;
    while i < LEGACY_COUNT
        invariant
            i <= LEGACY_COUNT,
            r@.len() == i,
            views(r@) == legacy_views().subrange(0, i as int),
        decreases LEGACY_COUNT - i,
    {
        let (milestone, version, revision) = legacy_entry(i);
        let mut download_url = String::from_str(SNAPSHOT_URL_PREFIX);
        download_url.append(revision);
        download_url.append(SNAPSHOT_URL_SUFFIX);
        let ghost old_r = r@;
        r.push(VersionInfo {
            milestone,
            version: String::from_str(version),
            download_url,
            source: VersionSource::ChromiumSnapshot,
        });
        assert(r@[i as int]@ == legacy_view(i as int));
        assert(r@ == old_r.push(r@[i as int]));
        assert(views(r@) =~= legacy_views().subrange(0, i + 1));
        i = i + 1;
    }
    assert(legacy_views().subrange(0, LEGACY_COUNT as int) =~= legacy_views());
    r
}

fn find_target_url(ps: &Vec<CftPlatformDownload>) -> (r: Option<String>)
    ensures
        match r {
            Some(u) => target_url(ps@) == Some(u@),
            None => target_url(ps@) is None,
        },
{
    let mut i: usize = 0;
    proof {
        assert(ps@.subrange(0, ps@.len() as int) =~= ps@);
    }
    while i < ps.len()
        invariant
            i <= ps@.len(),
            target_url(ps@) == target_url(ps@.subrange(i as int, ps@.len() as int)),
        decreases ps.len() - i,
    {
        let p = &ps[i];
        assert(ps@.subrange(i as int, ps@.len() as int).drop_first()
            =~= ps@.subrange(i + 1, ps@.len() as int));
        if str_eq(p.platform.as_str(), TARGET_PLATFORM) {
            return Some(p.url.clone());
        }
        i = i + 1;
    }
    None
}

/// The catalog entry that one live record yields, if any.
pub fn record_version(ms: &CftMilestone) -> (r: Option<VersionInfo>)
    ensures
        match r {
            Some(v) => record_view(*ms) == Some(v@),
            None => record_view(*ms) is None,
        },
{
    let milestone = match parse_u32(ms.milestone.as_str()) {
        Some(m) => m,
        None => return None,
    };
    if milestone == 0 {
        return None;
    }
    let platforms = match &ms.downloads.chrome {
        Some(ps) => ps,
        None => return None,
    };
    match find_target_url(platforms) {
        Some(download_url) => Some(VersionInfo {
            milestone,
            version: ms.version.clone(),
            download_url,
            source: VersionSource::ChromeForTesting,
        }),
        None => None,
    }
}

/// Holds of the entries with milestone `k`.
pub open spec fn has_milestone(k: u32) -> spec_fn(VersionInfo) -> bool {
    |x: VersionInfo| x.milestone == k
}

/// The entries of `s` with milestone `k`, in their order in `s`.
pub open spec fn with_milestone(s: Seq<VersionInfo>, k: u32) -> Seq<VersionInfo> {
    s.filter(has_milestone(k))
}

proof fn lemma_insert_before_equal(r: Seq<VersionInfo>, p: int, x: VersionInfo, k: u32)
    requires
        0 <= p <= r.len(),
        forall|i: int| 0 <= i < p ==> #[trigger] r[i].milestone < x.milestone,
    ensures
        with_milestone(r.insert(p, x), k) == with_milestone(seq![x], k) + with_milestone(r, k),
{
    let f = has_milestone(k);
    let a = r.subrange(0, p);
    let b = r.subrange(p, r.len() as int);
    assert(r =~= a + b);
    assert(r.insert(p, x) =~= a + (seq![x] + b));
    Seq::filter_distributes_over_add(a, b, f);
    Seq::filter_distributes_over_add(seq![x], b, f);
    Seq::filter_distributes_over_add(a, seq![x] + b, f);
    if k == x.milestone {
        assert forall|i: int| 0 <= i < a.len() implies !f(a[i]) by {
            assert(a[i] == r[i]);
        }
        a.lemma_all_neg_filter_empty(f);
        assert(a.filter(f) =~= Seq::<VersionInfo>::empty());
        assert(with_milestone(r.insert(p, x), k) =~= with_milestone(seq![x], k) + with_milestone(r, k));
    } else {
        seq![x].lemma_all_neg_filter_empty(f);
        assert(seq![x].filter(f) =~= Seq::<VersionInfo>::empty());
        assert(with_milestone(r.insert(p, x), k) =~= with_milestone(seq![x], k) + with_milestone(r, k));
    }
}

/// Orders entries by milestone; entries with equal milestones keep their
/// relative order.
pub fn sort_by_milestone(v: Vec<VersionInfo>) -> (r: Vec<VersionInfo>)
    ensures
        sorted_by_milestone(r@),
        forall|k: u32| #[trigger] with_milestone(r@, k) == with_milestone(v@, k),
        r@.to_multiset() == v@.to_multiset(),
        views(r@).to_multiset() == views(v@).to_multiset(),
        milestones(r@).to_multiset() == milestones(v@).to_multiset(),
{
    let mut rest = v;
    let mut r: Vec<VersionInfo> = Vec::new();
    while rest.len() > 0
        invariant
            sorted_by_milestone(r@),
            rest@.len() <= v@.len(),
            rest@ == v@.subrange(0, rest@.len() as int),
            forall|k: u32| #[trigger] with_milestone(r@, k)
                == with_milestone(v@.subrange(rest@.len() as int, v@.len() as int), k),
            r@.to_multiset().add(rest@.to_multiset()) == v@.to_multiset(),
            views(r@).to_multiset().add(views(rest@).to_multiset()) == views(v@).to_multiset(),
            milestones(r@).to_multiset().add(milestones(rest@).to_multiset())
                == milestones(v@).to_multiset(),
        decreases rest.len(),
    {
        let ghost before = rest@;
        let x = rest.pop().unwrap();
        proof {
            assert(before =~= rest@.push(x));
            assert(views(before) =~= views(rest@).push(x@));
            assert(milestones(before) =~= milestones(rest@).push(x.milestone));
        }
        let mut p: usize = 0;
        while p < r.len() && r[p].milestone < x.milestone
            invariant
                p <= r@.len(),
                forall|k: int| 0 <= k < p ==> #[trigger] r@[k].milestone < x.milestone,
            decreases r.len() - p,
        {
            p = p + 1;
        }
        let ghost old_r = r@;
        r.insert(p, x);
        proof {
            lemma_insert_to_multiset(old_r, p as int, x);
            let n = before.len() as int;
            assert(x == v@[n - 1]);
            let s_old = v@.subrange(n, v@.len() as int);
            assert(v@.subrange(n - 1, v@.len() as int) =~= seq![x] + s_old);
            assert(rest@ =~= v@.subrange(0, rest@.len() as int));
            assert forall|k: u32| #[trigger] with_milestone(r@, k)
                == with_milestone(v@.subrange(rest@.len() as int, v@.len() as int), k) by {
                lemma_insert_before_equal(old_r, p as int, x, k);
                Seq::filter_distributes_over_add(seq![x], s_old, has_milestone(k));
            }
            lemma_map_insert(old_r, p as int, x, |v: VersionInfo| v@);
            lemma_insert_to_multiset(views(old_r), p as int, x@);
            lemma_map_insert(old_r, p as int, x, |v: VersionInfo| v.milestone);
            lemma_insert_to_multiset(milestones(old_r), p as int, x.milestone);
            assert forall|i: int, j: int| 0 <= i < j < r@.len() implies r@[i].milestone
                <= r@[j].milestone by {
                if p < old_r.len() {
                    assert(x.milestone <= old_r[p as int].milestone);
                }
            }
            assert(r@.to_multiset().add(rest@.to_multiset()) =~= v@.to_multiset());
            assert(views(r@).to_multiset().add(views(rest@).to_multiset())
                =~= views(v@).to_multiset());
            assert(milestones(r@).to_multiset().add(milestones(rest@).to_multiset())
                =~= milestones(v@).to_multiset());
        }
    }
    proof {
        assert(v@.subrange(0, v@.len() as int) =~= v@);
        assert(rest@.to_multiset() =~= Multiset::empty());
        assert(views(rest@).to_multiset() =~= Multiset::empty());
        assert(milestones(rest@).to_multiset() =~= Multiset::empty());
    }
    r
}

/// The catalog entries that the live document yields, ordered by milestone.
/// Records without a positive milestone or without a download for the
/// target platform yield nothing.
pub fn cft_versions(resp: &CftMilestoneResponse) -> (r: Vec<VersionInfo>)
    ensures
        sorted_by_milestone(r@),
        views(r@).to_multiset() == records_views(resp.milestones@).to_multiset(),
{
    let recs = &resp.milestones;
    let mut found: Vec<VersionInfo> = Vec::new();
    let mut i: usize = 0;
    while i < recs.len()
        invariant
            i <= recs@.len(),
            views(found@) == records_views(recs@.subrange(0, i as int)),
        decreases recs.len() - i,
    {
        assert(recs@.subrange(0, i + 1).drop_last() =~= recs@.subrange(0, i as int));
        match record_version(&recs[i].1) {
            Some(v) => {
                found.push(v);
                assert(views(found@) =~= records_views(recs@.subrange(0, i + 1)));
            },
            None => {},
        }
        i = i + 1;
    }
    assert(recs@.subrange(0, recs@.len() as int) =~= recs@);
    sort_by_milestone(found)
}

/// Both lists together, ordered by milestone.
pub fn merge_versions(legacy: Vec<VersionInfo>, live: Vec<VersionInfo>) -> (r: Vec<VersionInfo>)
    ensures
        sorted_by_milestone(r@),
        views(r@).to_multiset() == (views(legacy@) + views(live@)).to_multiset(),
        milestones(r@).to_multiset() == (milestones(legacy@) + milestones(live@)).to_multiset(),
        forall|k: u32| #[trigger] with_milestone(r@, k) == with_milestone(legacy@ + live@, k),
{
    let mut all = legacy;
    let mut rest = live;
    all.append(&mut rest);
    assert(all@ == legacy@ + live@);
    assert(views(all@) =~= views(legacy@) + views(live@));
    assert(milestones(all@) =~= milestones(legacy@) + milestones(live@));
    sort_by_milestone(all)
}

/// The full catalog: the compiled-in table and the live entries, ordered by
/// milestone.
pub fn all_versions(live: Vec<VersionInfo>) -> (r: Vec<VersionInfo>)
    ensures
        sorted_by_milestone(r@),
        views(r@).to_multiset() == (legacy_views() + views(live@)).to_multiset(),
        milestones(r@).to_multiset() == (legacy_milestones() + milestones(live@)).to_multiset(),
        forall|k: u32| #[trigger] views(r@).filter(view_has_milestone(k))
            == (legacy_views() + views(live@)).filter(view_has_milestone(k)),
{
    let legacy = get_legacy_versions();
    assert(views(legacy@).len() == legacy@.len());
    assert(legacy_views().len() == LEGACY_COUNT);
    assert forall|i: int| 0 <= i < LEGACY_COUNT implies #[trigger] milestones(legacy@)[i]
        == legacy_milestones()[i] by {
        assert(views(legacy@)[i] == legacy@[i]@);
        assert(legacy_views()[i] == legacy_view(i));
    }
    assert(milestones(legacy@) =~= legacy_milestones());
    let ghost lv = legacy@;
    let r = merge_versions(legacy, live);
    proof {
        assert(views(lv + live@) =~= legacy_views() + views(live@));
        assert forall|k: u32| #[trigger] views(r@).filter(view_has_milestone(k))
            == (legacy_views() + views(live@)).filter(view_has_milestone(k)) by {
            vstd::seq_lib::lemma_filter_view_commute(r@, has_milestone(k), view_has_milestone(k));
            vstd::seq_lib::lemma_filter_view_commute(lv + live@, has_milestone(k), view_has_milestone(k));
            assert(with_milestone(r@, k) == with_milestone(lv + live@, k));
        }
    }
    r
}

/// Holds of the catalog entries with milestone `k`.
pub open spec fn view_has_milestone(k: u32) -> spec_fn(VersionView) -> bool {
    |x: VersionView| x.milestone == k
}

/// The milestones of the compiled-in table, in table order.
pub open spec fn legacy_milestones() -> Seq<u32> {
    Seq::new(LEGACY_COUNT as nat, |i: int| legacy_row(i).0)
}

/// The first entry of `versions` with milestone `milestone`.
pub fn find_version(versions: &[VersionInfo], milestone: u32) -> (r: Option<&VersionInfo>)
    ensures
        r is None <==> (forall|k: int| 0 <= k < versions@.len() ==> #[trigger] versions@[k].milestone != milestone),
        r matches Some(v) ==> exists|i: int| 0 <= i < versions@.len() && versions@[i] == *v
            && v.milestone == milestone
            && forall|k: int| 0 <= k < i ==> #[trigger] versions@[k].milestone != milestone,
{
    let mut i: usize = 0;
    while i < versions.len()
        invariant
            i <= versions@.len(),
            forall|k: int| 0 <= k < i ==> #[trigger] versions@[k].milestone != milestone,
        decreases versions.len() - i,
    {
        if versions[i].milestone == milestone {
            return Some(&versions[i]);
        }
        i = i + 1;
    }
    None
}

/// Every milestone of the compiled-in table resolves, in the full catalog,
/// to its table row alone: a snapshot build whose download address holds
/// the row's build number. This holds where no live entry claims a
/// milestone of the table.
pub proof fn lemma_legacy_milestone_resolves(live: Seq<VersionInfo>, catalog: Seq<VersionInfo>, m: u32)
    requires
        is_legacy_milestone(m),
        forall|k: int| 0 <= k < live.len() ==> #[trigger] live[k].milestone != m,
        views(catalog).to_multiset() == (legacy_views() + views(live)).to_multiset(),
    ensures
        exists|k: int| 0 <= k < catalog.len() && #[trigger] catalog[k].milestone == m,
        forall|k: int| 0 <= k < catalog.len() && #[trigger] catalog[k].milestone == m ==> {
            &&& catalog[k].source == VersionSource::ChromiumSnapshot
            &&& exists|i: int| 0 <= i < LEGACY_COUNT && legacy_row(i).0 == m
                && catalog[k]@ == #[trigger] legacy_view(i)
                && catalog[k].download_url@.subrange(
                    SNAPSHOT_URL_PREFIX@.len() as int,
                    SNAPSHOT_URL_PREFIX@.len() + legacy_row(i).2.len() as int,
                ) == legacy_row(i).2
        },
{
    let all = legacy_views() + views(live);
    let i0 = choose|i: int| 0 <= i < LEGACY_COUNT && #[trigger] legacy_row(i).0 == m;
    assert(all[i0] == legacy_view(i0));
    assert(all.contains(legacy_view(i0)));
    assert(all.to_multiset().count(legacy_view(i0)) > 0);
    assert(views(catalog).to_multiset().count(legacy_view(i0)) > 0);
    assert(views(catalog).contains(legacy_view(i0)));
    let k0 = choose|k: int| 0 <= k < views(catalog).len() && views(catalog)[k] == legacy_view(i0);
    assert(catalog[k0].milestone == m);
    assert forall|k: int| 0 <= k < catalog.len() && #[trigger] catalog[k].milestone == m implies {
        &&& catalog[k].source == VersionSource::ChromiumSnapshot
        &&& exists|i: int| 0 <= i < LEGACY_COUNT && legacy_row(i).0 == m
            && catalog[k]@ == #[trigger] legacy_view(i)
            && catalog[k].download_url@.subrange(
                SNAPSHOT_URL_PREFIX@.len() as int,
                SNAPSHOT_URL_PREFIX@.len() + legacy_row(i).2.len() as int,
            ) == legacy_row(i).2
    } by {
        assert(views(catalog)[k] == catalog[k]@);
        assert(views(catalog).contains(catalog[k]@));
        assert(views(catalog).to_multiset().count(catalog[k]@) > 0);
        assert(all.to_multiset().count(catalog[k]@) > 0);
        assert(all.contains(catalog[k]@));
        let j = choose|j: int| 0 <= j < all.len() && all[j] == catalog[k]@;
        if j >= LEGACY_COUNT {
            assert(views(live)[j - LEGACY_COUNT] == live[j - LEGACY_COUNT]@);
            assert(false);
        }
        assert(all[j] == legacy_view(j));
        assert(legacy_row(j).0 == m);
        let rev = legacy_row(j).2;
        assert(catalog[k].download_url@ == snapshot_url(rev));
        assert(snapshot_url(rev).subrange(
            SNAPSHOT_URL_PREFIX@.len() as int,
            SNAPSHOT_URL_PREFIX@.len() + rev.len() as int,
        ) =~= rev);
        assert(catalog[k]@ == legacy_view(j));
    }
}

/// The full catalog is strictly ascending by milestone wherever the live
/// entries carry distinct milestones that the compiled-in table does not
/// hold.
pub proof fn lemma_catalog_strictly_ascending(live: Seq<VersionInfo>, catalog: Seq<VersionInfo>)
    requires
        milestones(live).no_duplicates(),
        forall|k: int| 0 <= k < live.len() ==> !is_legacy_milestone(#[trigger] live[k].milestone),
        sorted_by_milestone(catalog),
        milestones(catalog).to_multiset() == (legacy_milestones() + milestones(live)).to_multiset(),
    ensures
        forall|i: int, j: int| 0 <= i < j < catalog.len() ==> catalog[i].milestone < catalog[j].milestone,
{
    let all = legacy_milestones() + milestones(live);
    assert forall|a: int, b: int| 0 <= a < all.len() && 0 <= b < all.len() && a != b implies all[a]
        != all[b] by {
        if a < LEGACY_COUNT && b >= LEGACY_COUNT {
            assert(all[b] == live[b - LEGACY_COUNT].milestone);
            assert(all[a] == legacy_row(a).0);
        } else if b < LEGACY_COUNT && a >= LEGACY_COUNT {
            assert(all[a] == live[a - LEGACY_COUNT].milestone);
            assert(all[b] == legacy_row(b).0);
        } else if a >= LEGACY_COUNT && b >= LEGACY_COUNT {
            assert(all[a] == milestones(live)[a - LEGACY_COUNT]);
            assert(all[b] == milestones(live)[b - LEGACY_COUNT]);
        }
    }
    assert(all.no_duplicates());
    all.lemma_multiset_has_no_duplicates();
    milestones(catalog).lemma_multiset_has_no_duplicates_conv();
    assert forall|i: int, j: int| 0 <= i < j < catalog.len() implies catalog[i].milestone
        < catalog[j].milestone by {
        assert(milestones(catalog)[i] == catalog[i].milestone);
        assert(milestones(catalog)[j] == catalog[j].milestone);
    }
}

/// Strictly ascending by milestone.
pub open spec fn views_strictly_ascending(s: Seq<VersionView>) -> bool {
    forall|i: int, j: int| 0 <= i < j < s.len() ==> s[i].milestone < s[j].milestone
}

proof fn lemma_ascending_views_determined(a: Seq<VersionView>, b: Seq<VersionView>)
    requires
        views_strictly_ascending(a),
        views_strictly_ascending(b),
        a.to_multiset() == b.to_multiset(),
    ensures
        a == b,
    decreases a.len(),
{
    if a.len() == 0 {
        assert(b.to_multiset().len() == 0);
        assert(b =~= a);
    } else {
        assert(a.to_multiset().count(a[0]) > 0);
        assert(b.contains(a[0]));
        assert(b.len() > 0);
        assert(b.to_multiset().count(b[0]) > 0);
        assert(a.contains(b[0]));
        let i = choose|i: int| 0 <= i < a.len() && a[i] == b[0];
        let j = choose|j: int| 0 <= j < b.len() && b[j] == a[0];
        if i > 0 {
            assert(a[i].milestone > a[0].milestone);
            if j > 0 {
                assert(b[j].milestone > b[0].milestone);
            }
            assert(false);
        }
        assert(a[0] == b[0]);
        assert(a.remove(0) =~= a.drop_first());
        assert(b.remove(0) =~= b.drop_first());
        assert(a.drop_first().to_multiset() =~= b.drop_first().to_multiset());
        lemma_ascending_views_determined(a.drop_first(), b.drop_first());
        assert(a =~= seq![a[0]] + a.drop_first());
        assert(b =~= seq![b[0]] + b.drop_first());
    }
}

/// The full catalog is determined by the live entries: two results of
/// aggregating the same live entries are the same entries in the same
/// order, wherever the live entries carry distinct milestones that the
/// compiled-in table does not hold.
pub proof fn lemma_catalog_determined(live: Seq<VersionInfo>, a: Seq<VersionInfo>, b: Seq<VersionInfo>)
    requires
        milestones(live).no_duplicates(),
        forall|k: int| 0 <= k < live.len() ==> !is_legacy_milestone(#[trigger] live[k].milestone),
        sorted_by_milestone(a),
        views(a).to_multiset() == (legacy_views() + views(live)).to_multiset(),
        milestones(a).to_multiset() == (legacy_milestones() + milestones(live)).to_multiset(),
        sorted_by_milestone(b),
        views(b).to_multiset() == (legacy_views() + views(live)).to_multiset(),
        milestones(b).to_multiset() == (legacy_milestones() + milestones(live)).to_multiset(),
    ensures
        views(a) == views(b),
{
    lemma_catalog_strictly_ascending(live, a);
    lemma_catalog_strictly_ascending(live, b);
    assert(views_strictly_ascending(views(a)));
    assert(views_strictly_ascending(views(b)));
    lemma_ascending_views_determined(views(a), views(b));
}

proof fn lemma_records_views_members(recs: Seq<(String, CftMilestone)>, v: VersionView)
    ensures
        records_views(recs).contains(v) <==> exists|i: int| 0 <= i < recs.len()
            && #[trigger] record_view(recs[i].1) == Some(v),
    decreases recs.len(),
{
    if recs.len() > 0 {
        let init = recs.drop_last();
        lemma_records_views_members(init, v);
        let rest = records_views(init);
        if records_views(recs).contains(v) {
            let j = choose|j: int| 0 <= j < records_views(recs).len() && records_views(recs)[j] == v;
            if j < rest.len() {
                assert(rest.contains(v));
                let i = choose|i: int| 0 <= i < init.len() && #[trigger] record_view(init[i].1) == Some(v);
                assert(recs[i] == init[i]);
            } else {
                assert(record_view(recs[recs.len() - 1].1) == Some(v));
            }
        }
        if exists|i: int| 0 <= i < recs.len() && #[trigger] record_view(recs[i].1) == Some(v) {
            let i = choose|i: int| 0 <= i < recs.len() && #[trigger] record_view(recs[i].1) == Some(v);
            if i < recs.len() - 1 {
                assert(init[i] == recs[i]);
                assert(rest.contains(v));
                let j = choose|j: int| 0 <= j < rest.len() && rest[j] == v;
                match record_view(recs.last().1) {
                    Some(w) => assert(records_views(recs)[j] == v),
                    None => assert(records_views(recs)[j] == v),
                }
            } else {
                assert(records_views(recs) == rest.push(v));
                assert(records_views(recs)[rest.len() as int] == v);
            }
        }
    }
}

/// A record whose milestone is a positive integer but which has no download
/// for the target platform (none at all, or none for that platform) yields
/// nothing: where no other record claims its milestone, the live list has
/// no entry with that milestone.
pub proof fn lemma_record_without_target_is_dropped(
    recs: Seq<(String, CftMilestone)>,
    list: Seq<VersionInfo>,
    i: int,
    m: u32,
)
    requires
        0 <= i < recs.len(),
        parse_u32_spec(recs[i].1.milestone@) == Some(m),
        match recs[i].1.downloads.chrome {
            None => true,
            Some(ps) => target_url(ps@) is None,
        },
        forall|j: int| 0 <= j < recs.len() && j != i ==> parse_u32_spec(#[trigger] recs[j].1.milestone@)
            != Some(m),
        views(list).to_multiset() == records_views(recs).to_multiset(),
    ensures
        forall|k: int| 0 <= k < list.len() ==> #[trigger] list[k].milestone != m,
{
    assert forall|k: int| 0 <= k < list.len() implies #[trigger] list[k].milestone != m by {
        if list[k].milestone == m {
            let v = list[k]@;
            assert(views(list)[k] == v);
            assert(views(list).contains(v));
            assert(views(list).to_multiset().count(v) > 0);
            assert(records_views(recs).contains(v));
            lemma_records_views_members(recs, v);
            let j = choose|j: int| 0 <= j < recs.len() && #[trigger] record_view(recs[j].1) == Some(v);
            assert(parse_u32_spec(recs[j].1.milestone@) == Some(m));
        }
    }
}

/// A record whose milestone is not a positive integer (such as `"abc"`)
/// yields nothing, and reading goes on: every record that yields an entry
/// has that entry in the live list.
pub proof fn lemma_unparseable_record_is_skipped(recs: Seq<(String, CftMilestone)>, list: Seq<VersionInfo>, i: int)
    requires
        0 <= i < recs.len(),
        parse_u32_spec(recs[i].1.milestone@) is None || parse_u32_spec(recs[i].1.milestone@) == Some(0u32),
        views(list).to_multiset() == records_views(recs).to_multiset(),
    ensures
        record_view(recs[i].1) is None,
        forall|j: int| 0 <= j < recs.len() && (#[trigger] record_view(recs[j].1)) is Some ==> exists|k: int|
            0 <= k < list.len() && list[k]@ == record_view(recs[j].1).unwrap(),
{
    assert forall|j: int| 0 <= j < recs.len() && (#[trigger] record_view(recs[j].1)) is Some implies exists|k: int|
        0 <= k < list.len() && list[k]@ == record_view(recs[j].1).unwrap() by {
        let v = record_view(recs[j].1).unwrap();
        lemma_records_views_members(recs, v);
        assert(records_views(recs).contains(v));
        assert(records_views(recs).to_multiset().count(v) > 0);
        assert(views(list).contains(v));
        let k = choose|k: int| 0 <= k < views(list).len() && views(list)[k] == v;
        assert(list[k]@ == v);
    }
}

proof fn lemma_filter_first<A>(s: Seq<A>, p: spec_fn(A) -> bool, i: int)
    requires
        0 <= i < s.len(),
        p(s[i]),
        forall|j: int| 0 <= j < i ==> !p(#[trigger] s[j]),
    ensures
        s.filter(p).len() > 0,
        s.filter(p)[0] == s[i],
    decreases s.len(),
{
    reveal(Seq::filter);
    let init = s.drop_last();
    if i < s.len() - 1 {
        lemma_filter_first(init, p, i);
    } else {
        assert forall|j: int| 0 <= j < init.len() implies !p(init[j]) by {
            assert(init[j] == s[j]);
        }
        init.lemma_all_neg_filter_empty(p);
        assert(init.filter(p).len() == 0);
    }
}

/// Looking up a milestone of the compiled-in table in the full catalog (the
/// first entry with that milestone) finds its table row: a snapshot build
/// whose download address holds the row's build number. Table entries come
/// before live entries of the same milestone, so this holds whatever the
/// live entries are.
pub proof fn lemma_legacy_lookup(live: Seq<VersionInfo>, catalog: Seq<VersionInfo>, m: u32, idx: int)
    requires
        is_legacy_milestone(m),
        forall|k: u32| #[trigger] views(catalog).filter(view_has_milestone(k))
            == (legacy_views() + views(live)).filter(view_has_milestone(k)),
        0 <= idx < catalog.len(),
        catalog[idx].milestone == m,
        forall|j: int| 0 <= j < idx ==> #[trigger] catalog[j].milestone != m,
    ensures
        catalog[idx].source == VersionSource::ChromiumSnapshot,
        exists|i: int| 0 <= i < LEGACY_COUNT && legacy_row(i).0 == m
            && catalog[idx]@ == #[trigger] legacy_view(i)
            && catalog[idx].download_url@.subrange(
                SNAPSHOT_URL_PREFIX@.len() as int,
                SNAPSHOT_URL_PREFIX@.len() + legacy_row(i).2.len() as int,
            ) == legacy_row(i).2,
{
    let f = view_has_milestone(m);
    let all = legacy_views() + views(live);
    let i0 = choose|i: int| 0 <= i < LEGACY_COUNT && #[trigger] legacy_row(i).0 == m;
    assert forall|j: int| 0 <= j < idx implies !f(#[trigger] views(catalog)[j]) by {
        assert(views(catalog)[j] == catalog[j]@);
    }
    assert(views(catalog)[idx] == catalog[idx]@);
    lemma_filter_first(views(catalog), f, idx);
    assert forall|j: int| 0 <= j < i0 implies !f(#[trigger] all[j]) by {
        assert(all[j] == legacy_view(j));
    }
    assert(all[i0] == legacy_view(i0));
    lemma_filter_first(all, f, i0);
    assert(views(catalog).filter(f) == all.filter(f));
    assert(catalog[idx]@ == legacy_view(i0));
    let rev = legacy_row(i0).2;
    assert(snapshot_url(rev).subrange(
        SNAPSHOT_URL_PREFIX@.len() as int,
        SNAPSHOT_URL_PREFIX@.len() + rev.len() as int,
    ) =~= rev);
}

} // verus!
