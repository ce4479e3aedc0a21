use chrome_tool::catalog::{all_versions, cft_versions, find_version, get_legacy_versions, merge_versions, record_version, sort_by_milestone};
use chrome_tool::models::{CftDownloads, CftMilestone, CftMilestoneResponse, CftPlatformDownload, VersionInfo, VersionSource};

fn platform(p: &str, url: &str) -> CftPlatformDownload {
    CftPlatformDownload { platform: p.to_string(), url: url.to_string() }
}

fn record(milestone: &str, version: &str, chrome: Option<Vec<CftPlatformDownload>>) -> CftMilestone {
    CftMilestone {
        milestone: milestone.to_string(),
        version: version.to_string(),
        downloads: CftDownloads { chrome },
    }
}

fn live(m: u32) -> VersionInfo {
    VersionInfo {
        milestone: m,
        version: format!("{}.0.0.0", m),
        download_url: format!("https://example.test/{}/chrome-win64.zip", m),
        source: VersionSource::ChromeForTesting,
    }
}

#[test]
fn legacy_table_has_eleven_snapshot_entries() {
    let v = get_legacy_versions();
    assert_eq!(v.len(), 11);
    assert_eq!(v[0].milestone, 80);
    assert_eq!(v[0].version, "80.0.3987.163");
    assert_eq!(
        v[0].download_url,
        "https://commondatastorage.googleapis.com/chromium-browser-snapshots/Win_x64/722274/chrome-win.zip"
    );
    assert_eq!(v[10].milestone, 112);
    assert_eq!(v[10].version, "112.0.5615.121");
    assert!(v.iter().all(|x| x.source == VersionSource::ChromiumSnapshot));
}

#[test]
fn legacy_milestones_resolve_to_their_build() {
    let revisions = [
        (80, "722274"), (83, "756071"), (85, "818858"), (88, "827102"), (91, "870758"),
        (95, "929999"), (99, "972766"), (103, "1003031"), (106, "1036745"), (109, "1083080"),
        (112, "1108766"),
    ];
    let catalog = all_versions(vec![live(120), live(113)]);
    for (m, rev) in revisions {
        let v = find_version(&catalog, m).expect("legacy milestone present");
        assert!(v.download_url.contains(rev));
        assert_eq!(v.source, VersionSource::ChromiumSnapshot);
    }
}

#[test]
fn table_entry_comes_before_live_entry_of_same_milestone() {
    let catalog = all_versions(vec![live(80), live(113)]);
    let v = find_version(&catalog, 80).expect("milestone present");
    assert_eq!(v.source, VersionSource::ChromiumSnapshot);
    assert!(v.download_url.contains("722274"));
    assert_eq!(catalog.iter().filter(|x| x.milestone == 80).count(), 2);
}

#[test]
fn catalog_is_strictly_ascending_and_repeatable() {
    let a = all_versions(vec![live(130), live(113), live(121)]);
    let b = all_versions(vec![live(130), live(113), live(121)]);
    let ms: Vec<u32> = a.iter().map(|v| v.milestone).collect();
    assert_eq!(ms, vec![80, 83, 85, 88, 91, 95, 99, 103, 106, 109, 112, 113, 121, 130]);
    assert!(ms.windows(2).all(|w| w[0] < w[1]));
    let ms_b: Vec<u32> = b.iter().map(|v| v.milestone).collect();
    assert_eq!(ms, ms_b);
    let urls_a: Vec<String> = a.iter().map(|v| v.download_url.clone()).collect();
    let urls_b: Vec<String> = b.iter().map(|v| v.download_url.clone()).collect();
    assert_eq!(urls_a, urls_b);
}

#[test]
fn record_without_target_platform_is_dropped() {
    let resp = CftMilestoneResponse {
        milestones: vec![
            ("113".to_string(), record("113", "113.0.5672.63", Some(vec![platform("win64", "https://x.test/113.zip")]))),
            ("114".to_string(), record("114", "114.0.5735.90", Some(vec![platform("linux64", "https://x.test/114-linux.zip"), platform("mac-x64", "https://x.test/114-mac.zip")]))),
            ("115".to_string(), record("115", "115.0.5790.170", None)),
        ],
    };
    let v = cft_versions(&resp);
    assert_eq!(v.len(), 1);
    assert_eq!(v[0].milestone, 113);
    assert_eq!(v[0].download_url, "https://x.test/113.zip");
    assert_eq!(v[0].source, VersionSource::ChromeForTesting);
    let catalog = all_versions(v);
    assert!(find_version(&catalog, 114).is_none());
    assert!(find_version(&catalog, 115).is_none());
}

#[test]
fn record_with_unparseable_milestone_is_skipped() {
    let resp = CftMilestoneResponse {
        milestones: vec![
            ("abc".to_string(), record("abc", "1.2.3.4", Some(vec![platform("win64", "https://x.test/abc.zip")]))),
            ("0".to_string(), record("0", "0.0.0.0", Some(vec![platform("win64", "https://x.test/0.zip")]))),
            ("125".to_string(), record("125", "125.0.6422.141", Some(vec![platform("linux64", "https://x.test/l.zip"), platform("win64", "https://x.test/125.zip")]))),
            ("120".to_string(), record("120", "120.0.6099.109", Some(vec![platform("win64", "https://x.test/120.zip")]))),
        ],
    };
    let v = cft_versions(&resp);
    let ms: Vec<u32> = v.iter().map(|x| x.milestone).collect();
    assert_eq!(ms, vec![120, 125]);
    assert_eq!(v[1].download_url, "https://x.test/125.zip");
    assert_eq!(v[1].version, "125.0.6422.141");
}

#[test]
fn record_version_takes_first_target_entry() {
    let r = record("+130", "130.0.1.2", Some(vec![platform("win64", "https://x.test/a.zip"), platform("win64", "https://x.test/b.zip")]));
    let v = record_version(&r).expect("record yields an entry");
    assert_eq!(v.milestone, 130);
    assert_eq!(v.download_url, "https://x.test/a.zip");
    assert!(record_version(&record("4294967296", "x", Some(vec![platform("win64", "u")]))).is_none());
    assert!(record_version(&record("", "x", Some(vec![platform("win64", "u")]))).is_none());
}

#[test]
fn sort_keeps_order_of_equal_milestones() {
    let mut a = live(100);
    a.version = "first".to_string();
    let mut b = live(100);
    b.version = "second".to_string();
    let sorted = sort_by_milestone(vec![live(120), a, live(90), b]);
    let ms: Vec<u32> = sorted.iter().map(|x| x.milestone).collect();
    assert_eq!(ms, vec![90, 100, 100, 120]);
    assert_eq!(sorted[1].version, "first");
    assert_eq!(sorted[2].version, "second");
}

#[test]
fn merge_orders_both_lists() {
    let merged = merge_versions(vec![live(5), live(1)], vec![live(3)]);
    let ms: Vec<u32> = merged.iter().map(|x| x.milestone).collect();
    assert_eq!(ms, vec![1, 3, 5]);
}

#[test]
fn find_version_returns_first_match_or_none() {
    let mut x = live(7);
    x.version = "a".to_string();
    let mut y = live(7);
    y.version = "b".to_string();
    let list = vec![live(3), x, y];
    assert_eq!(find_version(&list, 7).unwrap().version, "a");
    assert!(find_version(&list, 8).is_none());
    assert!(find_version(&[], 8).is_none());
}
