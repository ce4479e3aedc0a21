use chrome_tool::models::ToolError;
use chrome_tool::storage::{find_chrome_exe, get_archive_path, get_cache_dir, get_profile_dir, get_profiles_dir, get_root_dir, get_version_dir, get_versions_dir, list_installed};

fn path(parts: &[&str]) -> Vec<String> {
    parts.iter().map(|s| s.to_string()).collect()
}

fn root() -> Vec<String> {
    path(&["C:\\Users\\me", ".chrome-tool"])
}

#[test]
fn root_dir_needs_home() {
    assert_eq!(get_root_dir(None), Err(ToolError::NoHomeDirectory));
    assert_eq!(get_root_dir(Some(path(&["/home/me"]))), Ok(path(&["/home/me", ".chrome-tool"])));
}

#[test]
fn layout_paths() {
    let r = root();
    assert_eq!(get_versions_dir(&r), path(&["C:\\Users\\me", ".chrome-tool", "versions"]));
    assert_eq!(get_cache_dir(&r), path(&["C:\\Users\\me", ".chrome-tool", "cache"]));
    assert_eq!(get_profiles_dir(&r), path(&["C:\\Users\\me", ".chrome-tool", "profiles"]));
    assert_eq!(get_version_dir(&r, 91), path(&["C:\\Users\\me", ".chrome-tool", "versions", "91"]));
    assert_eq!(get_profile_dir(&r, 120), path(&["C:\\Users\\me", ".chrome-tool", "profiles", "120"]));
    assert_eq!(get_archive_path(&r, 80), path(&["C:\\Users\\me", ".chrome-tool", "cache", "chrome-80.zip"]));
}

#[test]
fn finds_executable_three_levels_deep_ignoring_case() {
    let dir = path(&["v", "120"]);
    let files = vec![
        path(&["readme.txt"]),
        path(&["chrome-win64", "locales", "en-US.pak"]),
        path(&["chrome-win64", "bin", "app", "Chrome.EXE"]),
        path(&["chrome.exe.sig"]),
    ];
    assert_eq!(find_chrome_exe(&dir, &files), Some(path(&["v", "120", "chrome-win64", "bin", "app", "Chrome.EXE"])));
}

#[test]
fn first_executable_in_traversal_order_wins() {
    let dir = path(&["v"]);
    let files = vec![path(&["a", "chrome.exe"]), path(&["chrome.exe"])];
    assert_eq!(find_chrome_exe(&dir, &files), Some(path(&["v", "a", "chrome.exe"])));
}

#[test]
fn no_executable_found() {
    let dir = path(&["v"]);
    assert_eq!(find_chrome_exe(&dir, &vec![]), None);
    assert_eq!(find_chrome_exe(&dir, &vec![path(&["chrome.dll"]), vec![]]), None);
}

#[test]
fn installed_list_is_sorted_and_filtered() {
    let versions = path(&["r", "versions"]);
    let entries = vec![
        ("120".to_string(), vec![path(&["chrome-win64", "chrome.exe"])]),
        ("notes".to_string(), vec![path(&["chrome.exe"])]),
        ("91".to_string(), vec![path(&["chrome-win", "CHROME.EXE"])]),
        ("100".to_string(), vec![path(&["half.pak"])]),
        ("080".to_string(), vec![path(&["chrome.exe"])]),
        ("+85".to_string(), vec![path(&["chrome.exe"])]),
    ];
    let list = list_installed(&versions, &entries);
    assert_eq!(list.len(), 2);
    assert_eq!(list[0].milestone, 91);
    assert_eq!(list[0].chrome_exe, path(&["r", "versions", "91", "chrome-win", "CHROME.EXE"]));
    assert_eq!(list[1].milestone, 120);
    assert_eq!(list[1].chrome_exe, path(&["r", "versions", "120", "chrome-win64", "chrome.exe"]));
}
