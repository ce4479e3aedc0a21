use chrome_tool::extract::{plan_extraction, resolve_path, ArchiveEntry};
use chrome_tool::installer::{event_answers, install_step, InstallAction, InstallEvent, InstallPhase};
use chrome_tool::launcher::launch_args;
use chrome_tool::models::ToolError;

fn path(parts: &[&str]) -> Vec<String> {
    parts.iter().map(|s| s.to_string()).collect()
}

fn run(events: &[InstallEvent]) -> Vec<InstallAction> {
    let mut phase = InstallPhase::Begin;
    let mut actions = Vec::new();
    for e in events {
        assert!(event_answers(phase, *e));
        let (next, action) = install_step(phase, *e);
        phase = next;
        actions.push(action);
    }
    actions
}

#[test]
fn fresh_install_then_repeat_is_noop() {
    let first = run(&[
        InstallEvent::Started,
        InstallEvent::DirectoriesReady(Ok(())),
        InstallEvent::Installed(false),
        InstallEvent::Cached(false),
        InstallEvent::Responded(Ok(200)),
        InstallEvent::Saved(Ok(())),
        InstallEvent::Extracted(Ok(())),
        InstallEvent::ExecutableFound(true),
        InstallEvent::CleanedUp,
    ]);
    assert!(first.iter().any(|a| matches!(a, InstallAction::Download)));
    assert!(matches!(first.last(), Some(InstallAction::Finish(Ok(())))));
    let second = run(&[InstallEvent::Started, InstallEvent::DirectoriesReady(Ok(())), InstallEvent::Installed(true)]);
    assert_eq!(second.len(), 3);
    assert!(!second.iter().any(|a| matches!(a, InstallAction::Download | InstallAction::SaveArchive)));
    assert!(matches!(second[2], InstallAction::Finish(Ok(()))));
}

#[test]
fn cached_archive_skips_download() {
    let actions = run(&[InstallEvent::Started, InstallEvent::DirectoriesReady(Ok(())), InstallEvent::Installed(false), InstallEvent::Cached(true)]);
    assert!(matches!(actions[3], InstallAction::Extract));
}

#[test]
fn missing_executable_rolls_back() {
    let actions = run(&[
        InstallEvent::Started,
        InstallEvent::DirectoriesReady(Ok(())),
        InstallEvent::Installed(false),
        InstallEvent::Cached(true),
        InstallEvent::Extracted(Ok(())),
        InstallEvent::ExecutableFound(false),
        InstallEvent::RolledBack(Ok(())),
    ]);
    assert!(matches!(actions[5], InstallAction::RemoveVersion));
    assert!(matches!(actions[6], InstallAction::Finish(Err(ToolError::VerificationFailure))));
}

#[test]
fn failed_rollback_reports_its_error() {
    let (phase, action) = install_step(InstallPhase::RollingBack { cause: ToolError::VerificationFailure }, InstallEvent::RolledBack(Err(ToolError::FilesystemFailure)));
    assert_eq!(phase, InstallPhase::Done);
    assert!(matches!(action, InstallAction::Finish(Err(ToolError::FilesystemFailure))));
}

#[test]
fn non_success_status_fails() {
    let (phase, action) = install_step(InstallPhase::Requesting, InstallEvent::Responded(Ok(404)));
    assert_eq!(phase, InstallPhase::Done);
    assert!(matches!(action, InstallAction::Finish(Err(ToolError::NetworkFailure { status: 404 }))));
    let (_, action) = install_step(InstallPhase::Requesting, InstallEvent::Responded(Ok(299)));
    assert!(matches!(action, InstallAction::SaveArchive));
    assert!(!event_answers(InstallPhase::Done, InstallEvent::Started));
}

#[test]
fn extraction_rejects_escaping_paths() {
    let target = path(&["r", "versions", "120"]);
    let entries = vec![
        ArchiveEntry { path: Some(path(&["chrome-win", "chrome.exe"])), is_dir: false },
        ArchiveEntry { path: Some(path(&["..", "..", "evil.txt"])), is_dir: false },
    ];
    assert!(matches!(plan_extraction(&target, &entries), Err(ToolError::ArchiveFailure)));
    let unreadable = vec![ArchiveEntry { path: None, is_dir: false }];
    assert!(matches!(plan_extraction(&target, &unreadable), Err(ToolError::ArchiveFailure)));
    let climbing = vec![ArchiveEntry { path: Some(path(&["a", "..", "..", "b"])), is_dir: false }];
    assert!(matches!(plan_extraction(&target, &climbing), Err(ToolError::ArchiveFailure)));
}

#[test]
fn extraction_plan_keeps_relative_paths() {
    let target = path(&["t"]);
    let entries = vec![
        ArchiveEntry { path: Some(path(&["chrome-win"])), is_dir: true },
        ArchiveEntry { path: Some(path(&["chrome-win", "chrome.exe"])), is_dir: false },
    ];
    let steps = plan_extraction(&target, &entries).expect("safe archive");
    assert_eq!(steps.len(), 2);
    assert_eq!(steps[0].path, path(&["t", "chrome-win"]));
    assert!(steps[0].is_dir);
    assert_eq!(steps[1].index, 1);
    assert_eq!(steps[1].path, path(&["t", "chrome-win", "chrome.exe"]));
    assert!(!steps[1].is_dir);
}

#[test]
fn extraction_resolves_paths_that_stay_inside() {
    let target = path(&["t"]);
    let entries = vec![
        ArchiveEntry { path: Some(path(&["a", "..", "b"])), is_dir: false },
        ArchiveEntry { path: Some(path(&[".", "chrome-win", "chrome.exe"])), is_dir: false },
        ArchiveEntry { path: Some(path(&["x", ".", "y", ".."])), is_dir: true },
    ];
    let steps = plan_extraction(&target, &entries).expect("paths stay inside");
    assert_eq!(steps[0].path, path(&["t", "b"]));
    assert_eq!(steps[1].path, path(&["t", "chrome-win", "chrome.exe"]));
    assert_eq!(steps[2].path, path(&["t", "x"]));
    assert_eq!(resolve_path(&path(&["..", "a"])), None);
    assert_eq!(resolve_path(&path(&["a", "b", "..", "c"])), Some(path(&["a", "c"])));
}

#[test]
fn failed_extraction_rolls_back() {
    let actions = run(&[
        InstallEvent::Started,
        InstallEvent::DirectoriesReady(Ok(())),
        InstallEvent::Installed(false),
        InstallEvent::Cached(true),
        InstallEvent::Extracted(Err(ToolError::ArchiveFailure)),
        InstallEvent::RolledBack(Ok(())),
    ]);
    assert!(matches!(actions[4], InstallAction::RemoveVersion));
    assert!(matches!(actions[5], InstallAction::Finish(Err(ToolError::ArchiveFailure))));
    let (phase, action) = install_step(
        InstallPhase::RollingBack { cause: ToolError::ArchiveFailure },
        InstallEvent::RolledBack(Err(ToolError::FilesystemFailure)),
    );
    assert_eq!(phase, InstallPhase::Done);
    assert!(matches!(action, InstallAction::Finish(Err(ToolError::FilesystemFailure))));
}

#[test]
fn launch_arguments() {
    assert_eq!(
        launch_args("C:\\p\\120", None),
        vec!["--user-data-dir=C:\\p\\120", "--no-first-run", "--no-default-browser-check"]
    );
    assert_eq!(
        launch_args("/p/91", Some("https://example.test")),
        vec!["--user-data-dir=/p/91", "--no-first-run", "--no-default-browser-check", "https://example.test"]
    );
}
