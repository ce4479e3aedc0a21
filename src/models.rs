use vstd::prelude::*;

verus! {

/// Where a catalog entry came from.
#[derive(Debug, Clone, Copy, PartialEq, Eq, Structural)]
pub enum VersionSource {
    /// Chrome for Testing feed (milestone 113 and later).
    ChromeForTesting,
    /// Chromium snapshot builds from the compiled-in table.
    ChromiumSnapshot,
}

/// A release that can be downloaded.
#[derive(Debug, Clone)]
pub struct VersionInfo {
    pub milestone: u32,
    pub version: String,
    pub download_url: String,
    pub source: VersionSource,
}

/// A locally installed release and the path of its executable, one
/// component per element.
#[derive(Debug, Clone)]
pub struct InstalledVersion {
    pub milestone: u32,
    pub chrome_exe: Vec<String>,
}

/// The live catalog document: its records under their opaque keys. The
/// document keys its records uniquely; reading it relies on no order and
/// on no uniqueness of keys.
#[derive(Debug, Clone)]
pub struct CftMilestoneResponse {
    pub milestones: Vec<(String, CftMilestone)>,
}

/// One record of the live catalog.
#[derive(Debug, Clone)]
pub struct CftMilestone {
    pub milestone: String,
    pub version: String,
    pub downloads: CftDownloads,
}

/// Downloads of one record, by browser component.
#[derive(Debug, Clone)]
pub struct CftDownloads {
    pub chrome: Option<Vec<CftPlatformDownload>>,
}

/// One platform's download of a component.
#[derive(Debug, Clone)]
pub struct CftPlatformDownload {
    pub platform: String,
    pub url: String,
}

/// Why an operation failed.
#[derive(Debug, Clone, Copy, PartialEq, Eq, Structural)]
pub enum ToolError {
    /// The host could not be reached, or answered with a non-2xx status
    /// (`status` is 0 where there was no answer).
    NetworkFailure { status: u16 },
    /// The catalog document could not be read.
    ParseFailure,
    /// The archive is corrupt or holds an entry whose path is unsafe.
    ArchiveFailure,
    /// A filesystem operation failed.
    FilesystemFailure,
    /// The milestone is not in the catalog, or not installed.
    NotFound,
    /// No executable was found after extraction.
    VerificationFailure,
    /// The user's home directory is unknown.
    NoHomeDirectory,
}

} // verus!

verus! {

/// What a catalog entry denotes: its fields, with texts as character
/// sequences.
pub struct VersionView {
    pub milestone: u32,
    pub version: Seq<char>,
    pub download_url: Seq<char>,
    pub source: VersionSource,
}

impl View for VersionInfo {
    type V = VersionView;

    open spec fn view(&self) -> VersionView {
        VersionView {
            milestone: self.milestone,
            version: self.version@,
            download_url: self.download_url@,
            source: self.source,
        }
    }
}

} // verus!
