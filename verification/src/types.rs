//! Public data types shared by the parsers, the progress state machine
//! and the channel editor. Filesystem paths are held as `String`s.

use vstd::prelude::*;

verus! {

/// One `guix search` hit. Empty strings rather than `Option`: these are
/// display fields.
#[derive(Debug, Clone, PartialEq, Eq)]
pub struct PackageSummary {
    pub name: String,
    pub version: String,
    pub synopsis: String,
    pub description: String,
    pub homepage: String,
    pub license: String,
    pub outputs: Vec<String>,
}

/// `guix show` output for one package.
#[derive(Debug, Clone, PartialEq, Eq)]
pub struct PackageDetail {
    pub name: String,
    pub version: String,
    pub synopsis: String,
    pub description: String,
    pub homepage: Option<String>,
    pub license: Option<String>,
    pub location: Option<String>,
    pub outputs: Vec<String>,
    pub systems: Vec<String>,
    pub dependencies: Vec<String>,
}

/// One package of a profile generation.
#[derive(Debug, Clone, PartialEq, Eq)]
pub struct InstalledPackage {
    pub name: String,
    pub version: String,
    pub output: String,
    pub store_path: String,
}

/// One profile generation with its packages.
#[derive(Debug, Clone, PartialEq, Eq)]
pub struct Generation {
    pub number: u32,
    pub date: String,
    pub current: bool,
    pub packages: Vec<InstalledPackage>,
}

/// A channel as written in `channels.scm`.
#[derive(Debug, Clone, PartialEq, Eq)]
pub struct Channel {
    pub name: String,
    pub url: String,
    pub branch: Option<String>,
    pub commit: Option<String>,
    pub introduction_commit: Option<String>,
    pub introduction_fingerprint: Option<String>,
}

/// The spec value of an optional string.
pub open spec fn opt_view(o: Option<String>) -> Option<Seq<char>> {
    match o {
        Some(s) => Some(s@),
        None => None,
    }
}

/// A channel as values: name, url, branch, commit, introduction commit
/// and introduction fingerprint.
pub struct ChannelView {
    pub name: Seq<char>,
    pub url: Seq<char>,
    pub branch: Option<Seq<char>>,
    pub commit: Option<Seq<char>>,
    pub introduction_commit: Option<Seq<char>>,
    pub introduction_fingerprint: Option<Seq<char>>,
}

impl View for Channel {
    type V = ChannelView;

    open spec fn view(&self) -> ChannelView {
        ChannelView {
            name: self.name@,
            url: self.url@,
            branch: opt_view(self.branch),
            commit: opt_view(self.commit),
            introduction_commit: opt_view(self.introduction_commit),
            introduction_fingerprint: opt_view(self.introduction_fingerprint),
        }
    }
}

/// Which pipe of the child a line came from.
#[derive(Debug, Clone, Copy, PartialEq, Eq, Structural)]
pub enum ProgressStream {
    Stdout,
    Stderr,
}

/// Known guix bugs the library recognises in output.
#[derive(Debug, Clone, Copy, PartialEq, Eq, Hash, Structural)]
pub enum KnownBug {
    /// Channel shadowing: a channel module masks one of guix's own.
    ChannelShadow74396,
}

impl KnownBug {
    /// The upstream issue page for the bug.
    pub fn url(self) -> (r: &'static str)
        ensures
            r@ == "https://issues.guix.gnu.org/74396"@,
    {
        match self {
            KnownBug::ChannelShadow74396 => "https://issues.guix.gnu.org/74396",
        }
    }
}

/// One parsed event of a streamed write operation.
#[derive(Debug, Clone, PartialEq)]
pub enum ProgressEvent {
    /// `redraw: true` iff the line was `\r`-terminated upstream: replace
    /// the previous line rather than append.
    Line {
        stream: ProgressStream,
        text: String,
        redraw: bool,
    },
    /// `percent` is the number exactly as guix printed it (a decimal
    /// literal such as `50.0`), so a consumer reads it at any precision.
    SubstituteLookup {
        url: String,
        percent: String,
    },
    SubstituteDownload {
        item: String,
        bytes_done: u64,
        bytes_total: Option<u64>,
    },
    /// Only emitted from the REPL event stream; the stderr path has no
    /// equivalent.
    SubstituteDownloadDone {
        item: String,
        bytes_total: Option<u64>,
    },
    BuildStart {
        drv: String,
    },
    BuildPhase {
        drv: Option<String>,
        phase: String,
    },
    BuildDone {
        drv: String,
    },
    BuildFailed {
        drv: String,
        log_path: Option<String>,
    },
    WouldDownload {
        bytes: u64,
        items: Vec<String>,
    },
    WouldBuild {
        bytes: u64,
        items: Vec<String>,
    },
    StorePathListed {
        path: String,
    },
    PullComputingDerivation {
        system: String,
    },
    DryRunHeader {
        text: String,
    },
    KnownBug(KnownBug),
    /// Synthesised at end of stream; always the final event. The run
    /// time is in milliseconds.
    ExitSummary {
        code: i32,
        duration_ms: u64,
    },
}

/// `ProgressEvent` with its texts as characters.
pub enum ProgressEventView {
    Line { stream: ProgressStream, text: Seq<char>, redraw: bool },
    SubstituteLookup { url: Seq<char>, percent: Seq<char> },
    SubstituteDownload { item: Seq<char>, bytes_done: u64, bytes_total: Option<u64> },
    SubstituteDownloadDone { item: Seq<char>, bytes_total: Option<u64> },
    BuildStart { drv: Seq<char> },
    BuildPhase { drv: Option<Seq<char>>, phase: Seq<char> },
    BuildDone { drv: Seq<char> },
    BuildFailed { drv: Seq<char>, log_path: Option<Seq<char>> },
    WouldDownload { bytes: u64, items: Seq<Seq<char>> },
    WouldBuild { bytes: u64, items: Seq<Seq<char>> },
    StorePathListed { path: Seq<char> },
    PullComputingDerivation { system: Seq<char> },
    DryRunHeader { text: Seq<char> },
    KnownBug(KnownBug),
    ExitSummary { code: i32, duration_ms: u64 },
}

pub open spec fn strings_view(v: Seq<String>) -> Seq<Seq<char>> {
    v.map_values(|s: String| s@)
}

impl View for ProgressEvent {
    type V = ProgressEventView;

    open spec fn view(&self) -> ProgressEventView {
        match self {
            ProgressEvent::Line { stream, text, redraw } =>
                ProgressEventView::Line { stream: *stream, text: text@, redraw: *redraw },
            ProgressEvent::SubstituteLookup { url, percent } =>
                ProgressEventView::SubstituteLookup { url: url@, percent: percent@ },
            ProgressEvent::SubstituteDownload { item, bytes_done, bytes_total } =>
                ProgressEventView::SubstituteDownload { item: item@, bytes_done: *bytes_done, bytes_total: *bytes_total },
            ProgressEvent::SubstituteDownloadDone { item, bytes_total } =>
                ProgressEventView::SubstituteDownloadDone { item: item@, bytes_total: *bytes_total },
            ProgressEvent::BuildStart { drv } => ProgressEventView::BuildStart { drv: drv@ },
            ProgressEvent::BuildPhase { drv, phase } =>
                ProgressEventView::BuildPhase { drv: opt_view(*drv), phase: phase@ },
            ProgressEvent::BuildDone { drv } => ProgressEventView::BuildDone { drv: drv@ },
            ProgressEvent::BuildFailed { drv, log_path } =>
                ProgressEventView::BuildFailed { drv: drv@, log_path: opt_view(*log_path) },
            ProgressEvent::WouldDownload { bytes, items } =>
                ProgressEventView::WouldDownload { bytes: *bytes, items: strings_view(items@) },
            ProgressEvent::WouldBuild { bytes, items } =>
                ProgressEventView::WouldBuild { bytes: *bytes, items: strings_view(items@) },
            ProgressEvent::StorePathListed { path } => ProgressEventView::StorePathListed { path: path@ },
            ProgressEvent::PullComputingDerivation { system } =>
                ProgressEventView::PullComputingDerivation { system: system@ },
            ProgressEvent::DryRunHeader { text } => ProgressEventView::DryRunHeader { text: text@ },
            ProgressEvent::KnownBug(b) => ProgressEventView::KnownBug(*b),
            ProgressEvent::ExitSummary { code, duration_ms } =>
                ProgressEventView::ExitSummary { code: *code, duration_ms: *duration_ms },
        }
    }
}

} // verus!
