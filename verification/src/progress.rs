//! The progress state machine over `ProgressEvent`s: stages only advance,
//! unless a failure flips the summary to `Stage::Failed`, which is final.
//! Builds and downloads are tracked per derivation / store item, in the
//! order first seen, and the counters never count an item twice.

use vstd::prelude::*;
use indexmap::IndexMap;
use std::time::Instant;
use crate::text::{chars_of, string_of, sub_chars, rfind_str, find_str, strip_suffix_str,
    rfind_spec, find_spec, strip_suffix_spec, contains_seq, contains_str, trim_end_newlines,
    trim_end_newlines_spec, lemma_find_spec, lemma_rfind};
use crate::types::{ProgressEvent, ProgressEventView};

verus! {

/// `indexmap::IndexMap`: a hash map that keeps its entries in insertion order.
#[verifier::external_type_specification]
#[verifier::external_body]
#[verifier::reject_recursive_types(K)]
#[verifier::reject_recursive_types(V)]
#[verifier::reject_recursive_types(S)]
pub struct ExIndexMap<K, V, S>(IndexMap<K, V, S>);

/// `IndexMap::clone`: clones every entry with its key's and value's own
/// `clone`, in order. Those are generic here, so nothing is stated of the
/// copy.
pub assume_specification<K, V, S>[<IndexMap<K, V, S> as Clone>::clone](m: &IndexMap<K, V, S>) -> IndexMap<K, V, S>
    where
        K: Clone,
        V: Clone,
        S: Clone,
;

/// `std::time::Instant`, carried opaquely.
#[verifier::external_type_specification]
#[verifier::external_body]
pub struct ExInstant(Instant);

/// The current instant. Wraps `Instant::now`; nothing is claimed of it.
#[verifier::external_body]
fn instant_now() -> Instant {
    Instant::now()
}

/// What `end.duration_since(start)` gives: the time from `start` to `end`,
/// zero when `end` is the earlier one (std saturates rather than panics).
pub uninterp spec fn instant_duration(end: Instant, start: Instant) -> std::time::Duration;

/// `end.duration_since(start)`. Wraps `Instant::duration_since`; the result
/// is named after the two instants.
#[verifier::external_body]
fn instant_since(end: Instant, start: Instant) -> (d: std::time::Duration)
    ensures
        d == instant_duration(end, start),
{
    end.duration_since(start)
}

/// The coarse stage of an operation.
#[derive(Debug, Clone, Copy, PartialEq, Eq, Structural)]
pub enum Stage {
    Starting,
    ChannelUpdate,
    ComputingDeriv,
    Downloading,
    Building,
    Profile,
    Done,
    Failed,
}

/// The rank of a stage: `Done` and `Failed` share the last rank.
pub open spec fn stage_order(s: Stage) -> nat {
    match s {
        Stage::Starting => 0,
        Stage::ChannelUpdate => 1,
        Stage::ComputingDeriv => 2,
        Stage::Downloading => 3,
        Stage::Building => 4,
        Stage::Profile => 5,
        Stage::Done => 6,
        Stage::Failed => 6,
    }
}

impl Stage {
    /// The rank of the stage.
    pub fn order(self) -> (r: u8)
        ensures
            r == stage_order(self),
    {
        match self {
            Stage::Starting => 0,
            Stage::ChannelUpdate => 1,
            Stage::ComputingDeriv => 2,
            Stage::Downloading => 3,
            Stage::Building => 4,
            Stage::Profile => 5,
            Stage::Done => 6,
            Stage::Failed => 6,
        }
    }
}

/// The stage after asking to advance to `next`: `Failed` is final and
/// always reachable; otherwise only a higher rank is taken.
pub open spec fn advance_spec(cur: Stage, next: Stage) -> Stage {
    if cur == Stage::Failed {
        Stage::Failed
    } else if next == Stage::Failed {
        Stage::Failed
    } else if stage_order(next) > stage_order(cur) {
        next
    } else {
        cur
    }
}

/// A build's state.
#[derive(Debug, Clone, Copy, PartialEq, Eq, Structural)]
pub enum BuildStatus {
    Running,
    Done,
    Failed,
}

/// One tracked build.
#[derive(Debug, Clone)]
pub struct BuildEntry {
    pub drv: String,
    pub pretty_name: String,
    pub status: BuildStatus,
}

/// A build entry as values.
pub struct BuildEntryView {
    pub drv: Seq<char>,
    pub pretty_name: Seq<char>,
    pub status: BuildStatus,
}

impl View for BuildEntry {
    type V = BuildEntryView;

    open spec fn view(&self) -> BuildEntryView {
        BuildEntryView { drv: self.drv@, pretty_name: self.pretty_name@, status: self.status }
    }
}

/// One tracked substitute download. Stderr-parsed operations never report
/// a finished download, so `done` is only set from the REPL event stream.
#[derive(Debug, Clone)]
pub struct DownloadEntry {
    pub item: String,
    pub pretty_name: String,
    pub bytes_done: u64,
    pub bytes_total: Option<u64>,
    pub done: bool,
}

/// A download entry as values.
pub struct DownloadEntryView {
    pub item: Seq<char>,
    pub pretty_name: Seq<char>,
    pub bytes_done: u64,
    pub bytes_total: Option<u64>,
    pub done: bool,
}

impl View for DownloadEntry {
    type V = DownloadEntryView;

    open spec fn view(&self) -> DownloadEntryView {
        DownloadEntryView {
            item: self.item@,
            pretty_name: self.pretty_name@,
            bytes_done: self.bytes_done,
            bytes_total: self.bytes_total,
            done: self.done,
        }
    }
}

/// The contents of the builds table, in insertion order: each derivation
/// with its entry.
pub uninterp spec fn build_table(m: IndexMap<String, BuildEntry>) -> Seq<(Seq<char>, BuildEntryView)>;

/// The contents of the downloads table, in insertion order: each store
/// item with its entry.
pub uninterp spec fn download_table(m: IndexMap<String, DownloadEntry>) -> Seq<(Seq<char>, DownloadEntryView)>;

/// No key occurs twice.
pub open spec fn keys_distinct<T>(t: Seq<(Seq<char>, T)>) -> bool {
    forall|i: int, j: int| 0 <= i < t.len() && 0 <= j < t.len() && i != j ==> t[i].0 != t[j].0
}

/// Where `key` sits in the table, if present.
pub open spec fn index_of_key<T>(t: Seq<(Seq<char>, T)>, key: Seq<char>, r: Option<usize>) -> bool {
    match r {
        Some(i) => i < t.len() && t[i as int].0 == key,
        None => forall|i: int| 0 <= i < t.len() ==> t[i].0 != key,
    }
}

/// `IndexMap::new`: an empty table.
#[verifier::external_body]
fn builds_new() -> (m: IndexMap<String, BuildEntry>)
    ensures
        build_table(m) == Seq::<(Seq<char>, BuildEntryView)>::empty(),
{
    IndexMap::new()
}

/// `IndexMap::get_index_of`: the position of `key`, if present.
#[verifier::external_body]
fn builds_index_of(m: &IndexMap<String, BuildEntry>, key: &str) -> (r: Option<usize>)
    ensures
        index_of_key(build_table(*m), key@, r),
{
    m.get_index_of(key)
}

/// `IndexMap::insert` of a key not yet present: the pair goes last.
#[verifier::external_body]
fn builds_insert_new(m: &mut IndexMap<String, BuildEntry>, key: String, value: BuildEntry)
    requires
        forall|i: int| 0 <= i < build_table(*old(m)).len() ==> build_table(*old(m))[i].0 != key@,
        build_table(*old(m)).len() < usize::MAX,
    ensures
        build_table(*final(m)) == build_table(*old(m)).push((key@, value@)),
{
    m.insert(key, value);
}

/// `IndexMap::get_index`: the entry at position `i`.
#[verifier::external_body]
fn builds_get(m: &IndexMap<String, BuildEntry>, i: usize) -> (r: &BuildEntry)
    requires
        i < build_table(*m).len(),
    ensures
        r@ == build_table(*m)[i as int].1,
{
    m.get_index(i).unwrap().1
}

/// `IndexMap::get_index_mut`, overwriting the value at position `i`; the
/// key and the order are kept.
#[verifier::external_body]
fn builds_set(m: &mut IndexMap<String, BuildEntry>, i: usize, value: BuildEntry)
    requires
        i < build_table(*old(m)).len(),
    ensures
        build_table(*final(m)) == build_table(*old(m)).update(i as int, (build_table(*old(m))[i as int].0, value@)),
{
    *m.get_index_mut(i).unwrap().1 = value;
}

/// `IndexMap::new`: an empty table.
#[verifier::external_body]
fn downloads_new() -> (m: IndexMap<String, DownloadEntry>)
    ensures
        download_table(m) == Seq::<(Seq<char>, DownloadEntryView)>::empty(),
{
    IndexMap::new()
}

/// `IndexMap::get_index_of`: the position of `key`, if present.
#[verifier::external_body]
fn downloads_index_of(m: &IndexMap<String, DownloadEntry>, key: &str) -> (r: Option<usize>)
    ensures
        index_of_key(download_table(*m), key@, r),
{
    m.get_index_of(key)
}

/// `IndexMap::insert` of a key not yet present: the pair goes last.
#[verifier::external_body]
fn downloads_insert_new(m: &mut IndexMap<String, DownloadEntry>, key: String, value: DownloadEntry)
    requires
        forall|i: int| 0 <= i < download_table(*old(m)).len() ==> download_table(*old(m))[i].0 != key@,
        download_table(*old(m)).len() < usize::MAX,
    ensures
        download_table(*final(m)) == download_table(*old(m)).push((key@, value@)),
{
    m.insert(key, value);
}

/// `IndexMap::get_index`: the entry at position `i`.
#[verifier::external_body]
fn downloads_get(m: &IndexMap<String, DownloadEntry>, i: usize) -> (r: &DownloadEntry)
    requires
        i < download_table(*m).len(),
    ensures
        r@ == download_table(*m)[i as int].1,
{
    m.get_index(i).unwrap().1
}

/// `IndexMap::get_index_mut`, overwriting the value at position `i`; the
/// key and the order are kept.
#[verifier::external_body]
fn downloads_set(m: &mut IndexMap<String, DownloadEntry>, i: usize, value: DownloadEntry)
    requires
        i < download_table(*old(m)).len(),
    ensures
        download_table(*final(m)) == download_table(*old(m)).update(i as int, (download_table(*old(m))[i as int].0, value@)),
{
    *m.get_index_mut(i).unwrap().1 = value;
}

/// `/gnu/store/abc123-foo-1.2.3.drv` → `foo-1.2.3`: the text after the last
/// `/gnu/store/` and the hash's `-`, without `.drv`; the whole path when no
/// `-` follows or nothing is left.
pub open spec fn pretty_store_name_spec(path: Seq<char>) -> Seq<char> {
    let after_store = match rfind_spec(path, "/gnu/store/"@) {
        Some(i) => path.subrange(i + "/gnu/store/"@.len(), path.len() as int),
        None => path,
    };
    match find_spec(after_store, "-"@) {
        None => path,
        Some(j) => {
            let after_hash = after_store.subrange(j + 1, after_store.len() as int);
            let trimmed = match strip_suffix_spec(after_hash, ".drv"@) {
                Some(t) => t,
                None => after_hash,
            };
            if trimmed.len() == 0 {
                path
            } else {
                trimmed
            }
        },
    }
}

/// A readable name for a store path or derivation.
pub fn pretty_store_name(path: &str) -> (r: String)
    ensures
        r@ == pretty_store_name_spec(path@),
{
    let p = chars_of(path);
    let pl = p.len();
    proof {
        lemma_rfind(p@, "/gnu/store/"@, p@.len() - "/gnu/store/"@.len());
    }
    let after_store = match rfind_str(&p, "/gnu/store/") {
        Some(i) => {
            let n = "/gnu/store/".unicode_len();
            assert(i + n <= pl);
            sub_chars(&p, i + n, pl)
        },
        None => sub_chars(&p, 0, pl),
    };
    assert(p@.subrange(0, p@.len() as int) =~= p@);
    proof { lemma_find_spec(after_store@, "-"@); reveal_strlit("-"); }
    match find_str(&after_store, "-") {
        None => string_of(&p),
        Some(j) => {
            let al = after_store.len();
            let after_hash = sub_chars(&after_store, j + 1, al);
            let trimmed = match strip_suffix_str(&after_hash, ".drv") {
                Some(t) => t,
                None => after_hash,
            };
            if trimmed.len() == 0 {
                string_of(&p)
            } else {
                string_of(&trimmed)
            }
        },
    }
}

/// Why an operation failed.
#[derive(Debug, Clone, PartialEq, Eq)]
pub enum Failure {
    /// Non-zero process exit with no more specific cause.
    Exit { code: i32 },
    /// A derivation build failed.
    Build { name: String, log_path: Option<String> },
}

pub enum FailureView {
    Exit { code: i32 },
    Build { name: Seq<char>, log_path: Option<Seq<char>> },
}

impl View for Failure {
    type V = FailureView;

    open spec fn view(&self) -> FailureView {
        match self {
            Failure::Exit { code } => FailureView::Exit { code: *code },
            Failure::Build { name, log_path } => FailureView::Build {
                name: name@,
                log_path: crate::types::opt_view(*log_path),
            },
        }
    }
}

/// Everything known about a running operation.
#[derive(Debug, Clone)]
pub struct Summary {
    pub stage: Stage,
    pub builds: IndexMap<String, BuildEntry>,
    pub downloads: IndexMap<String, DownloadEntry>,
    pub build_count_started: usize,
    pub build_count_done: usize,
    pub build_count_failed: usize,
    pub download_count_started: usize,
    pub download_count_done: usize,
    pub bytes_downloaded: u64,
    pub last_status_line: Option<String>,
    pub started_at: Option<Instant>,
    pub finished_at: Option<Instant>,
    pub failure: Option<Failure>,
    pub would_build_count: Option<usize>,
    pub would_download_count: Option<usize>,
    pub would_download_bytes: Option<u64>,
}

/// A summary as values; of the two instants only whether each is set.
pub struct SummaryView {
    pub stage: Stage,
    pub builds: Seq<(Seq<char>, BuildEntryView)>,
    pub downloads: Seq<(Seq<char>, DownloadEntryView)>,
    pub build_count_started: usize,
    pub build_count_done: usize,
    pub build_count_failed: usize,
    pub download_count_started: usize,
    pub download_count_done: usize,
    pub bytes_downloaded: u64,
    pub last_status_line: Option<Seq<char>>,
    pub started: bool,
    pub finished: bool,
    pub failure: Option<FailureView>,
    pub would_build_count: Option<usize>,
    pub would_download_count: Option<usize>,
    pub would_download_bytes: Option<u64>,
}

impl View for Summary {
    type V = SummaryView;

    open spec fn view(&self) -> SummaryView {
        SummaryView {
            stage: self.stage,
            builds: build_table(self.builds),
            downloads: download_table(self.downloads),
            build_count_started: self.build_count_started,
            build_count_done: self.build_count_done,
            build_count_failed: self.build_count_failed,
            download_count_started: self.download_count_started,
            download_count_done: self.download_count_done,
            bytes_downloaded: self.bytes_downloaded,
            last_status_line: crate::types::opt_view(self.last_status_line),
            started: self.started_at is Some,
            finished: self.finished_at is Some,
            failure: match self.failure {
                Some(f) => Some(f@),
                None => None,
            },
            would_build_count: self.would_build_count,
            would_download_count: self.would_download_count,
            would_download_bytes: self.would_download_bytes,
        }
    }
}

/// How many builds have left `Running`.
pub open spec fn count_finished(t: Seq<(Seq<char>, BuildEntryView)>) -> nat
    decreases t.len(),
{
    if t.len() == 0 {
        0
    } else {
        count_finished(t.drop_last()) + if t.last().1.status == BuildStatus::Running { 0nat } else { 1nat }
    }
}

/// How many downloads are marked done.
pub open spec fn count_done(t: Seq<(Seq<char>, DownloadEntryView)>) -> nat
    decreases t.len(),
{
    if t.len() == 0 {
        0
    } else {
        count_done(t.drop_last()) + if t.last().1.done { 1nat } else { 0nat }
    }
}

/// The summary's invariant: each derivation and store item is tracked
/// once; the started counters equal the number tracked, the done and failed
/// build counters add up to the builds no longer running, and the done
/// download counter to the downloads marked done.
pub open spec fn summary_wf(s: SummaryView) -> bool {
    &&& keys_distinct(s.builds)
    &&& keys_distinct(s.downloads)
    &&& s.build_count_started == s.builds.len()
    &&& s.build_count_done + s.build_count_failed == count_finished(s.builds)
    &&& s.download_count_started == s.downloads.len()
    &&& s.download_count_done == count_done(s.downloads)
}

/// The position of `key` in a table, if present.
pub open spec fn key_pos<T>(t: Seq<(Seq<char>, T)>, key: Seq<char>) -> Option<int> {
    if exists|i: int| 0 <= i < t.len() && t[i].0 == key {
        Some(choose|i: int| 0 <= i < t.len() && t[i].0 == key)
    } else {
        None
    }
}

pub open spec fn sat_add(a: u64, b: u64) -> u64 {
    if a + b > u64::MAX { u64::MAX } else { (a + b) as u64 }
}

pub open spec fn sat_sub(a: u64, b: u64) -> u64 {
    if a >= b { (a - b) as u64 } else { 0 }
}

pub open spec fn inc(n: usize) -> usize {
    (n + 1) as usize
}

/// A new build entry for `drv`.
pub open spec fn new_build(drv: Seq<char>, status: BuildStatus) -> BuildEntryView {
    BuildEntryView { drv, pretty_name: pretty_store_name_spec(drv), status }
}

/// The effect of one event on the summary.
pub open spec fn ingest_spec(s: SummaryView, e: ProgressEventView) -> SummaryView {
    match e {
        ProgressEventView::ExitSummary { code, .. } => if code == 0 {
            SummaryView { finished: true, stage: advance_spec(s.stage, Stage::Done), ..s }
        } else {
            SummaryView {
                finished: true,
                failure: if s.failure is None { Some(FailureView::Exit { code }) } else { s.failure },
                stage: advance_spec(s.stage, Stage::Failed),
                ..s
            }
        },
        ProgressEventView::BuildStart { drv } => {
            let s1 = match key_pos(s.builds, drv) {
                Some(_) => s,
                None => SummaryView {
                    build_count_started: inc(s.build_count_started),
                    builds: s.builds.push((drv, new_build(drv, BuildStatus::Running))),
                    ..s
                },
            };
            SummaryView { stage: advance_spec(s.stage, Stage::Building), ..s1 }
        },
        ProgressEventView::BuildDone { drv } => match key_pos(s.builds, drv) {
            Some(i) => {
                let old = s.builds[i].1;
                SummaryView {
                    build_count_done: if old.status == BuildStatus::Running { inc(s.build_count_done) } else { s.build_count_done },
                    builds: s.builds.update(i, (drv, BuildEntryView { status: BuildStatus::Done, ..old })),
                    ..s
                }
            },
            None => SummaryView {
                build_count_started: inc(s.build_count_started),
                build_count_done: inc(s.build_count_done),
                builds: s.builds.push((drv, new_build(drv, BuildStatus::Done))),
                ..s
            },
        },
        ProgressEventView::BuildFailed { drv, log_path } => {
            let s1 = match key_pos(s.builds, drv) {
                Some(i) => {
                    let old = s.builds[i].1;
                    SummaryView {
                        build_count_failed: if old.status == BuildStatus::Running { inc(s.build_count_failed) } else { s.build_count_failed },
                        builds: s.builds.update(i, (drv, BuildEntryView { status: BuildStatus::Failed, ..old })),
                        ..s
                    }
                },
                None => SummaryView {
                    build_count_started: inc(s.build_count_started),
                    build_count_failed: inc(s.build_count_failed),
                    builds: s.builds.push((drv, new_build(drv, BuildStatus::Failed))),
                    ..s
                },
            };
            SummaryView {
                failure: if s.failure is None {
                    Some(FailureView::Build { name: pretty_store_name_spec(drv), log_path })
                } else {
                    s.failure
                },
                stage: advance_spec(s.stage, Stage::Failed),
                ..s1
            }
        },
        ProgressEventView::SubstituteDownload { item, bytes_done, bytes_total } => {
            let s1 = match key_pos(s.downloads, item) {
                Some(i) => {
                    let old = s.downloads[i].1;
                    SummaryView {
                        bytes_downloaded: sat_add(s.bytes_downloaded, sat_sub(bytes_done, old.bytes_done)),
                        downloads: s.downloads.update(i, (item, DownloadEntryView {
                            bytes_done,
                            bytes_total: if bytes_total is Some { bytes_total } else { old.bytes_total },
                            ..old
                        })),
                        ..s
                    }
                },
                None => SummaryView {
                    download_count_started: inc(s.download_count_started),
                    bytes_downloaded: sat_add(s.bytes_downloaded, bytes_done),
                    downloads: s.downloads.push((item, DownloadEntryView {
                        item,
                        pretty_name: pretty_store_name_spec(item),
                        bytes_done,
                        bytes_total,
                        done: false,
                    })),
                    ..s
                },
            };
            if s.stage == Stage::Starting || s.stage == Stage::ChannelUpdate || s.stage == Stage::ComputingDeriv {
                SummaryView { stage: advance_spec(s.stage, Stage::Downloading), ..s1 }
            } else {
                s1
            }
        },
        ProgressEventView::SubstituteDownloadDone { item, bytes_total } => match key_pos(s.downloads, item) {
            Some(i) => {
                let old = s.downloads[i].1;
                let updated = match bytes_total {
                    Some(t) => DownloadEntryView {
                        done: true,
                        bytes_done: if t >= old.bytes_done { t } else { old.bytes_done },
                        bytes_total: if old.bytes_total is None { Some(t) } else { old.bytes_total },
                        ..old
                    },
                    None => DownloadEntryView { done: true, ..old },
                };
                SummaryView {
                    download_count_done: if old.done { s.download_count_done } else { inc(s.download_count_done) },
                    downloads: s.downloads.update(i, (item, updated)),
                    ..s
                }
            },
            None => SummaryView {
                download_count_started: inc(s.download_count_started),
                download_count_done: inc(s.download_count_done),
                downloads: s.downloads.push((item, DownloadEntryView {
                    item,
                    pretty_name: pretty_store_name_spec(item),
                    bytes_done: match bytes_total { Some(t) => t, None => 0 },
                    bytes_total,
                    done: true,
                })),
                ..s
            },
        },
        ProgressEventView::PullComputingDerivation { .. } => SummaryView {
            stage: advance_spec(s.stage, Stage::ComputingDeriv),
            ..s
        },
        ProgressEventView::Line { text, .. } => {
            let trimmed = trim_end_newlines_spec(text);
            let last = if trimmed.len() > 0 { Some(trimmed) } else { s.last_status_line };
            let st1 = if contains_seq(text, "Updating channel"@) || contains_seq(text, "Building from these channels"@) {
                advance_spec(s.stage, Stage::ChannelUpdate)
            } else {
                s.stage
            };
            let st2 = if contains_seq(text, "Computing Guix derivation"@) {
                advance_spec(st1, Stage::ComputingDeriv)
            } else {
                st1
            };
            let st3 = if contains_seq(text, "running profile hook"@) {
                advance_spec(st2, Stage::Profile)
            } else {
                st2
            };
            let nothing = contains_seq(text, "nothing to be done"@);
            SummaryView {
                last_status_line: last,
                stage: if nothing { advance_spec(st3, Stage::Done) } else { st3 },
                finished: if nothing { true } else { s.finished },
                ..s
            }
        },
        ProgressEventView::WouldBuild { items, .. } => SummaryView {
            would_build_count: Some(items.len() as usize),
            ..s
        },
        ProgressEventView::WouldDownload { bytes, items } => SummaryView {
            would_download_count: Some(items.len() as usize),
            would_download_bytes: Some(bytes),
            ..s
        },
        _ => s,
    }
}

/// `(done, total)` as `percent_parts` computes it.
pub open spec fn percent_parts_spec(s: SummaryView) -> Option<(u128, u128)> {
    if s.stage == Stage::Done {
        Some((1, 1))
    } else {
        let b: int = match s.would_build_count { Some(n) => n as int, None => s.build_count_started as int };
        let d: int = match s.would_download_count { Some(n) => n as int, None => s.download_count_started as int };
        if b + d == 0 {
            None
        } else {
            Some(((s.build_count_done + s.download_count_done) as u128, (b + d) as u128))
        }
    }
}

/// Whether the event sets the finish instant.
pub open spec fn sets_finished(e: ProgressEventView) -> bool {
    match e {
        ProgressEventView::ExitSummary { .. } => true,
        ProgressEventView::Line { text, .. } => contains_seq(text, "nothing to be done"@),
        _ => false,
    }
}

pub open spec fn finished_contrib(x: (Seq<char>, BuildEntryView)) -> nat {
    if x.1.status == BuildStatus::Running { 0 } else { 1 }
}

pub open spec fn done_contrib(x: (Seq<char>, DownloadEntryView)) -> nat {
    if x.1.done { 1 } else { 0 }
}

pub proof fn lemma_count_finished_push(t: Seq<(Seq<char>, BuildEntryView)>, x: (Seq<char>, BuildEntryView))
    ensures
        count_finished(t.push(x)) == count_finished(t) + finished_contrib(x),
{
    assert(t.push(x).drop_last() =~= t);
}

pub proof fn lemma_count_finished_update(t: Seq<(Seq<char>, BuildEntryView)>, i: int, x: (Seq<char>, BuildEntryView))
    requires
        0 <= i < t.len(),
    ensures
        count_finished(t.update(i, x)) + finished_contrib(t[i]) == count_finished(t) + finished_contrib(x),
        count_finished(t) <= t.len(),
    decreases t.len(),
{
    let u = t.update(i, x);
    if i == t.len() - 1 {
        assert(u.drop_last() =~= t.drop_last());
        lemma_count_finished_bound(t.drop_last());
    } else {
        assert(u.drop_last() =~= t.drop_last().update(i, x));
        lemma_count_finished_update(t.drop_last(), i, x);
    }
}

pub proof fn lemma_count_finished_bound(t: Seq<(Seq<char>, BuildEntryView)>)
    ensures
        count_finished(t) <= t.len(),
    decreases t.len(),
{
    if t.len() > 0 {
        lemma_count_finished_bound(t.drop_last());
    }
}

pub proof fn lemma_count_done_push(t: Seq<(Seq<char>, DownloadEntryView)>, x: (Seq<char>, DownloadEntryView))
    ensures
        count_done(t.push(x)) == count_done(t) + done_contrib(x),
{
    assert(t.push(x).drop_last() =~= t);
}

pub proof fn lemma_count_done_update(t: Seq<(Seq<char>, DownloadEntryView)>, i: int, x: (Seq<char>, DownloadEntryView))
    requires
        0 <= i < t.len(),
    ensures
        count_done(t.update(i, x)) + done_contrib(t[i]) == count_done(t) + done_contrib(x),
    decreases t.len(),
{
    let u = t.update(i, x);
    if i == t.len() - 1 {
        assert(u.drop_last() =~= t.drop_last());
    } else {
        assert(u.drop_last() =~= t.drop_last().update(i, x));
        lemma_count_done_update(t.drop_last(), i, x);
    }
}

pub proof fn lemma_count_done_bound(t: Seq<(Seq<char>, DownloadEntryView)>)
    ensures
        count_done(t) <= t.len(),
    decreases t.len(),
{
    if t.len() > 0 {
        lemma_count_done_bound(t.drop_last());
    }
}

/// With distinct keys, the position found is the one `key_pos` names.
pub proof fn lemma_key_pos<T>(t: Seq<(Seq<char>, T)>, key: Seq<char>, r: Option<usize>)
    requires
        keys_distinct(t),
        index_of_key(t, key, r),
    ensures
        match r {
            Some(i) => key_pos(t, key) == Some(i as int),
            None => key_pos(t, key) is None,
        },
{
    match r {
        Some(i) => {
            assert(t[i as int].0 == key);
            let j = choose|j: int| 0 <= j < t.len() && t[j].0 == key;
            assert(j == i);
        },
        None => {},
    }
}

/// Pushing an absent key, or rewriting a value in place, keeps keys distinct.
pub proof fn lemma_distinct_push<T>(t: Seq<(Seq<char>, T)>, x: (Seq<char>, T))
    requires
        keys_distinct(t),
        forall|i: int| 0 <= i < t.len() ==> t[i].0 != x.0,
    ensures
        keys_distinct(t.push(x)),
{
    assert forall|i: int, j: int| 0 <= i < t.push(x).len() && 0 <= j < t.push(x).len() && i != j implies t.push(x)[i].0 != t.push(x)[j].0 by {
        if i < t.len() && j < t.len() {
        } else if i < t.len() {
            assert(t.push(x)[j] == x);
        } else {
            assert(t.push(x)[i] == x);
        }
    }
}

pub proof fn lemma_distinct_update<T>(t: Seq<(Seq<char>, T)>, i: int, x: (Seq<char>, T))
    requires
        keys_distinct(t),
        0 <= i < t.len(),
        x.0 == t[i].0,
    ensures
        keys_distinct(t.update(i, x)),
{
    assert forall|a: int, b: int| 0 <= a < t.len() && 0 <= b < t.len() && a != b implies t.update(i, x)[a].0 != t.update(i, x)[b].0 by {
        if a == i {
            assert(t.update(i, x)[a].0 == t[a].0);
        }
        if b == i {
            assert(t.update(i, x)[b].0 == t[b].0);
        }
    }
}

/// The summary's laws, for every event:
/// - the invariant is kept: no derivation or store item is tracked twice,
///   and no counter counts an item twice;
/// - stages only advance, except to `Failed`, and `Failed` is final;
/// - the first failure recorded is kept;
/// - a derivation or store item once tracked stays tracked, at its position.
pub proof fn lemma_ingest_laws(s: SummaryView, e: ProgressEventView)
    requires
        summary_wf(s),
        s.builds.len() < usize::MAX,
        s.downloads.len() < usize::MAX,
    ensures
        summary_wf(ingest_spec(s, e)),
        ingest_spec(s, e).stage == Stage::Failed || stage_order(ingest_spec(s, e).stage) >= stage_order(s.stage),
        s.stage == Stage::Failed ==> ingest_spec(s, e).stage == Stage::Failed,
        s.failure is Some ==> ingest_spec(s, e).failure == s.failure,
        ingest_spec(s, e).builds.len() >= s.builds.len(),
        ingest_spec(s, e).downloads.len() >= s.downloads.len(),
        ingest_spec(s, e).builds.len() <= s.builds.len() + 1,
        ingest_spec(s, e).downloads.len() <= s.downloads.len() + 1,
        forall|i: int| 0 <= i < s.builds.len() ==> #[trigger] ingest_spec(s, e).builds[i].0 == s.builds[i].0,
        forall|i: int| 0 <= i < s.downloads.len() ==> #[trigger] ingest_spec(s, e).downloads[i].0 == s.downloads[i].0,
{
    lemma_count_finished_bound(s.builds);
    lemma_count_done_bound(s.downloads);
    match e {
        ProgressEventView::BuildStart { drv } => {
            if key_pos(s.builds, drv) is None {
                let x = (drv, new_build(drv, BuildStatus::Running));
                lemma_count_finished_push(s.builds, x);
                lemma_distinct_push(s.builds, x);
            }
        },
        ProgressEventView::BuildDone { drv } => match key_pos(s.builds, drv) {
            Some(i) => {
                let old = s.builds[i].1;
                let x = (drv, BuildEntryView { status: BuildStatus::Done, ..old });
                lemma_count_finished_update(s.builds, i, x);
                lemma_distinct_update(s.builds, i, x);
            },
            None => {
                let x = (drv, new_build(drv, BuildStatus::Done));
                lemma_count_finished_push(s.builds, x);
                lemma_distinct_push(s.builds, x);
            },
        },
        ProgressEventView::BuildFailed { drv, log_path } => match key_pos(s.builds, drv) {
            Some(i) => {
                let old = s.builds[i].1;
                let x = (drv, BuildEntryView { status: BuildStatus::Failed, ..old });
                lemma_count_finished_update(s.builds, i, x);
                lemma_distinct_update(s.builds, i, x);
            },
            None => {
                let x = (drv, new_build(drv, BuildStatus::Failed));
                lemma_count_finished_push(s.builds, x);
                lemma_distinct_push(s.builds, x);
            },
        },
        ProgressEventView::SubstituteDownload { item, bytes_done, bytes_total } => match key_pos(s.downloads, item) {
            Some(i) => {
                let old = s.downloads[i].1;
                let x = (item, DownloadEntryView {
                    bytes_done,
                    bytes_total: if bytes_total is Some { bytes_total } else { old.bytes_total },
                    ..old
                });
                lemma_count_done_update(s.downloads, i, x);
                lemma_distinct_update(s.downloads, i, x);
            },
            None => {
                let x = (item, DownloadEntryView {
                    item,
                    pretty_name: pretty_store_name_spec(item),
                    bytes_done,
                    bytes_total,
                    done: false,
                });
                lemma_count_done_push(s.downloads, x);
                lemma_distinct_push(s.downloads, x);
            },
        },
        ProgressEventView::SubstituteDownloadDone { item, bytes_total } => match key_pos(s.downloads, item) {
            Some(i) => {
                let old = s.downloads[i].1;
                let updated = match bytes_total {
                    Some(t) => DownloadEntryView {
                        done: true,
                        bytes_done: if t >= old.bytes_done { t } else { old.bytes_done },
                        bytes_total: if old.bytes_total is None { Some(t) } else { old.bytes_total },
                        ..old
                    },
                    None => DownloadEntryView { done: true, ..old },
                };
                lemma_count_done_update(s.downloads, i, (item, updated));
                lemma_distinct_update(s.downloads, i, (item, updated));
            },
            None => {
                let x = (item, DownloadEntryView {
                    item,
                    pretty_name: pretty_store_name_spec(item),
                    bytes_done: match bytes_total { Some(t) => t, None => 0 },
                    bytes_total,
                    done: true,
                });
                lemma_count_done_push(s.downloads, x);
                lemma_distinct_push(s.downloads, x);
            },
        },
        _ => {},
    }
}

/// With distinct keys, the entry at `i` is the one `key_pos` finds for its key.
pub proof fn lemma_key_pos_at<T>(t: Seq<(Seq<char>, T)>, i: int)
    requires
        keys_distinct(t),
        0 <= i < t.len(),
    ensures
        key_pos(t, t[i].0) == Some(i),
{
    let j = choose|j: int| 0 <= j < t.len() && t[j].0 == t[i].0;
    assert(t[j].0 == t[i].0);
}

/// Whether an event is one of the build or download events.
pub open spec fn is_item_event(e: ProgressEventView) -> bool {
    ||| e is BuildStart
    ||| e is BuildDone
    ||| e is BuildFailed
    ||| e is SubstituteDownload
    ||| e is SubstituteDownloadDone
}

/// A build or download event that arrives twice is counted once: ingesting
/// it a second time leaves the whole summary (stage, failure, tables,
/// counters and bytes) as the first time left it.
pub proof fn lemma_ingest_repeat(s: SummaryView, e: ProgressEventView)
    requires
        summary_wf(s),
        s.builds.len() < usize::MAX,
        s.downloads.len() < usize::MAX,
        is_item_event(e),
    ensures
        ingest_spec(ingest_spec(s, e), e) == ingest_spec(s, e),
{
    lemma_ingest_laws(s, e);
    let s1 = ingest_spec(s, e);
    match e {
        ProgressEventView::BuildStart { drv } => {
            let i = match key_pos(s.builds, drv) { Some(k) => k, None => s.builds.len() as int };
            assert(s1.builds[i].0 == drv);
            lemma_key_pos_at(s1.builds, i);
            assert(ingest_spec(s1, e) =~= s1);
        },
        ProgressEventView::BuildDone { drv } => {
            let i = match key_pos(s.builds, drv) { Some(k) => k, None => s.builds.len() as int };
            assert(s1.builds[i].0 == drv);
            lemma_key_pos_at(s1.builds, i);
            assert(s1.builds[i].1.status == BuildStatus::Done);
            assert(s1.builds.update(i, (drv, BuildEntryView { status: BuildStatus::Done, ..s1.builds[i].1 })) =~= s1.builds);
            assert(ingest_spec(s1, e) =~= s1);
        },
        ProgressEventView::BuildFailed { drv, log_path } => {
            let i = match key_pos(s.builds, drv) { Some(k) => k, None => s.builds.len() as int };
            assert(s1.builds[i].0 == drv);
            lemma_key_pos_at(s1.builds, i);
            assert(s1.builds[i].1.status == BuildStatus::Failed);
            assert(s1.builds.update(i, (drv, BuildEntryView { status: BuildStatus::Failed, ..s1.builds[i].1 })) =~= s1.builds);
            assert(ingest_spec(s1, e) =~= s1);
        },
        ProgressEventView::SubstituteDownload { item, bytes_done, bytes_total } => {
            let i = match key_pos(s.downloads, item) { Some(k) => k, None => s.downloads.len() as int };
            assert(s1.downloads[i].0 == item);
            lemma_key_pos_at(s1.downloads, i);
            let old = s1.downloads[i].1;
            assert(old.bytes_done == bytes_done);
            assert(bytes_total is Some ==> old.bytes_total == bytes_total);
            assert(s1.downloads.update(i, (item, DownloadEntryView {
                bytes_done,
                bytes_total: if bytes_total is Some { bytes_total } else { old.bytes_total },
                ..old
            })) =~= s1.downloads);
            assert(ingest_spec(s1, e) =~= s1);
        },
        ProgressEventView::SubstituteDownloadDone { item, bytes_total } => {
            let i = match key_pos(s.downloads, item) { Some(k) => k, None => s.downloads.len() as int };
            assert(s1.downloads[i].0 == item);
            lemma_key_pos_at(s1.downloads, i);
            let old = s1.downloads[i].1;
            assert(old.done);
            let updated = match bytes_total {
                Some(t) => DownloadEntryView {
                    done: true,
                    bytes_done: if t >= old.bytes_done { t } else { old.bytes_done },
                    bytes_total: if old.bytes_total is None { Some(t) } else { old.bytes_total },
                    ..old
                },
                None => DownloadEntryView { done: true, ..old },
            };
            assert(updated == old);
            assert(s1.downloads.update(i, (item, updated)) =~= s1.downloads);
            assert(ingest_spec(s1, e) =~= s1);
        },
        _ => {},
    }
}

/// Outside `Done`, the completion numerator is the number of builds that
/// succeeded plus the number of downloads marked done in the table.
pub proof fn lemma_percent_counts_finished(s: SummaryView)
    requires
        summary_wf(s),
        s.stage != Stage::Done,
        percent_parts_spec(s) is Some,
    ensures
        percent_parts_spec(s).unwrap().0 == s.build_count_done + count_done(s.downloads),
        percent_parts_spec(s).unwrap().0 == (count_finished(s.builds) - s.build_count_failed) + count_done(s.downloads),
{
}

/// The completion fraction: whole once the operation is done; otherwise
/// over the announced totals (the would-build / would-download counts when
/// known, else the started counts), and unknown while both totals are zero.
pub proof fn lemma_percent_shape(s: SummaryView)
    ensures
        s.stage == Stage::Done ==> percent_parts_spec(s) == Some((1u128, 1u128)),
        s.stage != Stage::Done ==> {
            let b: int = if s.would_build_count is Some { s.would_build_count.unwrap() as int } else { s.build_count_started as int };
            let d: int = if s.would_download_count is Some { s.would_download_count.unwrap() as int } else { s.download_count_started as int };
            &&& (percent_parts_spec(s) is None <==> b + d == 0)
            &&& b + d > 0 ==> percent_parts_spec(s).unwrap().1 == b + d
            &&& b + d > 0 ==> percent_parts_spec(s).unwrap().0 == s.build_count_done + s.download_count_done
        },
{
}

/// Marking a tracked, unfinished download done raises the completion
/// numerator by exactly one (the stage and totals being unaffected).
pub proof fn lemma_download_done_adds_one(s: SummaryView, item: Seq<char>, bytes_total: Option<u64>)
    requires
        summary_wf(s),
        s.builds.len() < usize::MAX,
        s.downloads.len() < usize::MAX,
        s.stage != Stage::Done,
        percent_parts_spec(s) is Some,
        key_pos(s.downloads, item) matches Some(i) && !s.downloads[i].1.done,
    ensures
        percent_parts_spec(ingest_spec(s, ProgressEventView::SubstituteDownloadDone { item, bytes_total })) is Some,
        percent_parts_spec(ingest_spec(s, ProgressEventView::SubstituteDownloadDone { item, bytes_total })).unwrap().0
            == percent_parts_spec(s).unwrap().0 + 1,
{
    let e = ProgressEventView::SubstituteDownloadDone { item, bytes_total };
    lemma_ingest_laws(s, e);
    lemma_count_done_bound(s.downloads);
}

/// A substitute-only run: from an empty summary, one download that starts
/// and then finishes is complete, whatever its item and sizes.
pub proof fn lemma_single_download_complete(s: SummaryView, item: Seq<char>, bytes_done: u64, total: Option<u64>, total2: Option<u64>)
    requires
        summary_wf(s),
        s.builds.len() == 0,
        s.downloads.len() == 0,
        s.stage == Stage::Starting,
        s.would_build_count is None,
        s.would_download_count is None,
    ensures
        percent_parts_spec(ingest_spec(ingest_spec(s,
            ProgressEventView::SubstituteDownload { item, bytes_done, bytes_total: total }),
            ProgressEventView::SubstituteDownloadDone { item, bytes_total: total2 })) == Some((1u128, 1u128)),
{
    let e1 = ProgressEventView::SubstituteDownload { item, bytes_done, bytes_total: total };
    let s1 = ingest_spec(s, e1);
    lemma_count_finished_bound(s.builds);
    lemma_count_done_bound(s.downloads);
    lemma_ingest_laws(s, e1);
    assert(key_pos(s.downloads, item) is None);
    assert(s1.downloads.len() == 1 && s1.downloads[0].0 == item);
    lemma_key_pos_at(s1.downloads, 0);
    assert(s.build_count_done == 0);
}

/// The summary after ingesting `es` in order.
pub open spec fn ingest_all(s: SummaryView, es: Seq<ProgressEventView>) -> SummaryView
    decreases es.len(),
{
    if es.len() == 0 {
        s
    } else {
        ingest_spec(ingest_all(s, es.drop_last()), es.last())
    }
}

/// The views of a batch of events.
pub open spec fn events_view(es: Seq<ProgressEvent>) -> Seq<ProgressEventView> {
    es.map_values(|e: ProgressEvent| e@)
}

impl Default for Summary {
    /// A summary at `Starting` with nothing tracked and no start instant.
    fn default() -> (s: Self)
        ensures
            s@.stage == Stage::Starting,
            s@.builds.len() == 0,
            s@.downloads.len() == 0,
            s@.build_count_started == 0 && s@.build_count_done == 0 && s@.build_count_failed == 0,
            s@.download_count_started == 0 && s@.download_count_done == 0,
            s@.bytes_downloaded == 0,
            s@.last_status_line is None,
            s.started_at is None,
            s.finished_at is None,
            s@.failure is None,
            s@.would_build_count is None && s@.would_download_count is None && s@.would_download_bytes is None,
            summary_wf(s@),
    {
        Summary {
            stage: Stage::Starting,
            builds: builds_new(),
            downloads: downloads_new(),
            build_count_started: 0,
            build_count_done: 0,
            build_count_failed: 0,
            download_count_started: 0,
            download_count_done: 0,
            bytes_downloaded: 0,
            last_status_line: None,
            started_at: None,
            finished_at: None,
            failure: None,
            would_build_count: None,
            would_download_count: None,
            would_download_bytes: None,
        }
    }
}

impl Summary {
    /// A summary at `Starting` with nothing tracked, whose start instant is
    /// recorded.
    pub fn new() -> (s: Self)
        ensures
            s@.stage == Stage::Starting,
            s@.builds.len() == 0,
            s@.downloads.len() == 0,
            s@.build_count_started == 0 && s@.build_count_done == 0 && s@.build_count_failed == 0,
            s@.download_count_started == 0 && s@.download_count_done == 0,
            s@.bytes_downloaded == 0,
            s@.last_status_line is None,
            s@.started,
            !s@.finished,
            s@.failure is None,
            s@.would_build_count is None && s@.would_download_count is None && s@.would_download_bytes is None,
            summary_wf(s@),
    {
        Summary {
            stage: Stage::Starting,
            builds: builds_new(),
            downloads: downloads_new(),
            build_count_started: 0,
            build_count_done: 0,
            build_count_failed: 0,
            download_count_started: 0,
            download_count_done: 0,
            bytes_downloaded: 0,
            last_status_line: None,
            started_at: Some(instant_now()),
            finished_at: None,
            failure: None,
            would_build_count: None,
            would_download_count: None,
            would_download_bytes: None,
        }
    }

    fn advance_to(&mut self, next: Stage)
        ensures
            final(self).stage == advance_spec(old(self).stage, next),
            final(self).builds == old(self).builds,
            final(self).downloads == old(self).downloads,
            final(self).build_count_started == old(self).build_count_started,
            final(self).build_count_done == old(self).build_count_done,
            final(self).build_count_failed == old(self).build_count_failed,
            final(self).download_count_started == old(self).download_count_started,
            final(self).download_count_done == old(self).download_count_done,
            final(self).bytes_downloaded == old(self).bytes_downloaded,
            final(self).last_status_line == old(self).last_status_line,
            final(self).started_at == old(self).started_at,
            final(self).finished_at == old(self).finished_at,
            final(self).failure == old(self).failure,
            final(self).would_build_count == old(self).would_build_count,
            final(self).would_download_count == old(self).would_download_count,
            final(self).would_download_bytes == old(self).would_download_bytes,
    {
        if self.stage == Stage::Failed {
            return;
        }
        if next == Stage::Failed {
            self.stage = Stage::Failed;
            return;
        }
        if next.order() > self.stage.order() {
            self.stage = next;
        }
    }

    /// Time since start: until the finish instant, or until now while
    /// running. `None` when no start was recorded.
    pub fn elapsed(&self) -> (r: Option<std::time::Duration>)
        ensures
            r is Some <==> self.started_at is Some,
            self.started_at is Some && self.finished_at is Some
                ==> r == Some(instant_duration(self.finished_at.unwrap(), self.started_at.unwrap())),
            self.started_at is Some && self.finished_at is None
                ==> exists|now: Instant| r == Some(instant_duration(now, self.started_at.unwrap())),
    {
        match self.started_at {
            None => None,
            Some(start) => {
                let end = match self.finished_at {
                    Some(f) => f,
                    None => instant_now(),
                };
                Some(instant_since(end, start))
            },
        }
    }

    /// The completion fraction as `(done, total)`: `(1, 1)` once done;
    /// otherwise finished builds and downloads over the totals, preferring
    /// the up-front would-build / would-download counts to the started
    /// counts; `None` while no total is known. The fraction may exceed 1
    /// and is clamped to `[0, 1]` by whoever divides.
    pub fn percent_parts(&self) -> (r: Option<(u128, u128)>)
        ensures
            r == percent_parts_spec(self@),
            self.stage != Stage::Done && r is Some
                ==> r.unwrap().0 == self.build_count_done + self.download_count_done,
    {
        if self.stage == Stage::Done {
            return Some((1, 1));
        }
        let build_total: u128 = match self.would_build_count {
            Some(n) => n as u128,
            None => self.build_count_started as u128,
        };
        let dl_total: u128 = match self.would_download_count {
            Some(n) => n as u128,
            None => self.download_count_started as u128,
        };
        let total = build_total + dl_total;
        if total == 0 {
            return None;
        }
        let done = self.build_count_done as u128 + self.download_count_done as u128;
        Some((done, total))
    }

    /// Folds one event into the summary.
    pub fn ingest(&mut self, evt: &ProgressEvent)
        requires
            summary_wf(old(self)@),
            old(self)@.builds.len() < usize::MAX,
            old(self)@.downloads.len() < usize::MAX,
        ensures
            final(self)@ == ingest_spec(old(self)@, evt@),
            final(self).started_at == old(self).started_at,
            !sets_finished(evt@) ==> final(self).finished_at == old(self).finished_at,
            summary_wf(final(self)@),
            final(self).stage == Stage::Failed || stage_order(final(self).stage) >= stage_order(old(self).stage),
            old(self).stage == Stage::Failed ==> final(self).stage == Stage::Failed,
    {
        proof {
            lemma_ingest_laws(self@, evt@);
            lemma_count_finished_bound(self@.builds);
            lemma_count_done_bound(self@.downloads);
        }
        match evt {
            ProgressEvent::ExitSummary { code, .. } => {
                self.finished_at = Some(instant_now());
                if *code == 0 {
                    self.advance_to(Stage::Done);
                } else {
                    if self.failure.is_none() {
                        self.failure = Some(Failure::Exit { code: *code });
                    }
                    self.advance_to(Stage::Failed);
                }
            },
            ProgressEvent::BuildStart { drv } => {
                let r = builds_index_of(&self.builds, drv.as_str());
                proof { lemma_key_pos(build_table(self.builds), drv@, r); }
                if r.is_none() {
                    self.build_count_started = self.build_count_started + 1;
                    let entry = BuildEntry {
                        drv: drv.clone(),
                        pretty_name: pretty_store_name(drv.as_str()),
                        status: BuildStatus::Running,
                    };
                    builds_insert_new(&mut self.builds, drv.clone(), entry);
                }
                self.advance_to(Stage::Building);
            },
            ProgressEvent::BuildDone { drv } => {
                let r = builds_index_of(&self.builds, drv.as_str());
                proof { lemma_key_pos(build_table(self.builds), drv@, r); }
                match r {
                    Some(i) => {
                        let old_entry = builds_get(&self.builds, i);
                        let was_running = old_entry.status == BuildStatus::Running;
                        let entry = BuildEntry {
                            drv: old_entry.drv.clone(),
                            pretty_name: old_entry.pretty_name.clone(),
                            status: BuildStatus::Done,
                        };
                        if was_running {
                            self.build_count_done = self.build_count_done + 1;
                        }
                        builds_set(&mut self.builds, i, entry);
                    },
                    None => {
                        self.build_count_started = self.build_count_started + 1;
                        self.build_count_done = self.build_count_done + 1;
                        let entry = BuildEntry {
                            drv: drv.clone(),
                            pretty_name: pretty_store_name(drv.as_str()),
                            status: BuildStatus::Done,
                        };
                        builds_insert_new(&mut self.builds, drv.clone(), entry);
                    },
                }
            },
            ProgressEvent::BuildFailed { drv, log_path } => {
                let r = builds_index_of(&self.builds, drv.as_str());
                proof { lemma_key_pos(build_table(self.builds), drv@, r); }
                match r {
                    Some(i) => {
                        let old_entry = builds_get(&self.builds, i);
                        let was_running = old_entry.status == BuildStatus::Running;
                        let entry = BuildEntry {
                            drv: old_entry.drv.clone(),
                            pretty_name: old_entry.pretty_name.clone(),
                            status: BuildStatus::Failed,
                        };
                        if was_running {
                            self.build_count_failed = self.build_count_failed + 1;
                        }
                        builds_set(&mut self.builds, i, entry);
                    },
                    None => {
                        self.build_count_started = self.build_count_started + 1;
                        self.build_count_failed = self.build_count_failed + 1;
                        let entry = BuildEntry {
                            drv: drv.clone(),
                            pretty_name: pretty_store_name(drv.as_str()),
                            status: BuildStatus::Failed,
                        };
                        builds_insert_new(&mut self.builds, drv.clone(), entry);
                    },
                }
                if self.failure.is_none() {
                    let lp = match log_path {
                        Some(l) => Some(l.clone()),
                        None => None,
                    };
                    self.failure = Some(Failure::Build { name: pretty_store_name(drv.as_str()), log_path: lp });
                }
                self.advance_to(Stage::Failed);
            },
            ProgressEvent::SubstituteDownload { item, bytes_done, bytes_total } => {
                let r = downloads_index_of(&self.downloads, item.as_str());
                proof { lemma_key_pos(download_table(self.downloads), item@, r); }
                match r {
                    Some(i) => {
                        let old_entry = downloads_get(&self.downloads, i);
                        let delta = if *bytes_done >= old_entry.bytes_done { *bytes_done - old_entry.bytes_done } else { 0 };
                        self.bytes_downloaded = self.bytes_downloaded.saturating_add(delta);
                        let entry = DownloadEntry {
                            item: old_entry.item.clone(),
                            pretty_name: old_entry.pretty_name.clone(),
                            bytes_done: *bytes_done,
                            bytes_total: if bytes_total.is_some() { *bytes_total } else { old_entry.bytes_total },
                            done: old_entry.done,
                        };
                        downloads_set(&mut self.downloads, i, entry);
                    },
                    None => {
                        self.download_count_started = self.download_count_started + 1;
                        self.bytes_downloaded = self.bytes_downloaded.saturating_add(*bytes_done);
                        let entry = DownloadEntry {
                            item: item.clone(),
                            pretty_name: pretty_store_name(item.as_str()),
                            bytes_done: *bytes_done,
                            bytes_total: *bytes_total,
                            done: false,
                        };
                        downloads_insert_new(&mut self.downloads, item.clone(), entry);
                    },
                }
                if self.stage == Stage::Starting || self.stage == Stage::ChannelUpdate || self.stage == Stage::ComputingDeriv {
                    self.advance_to(Stage::Downloading);
                }
            },
            ProgressEvent::SubstituteDownloadDone { item, bytes_total } => {
                let r = downloads_index_of(&self.downloads, item.as_str());
                proof { lemma_key_pos(download_table(self.downloads), item@, r); }
                match r {
                    Some(i) => {
                        let old_entry = downloads_get(&self.downloads, i);
                        let was_done = old_entry.done;
                        let entry = match bytes_total {
                            Some(t) => DownloadEntry {
                                item: old_entry.item.clone(),
                                pretty_name: old_entry.pretty_name.clone(),
                                bytes_done: if *t >= old_entry.bytes_done { *t } else { old_entry.bytes_done },
                                bytes_total: if old_entry.bytes_total.is_none() { Some(*t) } else { old_entry.bytes_total },
                                done: true,
                            },
                            None => DownloadEntry {
                                item: old_entry.item.clone(),
                                pretty_name: old_entry.pretty_name.clone(),
                                bytes_done: old_entry.bytes_done,
                                bytes_total: old_entry.bytes_total,
                                done: true,
                            },
                        };
                        if !was_done {
                            self.download_count_done = self.download_count_done + 1;
                        }
                        downloads_set(&mut self.downloads, i, entry);
                    },
                    None => {
                        self.download_count_started = self.download_count_started + 1;
                        self.download_count_done = self.download_count_done + 1;
                        let entry = DownloadEntry {
                            item: item.clone(),
                            pretty_name: pretty_store_name(item.as_str()),
                            bytes_done: match bytes_total {
                                Some(t) => *t,
                                None => 0,
                            },
                            bytes_total: *bytes_total,
                            done: true,
                        };
                        downloads_insert_new(&mut self.downloads, item.clone(), entry);
                    },
                }
            },
            ProgressEvent::PullComputingDerivation { .. } => {
                self.advance_to(Stage::ComputingDeriv);
            },
            ProgressEvent::Line { text, .. } => {
                let cs = chars_of(text.as_str());
                let trimmed = trim_end_newlines(&cs);
                if trimmed.len() > 0 {
                    self.last_status_line = Some(string_of(&trimmed));
                }
                if contains_str(&cs, "Updating channel") || contains_str(&cs, "Building from these channels") {
                    self.advance_to(Stage::ChannelUpdate);
                }
                if contains_str(&cs, "Computing Guix derivation") {
                    self.advance_to(Stage::ComputingDeriv);
                }
                if contains_str(&cs, "running profile hook") {
                    self.advance_to(Stage::Profile);
                }
                if contains_str(&cs, "nothing to be done") {
                    self.finished_at = Some(instant_now());
                    self.advance_to(Stage::Done);
                }
            },
            ProgressEvent::WouldBuild { items, .. } => {
                self.would_build_count = Some(items.len());
            },
            ProgressEvent::WouldDownload { bytes, items } => {
                self.would_download_count = Some(items.len());
                self.would_download_bytes = Some(*bytes);
            },
            _ => {},
        }
    }

    /// Folds a batch of events into the summary, in order.
    pub fn ingest_batch(&mut self, batch: &Vec<ProgressEvent>)
        requires
            summary_wf(old(self)@),
            old(self)@.builds.len() + batch@.len() < usize::MAX,
            old(self)@.downloads.len() + batch@.len() < usize::MAX,
        ensures
            final(self)@ == ingest_all(old(self)@, events_view(batch@)),
            summary_wf(final(self)@),
            final(self).started_at == old(self).started_at,
    {
        let ghost start = self@;
        let ghost es = events_view(batch@);
        let mut i: usize = 0;
        assert(es.subrange(0, 0) =~= Seq::<ProgressEventView>::empty());
        while i < batch.len()
            invariant
                i <= batch@.len(),
                es == events_view(batch@),
                self@ == ingest_all(start, es.subrange(0, i as int)),
                summary_wf(self@),
                self@.builds.len() <= start.builds.len() + i,
                self@.downloads.len() <= start.downloads.len() + i,
                start.builds.len() + batch@.len() < usize::MAX,
                start.downloads.len() + batch@.len() < usize::MAX,
                self.started_at == old(self).started_at,
            decreases batch@.len() - i,
        {
            proof {
                lemma_ingest_laws(self@, batch@[i as int]@);
                assert(es.subrange(0, i + 1).drop_last() =~= es.subrange(0, i as int));
                assert(es.subrange(0, i + 1).last() == batch@[i as int]@);
            }
            self.ingest(&batch[i]);
            i += 1;
        }
        assert(es.subrange(0, es.len() as int) =~= es);
    }
}

} // verus!
