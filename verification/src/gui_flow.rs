//! The GUI's decisions, apart from its widgets: which operations can be
//! cancelled, how a running operation's event batches are tracked, the
//! Channels tab's continuation after a pull (the deferred install, the
//! rollback offer), the add-channel form, and the summaries shown for
//! failures. Message ids stand for the translated texts.

use vstd::prelude::*;
use std::hash::{Hash, Hasher};
use crate::text::{chars_of, string_of, push_str, trim_spec, trim_chars, contains_str, contains_seq,
    starts_with_str, strip_prefix_spec, strip_prefix_str, sub_chars, eq_str};
use crate::types::{Channel, ChannelView, InstalledPackage, KnownBug, ProgressEvent, ProgressStream};
use crate::progress::{Stage, Failure, Summary, summary_wf, ingest_all, events_view};
use crate::installed::{bucket_index_from, buckets_vals};
use crate::channels::{ChannelsFile, ChannelsError, channels_error_message};

verus! {

/// The kinds of long-running operation the GUI starts.
#[derive(Debug, Clone, Copy, PartialEq, Eq, Hash, Structural)]
pub enum OpKind {
    Install,
    Remove,
    Upgrade,
    Pull,
    SystemPull,
    Reconfigure,
}

impl OpKind {
    /// The message id of the operation's label.
    pub fn label_id(self) -> (r: &'static str)
        ensures
            r@ == (match self {
                OpKind::Install => "op-install"@,
                OpKind::Remove => "op-remove"@,
                OpKind::Upgrade => "op-upgrade"@,
                OpKind::Pull => "op-pull"@,
                OpKind::SystemPull => "op-system-pull"@,
                OpKind::Reconfigure => "op-reconfigure"@,
            }),
    {
        match self {
            OpKind::Install => "op-install",
            OpKind::Remove => "op-remove",
            OpKind::Upgrade => "op-upgrade",
            OpKind::Pull => "op-pull",
            OpKind::SystemPull => "op-system-pull",
            OpKind::Reconfigure => "op-reconfigure",
        }
    }
}

/// The user's own operations can be cancelled; those run as root through
/// `pkexec` cannot be signalled.
pub fn op_supports_cancel(kind: OpKind) -> (r: bool)
    ensures
        r == !(kind == OpKind::SystemPull || kind == OpKind::Reconfigure),
{
    match kind {
        OpKind::SystemPull | OpKind::Reconfigure => false,
        _ => true,
    }
}

/// An operation's identity for the subscription that streams its events.
#[derive(Debug, Clone, Copy, PartialEq, Eq, Hash, Structural)]
pub struct OpId(pub u64);

/// Hands out operation ids, each larger than the last.
pub struct OpIdGen {
    pub next: u64,
}

impl OpIdGen {
    /// Ids start at 1.
    pub fn new() -> (g: Self)
        ensures
            g.next == 1,
    {
        OpIdGen { next: 1 }
    }

    /// The next id.
    pub fn next_id(&mut self) -> (id: OpId)
        requires
            old(self).next < u64::MAX,
        ensures
            id.0 == old(self).next,
            final(self).next == old(self).next + 1,
    {
        let id = OpId(self.next);
        self.next = self.next + 1;
        id
    }
}

/// Successive ids strictly increase.
pub proof fn lemma_ids_increase(a: u64, b: u64, c: u64)
    requires
        b == a + 1,
        c == b + 1,
    ensures
        a < b < c,
{
}

/// What the event stream of an operation yields to the GUI.
#[derive(Debug, Clone)]
pub enum OpEvent {
    Progress(Vec<ProgressEvent>),
    Finished,
}

/// What `DefaultHasher` gives after hashing a tag, an operation kind and an
/// id, in that order.
pub uninterp spec fn subscription_hash_of(tag: Seq<char>, kind: OpKind, id: u64) -> u64;

/// `DefaultHasher::new()` fed `tag`, `kind` and `id`, then `finish()`.
/// `DefaultHasher::new()` always starts from the same keys, so the result
/// depends on the three values alone.
#[verifier::external_body]
fn hash_tagged(tag: &str, kind: OpKind, id: OpId) -> (r: u64)
    ensures
        r == subscription_hash_of(tag@, kind, id.0),
{
    let mut h = std::collections::hash_map::DefaultHasher::new();
    tag.hash(&mut h);
    kind.hash(&mut h);
    id.hash(&mut h);
    h.finish()
}

/// The tag an operation's subscription id is hashed under.
pub const OPERATION_SUBSCRIPTION_TAG: &'static str = "guix-gui::operation";

/// The subscription id of an operation: the hash of the operation tag, the
/// kind and the id.
pub fn subscription_hash(kind: OpKind, id: OpId) -> (r: u64)
    ensures
        r == subscription_hash_of(OPERATION_SUBSCRIPTION_TAG@, kind, id.0),
{
    hash_tagged(OPERATION_SUBSCRIPTION_TAG, kind, id)
}

/// The substring of a stderr line that means the configuration imports a
/// module guix cannot find.
pub const BOOTSTRAP_HINT_PATTERN: &'static str = "no code for module";

/// What the GUI tracks of a running operation.
#[derive(Debug, Clone, Copy, PartialEq, Eq, Structural)]
pub struct ActiveOpState {
    pub id: OpId,
    pub kind: OpKind,
    /// The exit code of the last exit summary seen.
    pub final_code: Option<i32>,
    pub finished: bool,
    /// A stderr line showed the missing-module error.
    pub bootstrap_likely: bool,
    /// The channel-shadowing bug was detected (sticky).
    pub channel_shadow_seen: bool,
}

/// The state after one event.
pub open spec fn observe_spec(op: ActiveOpState, e: ProgressEvent) -> ActiveOpState {
    let op1 = match e {
        ProgressEvent::ExitSummary { code, .. } => ActiveOpState { final_code: Some(code), ..op },
        _ => op,
    };
    let op2 = match e {
        ProgressEvent::KnownBug(KnownBug::ChannelShadow74396) => ActiveOpState { channel_shadow_seen: true, ..op1 },
        _ => op1,
    };
    match e {
        ProgressEvent::Line { stream: ProgressStream::Stderr, text, .. } =>
            if !op2.bootstrap_likely && contains_seq(text@, BOOTSTRAP_HINT_PATTERN@) {
                ActiveOpState { bootstrap_likely: true, ..op2 }
            } else {
                op2
            },
        _ => op2,
    }
}

pub open spec fn observe_all(op: ActiveOpState, es: Seq<ProgressEvent>) -> ActiveOpState
    decreases es.len(),
{
    if es.len() == 0 { op } else { observe_spec(observe_all(op, es.drop_last()), es.last()) }
}

impl ActiveOpState {
    pub fn new(id: OpId, kind: OpKind) -> (s: Self)
        ensures
            s == (ActiveOpState { id, kind, final_code: None, finished: false, bootstrap_likely: false, channel_shadow_seen: false }),
    {
        ActiveOpState { id, kind, final_code: None, finished: false, bootstrap_likely: false, channel_shadow_seen: false }
    }

    /// Takes in one batch of events.
    pub fn observe_batch(&mut self, batch: &Vec<ProgressEvent>)
        ensures
            *final(self) == observe_all(*old(self), batch@),
    {
        let mut i: usize = 0;
        let ghost start = *self;
        assert(batch@.subrange(0, 0) =~= Seq::<ProgressEvent>::empty());
        while i < batch.len()
            invariant
                i <= batch@.len(),
                *self == observe_all(start, batch@.subrange(0, i as int)),
            decreases batch@.len() - i,
        {
            assert(batch@.subrange(0, i + 1).drop_last() =~= batch@.subrange(0, i as int));
            let e = &batch[i];
            if let ProgressEvent::ExitSummary { code, .. } = e {
                self.final_code = Some(*code);
            }
            if let ProgressEvent::KnownBug(KnownBug::ChannelShadow74396) = e {
                self.channel_shadow_seen = true;
            }
            if !self.bootstrap_likely {
                if let ProgressEvent::Line { stream: ProgressStream::Stderr, text, .. } = e {
                    let cs = chars_of(text.as_str());
                    if contains_str(&cs, BOOTSTRAP_HINT_PATTERN) {
                        self.bootstrap_likely = true;
                    }
                }
            }
            i += 1;
        }
        assert(batch@.subrange(0, batch@.len() as int) =~= batch@);
    }
}

/// A progress message of the running operation: its flags and exit code
/// observe the batch, and its summary folds the batch in, in order.
pub fn on_progress_batch(op: &mut ActiveOpState, summary: &mut Summary, batch: &Vec<ProgressEvent>)
    requires
        summary_wf(old(summary)@),
        old(summary)@.builds.len() + batch@.len() < usize::MAX,
        old(summary)@.downloads.len() + batch@.len() < usize::MAX,
    ensures
        *final(op) == observe_all(*old(op), batch@),
        final(summary)@ == ingest_all(old(summary)@, events_view(batch@)),
        summary_wf(final(summary)@),
{
    op.observe_batch(batch);
    summary.ingest_batch(batch);
}

/// The locale chain with `en` added at the end unless already present.
pub open spec fn with_en(ls: Seq<Seq<char>>) -> Seq<Seq<char>> {
    if ls.contains("en"@) { ls } else { ls.push("en"@) }
}

/// `Vec::dedup`: runs of equal neighbours collapsed to one.
pub open spec fn dedup_adjacent(ls: Seq<Seq<char>>) -> Seq<Seq<char>>
    decreases ls.len(),
{
    if ls.len() <= 1 {
        ls
    } else if ls.last() == ls[ls.len() - 2] {
        dedup_adjacent(ls.drop_last())
    } else {
        dedup_adjacent(ls.drop_last()).push(ls.last())
    }
}

proof fn lemma_dedup_last(ls: Seq<Seq<char>>)
    requires
        ls.len() >= 1,
    ensures
        dedup_adjacent(ls).len() >= 1,
        dedup_adjacent(ls).last() == ls.last(),
    decreases ls.len(),
{
    if ls.len() > 1 {
        lemma_dedup_last(ls.drop_last());
    }
}

/// The priority-ordered locale list: the (already validated) override
/// first, then the system's preference chain, with `en` as the final
/// backstop; neighbouring repeats dropped.
pub open spec fn requested_languages_spec(override_tag: Option<Seq<char>>, system: Seq<Seq<char>>) -> Seq<Seq<char>> {
    let head = match override_tag { Some(t) => seq![t], None => Seq::<Seq<char>>::empty() };
    dedup_adjacent(with_en(head + system))
}

fn contains_en(v: &Vec<String>) -> (r: bool)
    ensures
        r == crate::types::strings_view(v@).contains("en"@),
{
    let ghost sv = crate::types::strings_view(v@);
    let mut k: usize = 0;
    while k < v.len()
        invariant
            k <= v@.len(),
            sv == crate::types::strings_view(v@),
            forall|j: int| 0 <= j < k ==> sv[j] != "en"@,
        decreases v@.len() - k,
    {
        let c = chars_of(v[k].as_str());
        assert(sv[k as int] == v@[k as int]@);
        if eq_str(&c, "en") {
            assert(sv.contains("en"@));
            return true;
        }
        k += 1;
    }
    false
}

fn dedup_strings(v: &Vec<String>) -> (r: Vec<String>)
    ensures
        crate::types::strings_view(r@) == dedup_adjacent(crate::types::strings_view(v@)),
{
    let ghost full = crate::types::strings_view(v@);
    let mut out: Vec<String> = Vec::new();
    let mut m: usize = 0;
    assert(full.subrange(0, 0) =~= Seq::<Seq<char>>::empty());
    while m < v.len()
        invariant
            m <= v@.len(),
            full == crate::types::strings_view(v@),
            crate::types::strings_view(out@) == dedup_adjacent(full.subrange(0, m as int)),
        decreases v@.len() - m,
    {
        let ghost sub = full.subrange(0, m + 1);
        assert(sub.drop_last() =~= full.subrange(0, m as int));
        assert(sub.last() == v@[m as int]@);
        let ghost before = crate::types::strings_view(out@);
        let keep = if m == 0 {
            true
        } else {
            assert(sub[sub.len() - 2] == v@[m - 1]@);
            let a = chars_of(v[m].as_str());
            !eq_str(&a, v[m - 1].as_str())
        };
        if keep {
            out.push(v[m].clone());
            assert(crate::types::strings_view(out@) =~= before.push(v@[m as int]@));
        }
        m += 1;
    }
    assert(full.subrange(0, full.len() as int) =~= full);
    out
}

/// Builds the locale list from an override tag the caller has checked to be
/// a language identifier and the system's preferred tags.
pub fn requested_languages(override_tag: Option<&str>, system: &Vec<String>) -> (r: Vec<String>)
    ensures
        crate::types::strings_view(r@) == requested_languages_spec(
            match override_tag { Some(t) => Some(t@), None => None },
            crate::types::strings_view(system@),
        ),
{
    let mut all: Vec<String> = Vec::new();
    if let Some(t) = override_tag {
        all.push(String::from_str(t));
    }
    let ghost head = crate::types::strings_view(all@);
    assert(head =~= (match override_tag { Some(t) => seq![t@], None => Seq::<Seq<char>>::empty() }));
    let mut i: usize = 0;
    while i < system.len()
        invariant
            i <= system@.len(),
            crate::types::strings_view(all@) == head + crate::types::strings_view(system@).subrange(0, i as int),
        decreases system@.len() - i,
    {
        let ghost before = crate::types::strings_view(all@);
        all.push(system[i].clone());
        assert(crate::types::strings_view(all@) =~= before.push(system@[i as int]@));
        assert(crate::types::strings_view(system@).subrange(0, i + 1)
            =~= crate::types::strings_view(system@).subrange(0, i as int).push(system@[i as int]@));
        i += 1;
    }
    assert(crate::types::strings_view(system@).subrange(0, system@.len() as int) =~= crate::types::strings_view(system@));
    let ghost joined = crate::types::strings_view(all@);
    if !contains_en(&all) {
        all.push(String::from_str("en"));
        assert(crate::types::strings_view(all@) =~= joined.push("en"@));
    }
    dedup_strings(&all)
}

/// Whether an event reaches the log view: the library's `[repl-op]`
/// diagnostics only when debugging.
pub fn line_visible(debug_events: bool, e: &ProgressEvent) -> (r: bool)
    ensures
        r == (debug_events || !(e matches ProgressEvent::Line { text, .. } && "[repl-op]"@.is_prefix_of(text@))),
{
    if debug_events {
        return true;
    }
    match e {
        ProgressEvent::Line { text, .. } => {
            let cs = chars_of(text.as_str());
            !starts_with_str(&cs, "[repl-op]")
        },
        _ => true,
    }
}

/// A toast shown on the Channels tab (by message id).
#[derive(Debug, Clone, PartialEq, Eq)]
pub enum Notice {
    /// `channels-updated`.
    Updated,
    /// `channels-added-install-prompt`, with the package.
    AddedInstallPrompt(String),
    /// `channels-restored`.
    Restored,
}

/// The rollback offer raised when a pull after a channels edit fails; the
/// backup path is the one known when the offer was made.
#[derive(Debug, Clone, PartialEq, Eq)]
pub struct RollbackOffer {
    pub backup_path: Option<String>,
    pub bug: Option<KnownBug>,
}

/// The Channels tab's pending state across a write and the pull after it.
#[derive(Debug, Clone)]
pub struct ChannelsFlow {
    pub pending_pull_after_write: bool,
    pub pending_install: Option<String>,
    pub last_message: Option<Notice>,
    pub post_apply_install_prompt: Option<String>,
    pub backup_path: Option<String>,
    pub rollback_offer: Option<RollbackOffer>,
    pub pending_remove: Option<String>,
    pub installed_by_channel: Option<Vec<(String, Vec<InstalledPackage>)>>,
    pub installed_by_channel_loading: bool,
    pub discover_pending_add: Option<Channel>,
    pub discover_pending_install: Option<String>,
}

/// What the GUI does once an operation has finished.
#[derive(Debug, Clone, PartialEq, Eq)]
pub enum FinishAction {
    /// Reload the channel list and the pull times, then install the
    /// package, if any.
    RefreshAfterPull(Option<String>),
    /// Reload the installed packages.
    RefreshInstalled,
    Nothing,
}

pub open spec fn is_profile_op(k: OpKind) -> bool {
    k == OpKind::Install || k == OpKind::Remove || k == OpKind::Upgrade
}

impl ChannelsFlow {
    /// Nothing pending.
    pub fn new() -> (f: Self)
        ensures
            !f.pending_pull_after_write,
            f.pending_install is None,
            f.last_message is None,
            f.post_apply_install_prompt is None,
            f.backup_path is None,
            f.rollback_offer is None,
            f.pending_remove is None,
            f.installed_by_channel is None,
            !f.installed_by_channel_loading,
            f.discover_pending_add is None,
            f.discover_pending_install is None,
    {
        ChannelsFlow {
            pending_pull_after_write: false,
            pending_install: None,
            last_message: None,
            post_apply_install_prompt: None,
            backup_path: None,
            rollback_offer: None,
            pending_remove: None,
            installed_by_channel: None,
            installed_by_channel_loading: false,
            discover_pending_add: None,
            discover_pending_install: None,
        }
    }

    /// An operation finished. A pull started after a channels edit either
    /// succeeds (the deferred install fires, the channels reload) or
    /// fails (the deferred install is dropped and the rollback offer is
    /// raised, with the channel-shadowing bug when it was seen); either
    /// way its pending flags and toast clear. Profile changes, finished
    /// or not, drop the installed-by-channel cache.
    pub fn on_finished(&mut self, op: &mut ActiveOpState) -> (a: FinishAction)
        ensures
            final(op).finished,
            *final(op) == (ActiveOpState { finished: true, ..*old(op) }),
            is_profile_op(old(op).kind) ==> final(self).installed_by_channel is None,
            !is_profile_op(old(op).kind) ==> final(self).installed_by_channel == old(self).installed_by_channel,
            ({
                let channels_pull = old(op).kind == OpKind::Pull && old(self).pending_pull_after_write;
                let success = old(op).final_code == Some(0i32);
                if channels_pull {
                    &&& !final(self).pending_pull_after_write
                    &&& final(self).pending_install is None
                    &&& final(self).last_message is None
                    &&& final(self).post_apply_install_prompt is None
                    &&& if success {
                        &&& a == FinishAction::RefreshAfterPull(old(self).pending_install)
                        &&& final(self).rollback_offer == old(self).rollback_offer
                    } else {
                        &&& a == FinishAction::Nothing
                        &&& final(self).rollback_offer == Some(RollbackOffer {
                            backup_path: old(self).backup_path,
                            bug: if old(op).channel_shadow_seen { Some(KnownBug::ChannelShadow74396) } else { None },
                        })
                    }
                } else {
                    &&& final(self).pending_pull_after_write == old(self).pending_pull_after_write
                    &&& final(self).pending_install == old(self).pending_install
                    &&& final(self).last_message == old(self).last_message
                    &&& final(self).post_apply_install_prompt == old(self).post_apply_install_prompt
                    &&& final(self).rollback_offer == old(self).rollback_offer
                    &&& a == if (old(op).kind == OpKind::Pull || old(op).kind == OpKind::SystemPull) && success {
                        FinishAction::RefreshAfterPull(None)
                    } else if is_profile_op(old(op).kind) && success {
                        FinishAction::RefreshInstalled
                    } else {
                        FinishAction::Nothing
                    }
                }
            }),
            final(self).backup_path == old(self).backup_path,
            final(self).pending_remove == old(self).pending_remove,
            final(self).installed_by_channel_loading == old(self).installed_by_channel_loading,
            final(self).discover_pending_add == old(self).discover_pending_add,
            final(self).discover_pending_install == old(self).discover_pending_install,
    {
        let success = match op.final_code {
            Some(c) => c == 0,
            None => false,
        };
        let kind = op.kind;
        let profile_op = match kind {
            OpKind::Install | OpKind::Remove | OpKind::Upgrade => true,
            _ => false,
        };
        if profile_op {
            self.installed_by_channel = None;
        }
        let channels_pull = kind == OpKind::Pull && self.pending_pull_after_write;
        op.finished = true;
        if channels_pull {
            let pending = self.pending_install.take();
            self.pending_pull_after_write = false;
            self.last_message = None;
            self.post_apply_install_prompt = None;
            if success {
                return FinishAction::RefreshAfterPull(pending);
            }
            let bug = if op.channel_shadow_seen { Some(KnownBug::ChannelShadow74396) } else { None };
            let backup = match &self.backup_path {
                Some(p) => Some(p.clone()),
                None => None,
            };
            self.rollback_offer = Some(RollbackOffer { backup_path: backup, bug });
            return FinishAction::Nothing;
        }
        if (kind == OpKind::Pull || kind == OpKind::SystemPull) && success {
            FinishAction::RefreshAfterPull(None)
        } else if profile_op && success {
            FinishAction::RefreshInstalled
        } else {
            FinishAction::Nothing
        }
    }

    /// "Pull" on the post-write toast: the next pull belongs to the edit,
    /// with no install after it.
    pub fn toast_pull(&mut self)
        ensures
            *final(self) == (ChannelsFlow {
                pending_pull_after_write: true,
                pending_install: None,
                last_message: None,
                post_apply_install_prompt: None,
                ..*old(self)
            }),
    {
        self.pending_pull_after_write = true;
        self.pending_install = None;
        self.last_message = None;
        self.post_apply_install_prompt = None;
    }

    /// "Pull, then install PKG" on the post-write toast.
    pub fn toast_pull_and_install(&mut self, name: String)
        ensures
            *final(self) == (ChannelsFlow {
                pending_pull_after_write: true,
                pending_install: Some(name),
                last_message: None,
                post_apply_install_prompt: None,
                ..*old(self)
            }),
    {
        self.pending_pull_after_write = true;
        self.pending_install = Some(name);
        self.last_message = None;
        self.post_apply_install_prompt = None;
    }

    /// The toast is dismissed.
    pub fn toast_dismissed(&mut self)
        ensures
            *final(self) == (ChannelsFlow { last_message: None, post_apply_install_prompt: None, ..*old(self) }),
    {
        self.last_message = None;
        self.post_apply_install_prompt = None;
    }

    /// Remove is armed on a channel; the answer is whether the
    /// installed-by-channel lookup should start (no cache and none
    /// running).
    pub fn remove_clicked(&mut self, name: String) -> (fetch: bool)
        ensures
            *final(self) == (ChannelsFlow { pending_remove: Some(name), last_message: None, ..*old(self) }),
            fetch == (old(self).installed_by_channel is None && !old(self).installed_by_channel_loading),
    {
        self.pending_remove = Some(name);
        self.last_message = None;
        self.installed_by_channel.is_none() && !self.installed_by_channel_loading
    }

    /// The lookup answered: a failure is kept as an empty map, so it is
    /// not retried on every repaint.
    pub fn installed_by_channel_loaded(&mut self, result: Option<Vec<(String, Vec<InstalledPackage>)>>)
        ensures
            final(self).installed_by_channel matches Some(m) && match result {
                Some(x) => m == x,
                None => m@.len() == 0,
            },
            !final(self).installed_by_channel_loading,
            *final(self) == (ChannelsFlow {
                installed_by_channel: final(self).installed_by_channel,
                installed_by_channel_loading: false,
                ..*old(self)
            }),
    {
        self.installed_by_channel_loading = false;
        self.installed_by_channel = Some(match result {
            Some(m) => m,
            None => Vec::new(),
        });
    }

    /// "Add" on a catalog channel (no install after it).
    pub fn discover_add(&mut self, ch: Channel)
        ensures
            *final(self) == (ChannelsFlow { discover_pending_add: Some(ch), discover_pending_install: None, ..*old(self) }),
    {
        self.discover_pending_add = Some(ch);
        self.discover_pending_install = None;
    }

    /// "Add channel & install PKG" on a catalog package.
    pub fn discover_add_and_install(&mut self, ch: Channel, pkg: String)
        ensures
            *final(self) == (ChannelsFlow { discover_pending_add: Some(ch), discover_pending_install: Some(pkg), ..*old(self) }),
    {
        self.discover_pending_add = Some(ch);
        self.discover_pending_install = Some(pkg);
    }

    /// The add dialog is cancelled.
    pub fn discover_add_cancelled(&mut self)
        ensures
            *final(self) == (ChannelsFlow { discover_pending_add: None, discover_pending_install: None, ..*old(self) }),
    {
        self.discover_pending_add = None;
        self.discover_pending_install = None;
    }

    /// A channels write completed: the new backup path is kept, and the
    /// install pairing (if any) becomes the toast's prompt.
    pub fn apply_completed(&mut self, backup_path: Option<String>)
        ensures
            final(self).backup_path == backup_path,
            final(self).discover_pending_install is None,
            match old(self).discover_pending_install {
                Some(n) => final(self).post_apply_install_prompt == Some(n)
                    && final(self).last_message == Some(Notice::AddedInstallPrompt(n)),
                None => final(self).post_apply_install_prompt is None && final(self).last_message == Some(Notice::Updated),
            },
            *final(self) == (ChannelsFlow {
                backup_path: final(self).backup_path,
                discover_pending_install: None,
                post_apply_install_prompt: final(self).post_apply_install_prompt,
                last_message: final(self).last_message,
                ..*old(self)
            }),
    {
        self.backup_path = backup_path;
        match self.discover_pending_install.take() {
            Some(name) => {
                self.post_apply_install_prompt = Some(name.clone());
                self.last_message = Some(Notice::AddedInstallPrompt(name));
            },
            None => {
                self.post_apply_install_prompt = None;
                self.last_message = Some(Notice::Updated);
            },
        }
    }

    /// The rollback offer is dismissed.
    pub fn rollback_dismissed(&mut self)
        ensures
            *final(self) == (ChannelsFlow { rollback_offer: None, ..*old(self) }),
    {
        self.rollback_offer = None;
    }
}

/// Whether the Remove confirmation expands into the warning that lists
/// the installed packages coming from the channel: only when this channel
/// is the one armed, the lookup has answered, and it lists at least one
/// package for the channel.
pub open spec fn remove_warning_spec(pending: Option<Seq<char>>, by_channel: Option<Seq<(String, Vec<InstalledPackage>)>>, name: Seq<char>) -> bool {
    pending == Some(name) && match by_channel {
        Some(m) => match bucket_index_from(buckets_vals(m), name, 0) {
            Some(i) => m[i].1@.len() > 0,
            None => false,
        },
        None => false,
    }
}

pub fn should_render_remove_warning(
    pending_remove: Option<&str>,
    installed_by_channel: Option<&Vec<(String, Vec<InstalledPackage>)>>,
    channel_name: &str,
) -> (r: bool)
    ensures
        r == remove_warning_spec(
            match pending_remove { Some(p) => Some(p@), None => None },
            match installed_by_channel { Some(m) => Some(m@), None => None },
            channel_name@,
        ),
{
    match pending_remove {
        Some(p) => {
            let pc = chars_of(p);
            if !crate::text::eq_str(&pc, channel_name) {
                return false;
            }
        },
        None => return false,
    }
    match installed_by_channel {
        Some(m) => match crate::installed::bucket_get(m, channel_name) {
            Some(v) => {
                proof {
                    crate::installed::lemma_bucket_index_from(buckets_vals(m@), channel_name@, 0);
                }
                v.len() > 0
            },
            None => false,
        },
        None => false,
    }
}

/// The longest summary shown for a failed search, in characters.
pub const SEARCH_ERROR_SUMMARY_CAP: usize = 200;

/// A failed search: a one-line summary and the full text.
#[derive(Debug, Clone, PartialEq, Eq)]
pub struct SearchError {
    pub summary: String,
    pub details: String,
}

/// The first line with non-blank content.
pub open spec fn first_content_line(ls: Seq<Seq<char>>) -> Option<Seq<char>>
    decreases ls.len(),
{
    if ls.len() == 0 {
        None
    } else if trim_spec(ls[0]).len() > 0 {
        Some(ls[0])
    } else {
        first_content_line(ls.drop_first())
    }
}

/// The summary: the first non-blank line without a leading
/// `repl protocol error: `, or the `search-failed` message when there is
/// none; longer than the cap, it keeps the first cap − 1 characters and
/// an ellipsis.
pub open spec fn search_summary_spec(details: Seq<char>, fallback: Seq<char>) -> Seq<char> {
    let s = match first_content_line(crate::recutils::lines_spec(details)) {
        Some(l) => match strip_prefix_spec(l, "repl protocol error: "@) {
            Some(rest) => rest,
            None => l,
        },
        None => fallback,
    };
    if s.len() > 200 { s.take(199).push('\u{2026}') } else { s }
}

fn first_content_index(ls: &Vec<Vec<char>>) -> (r: Option<usize>)
    ensures
        match r {
            Some(i) => i < ls@.len() && first_content_line(ls@.map_values(|v: Vec<char>| v@)) == Some(ls@[i as int]@),
            None => first_content_line(ls@.map_values(|v: Vec<char>| v@)) is None,
        },
{
    let ghost lv = ls@.map_values(|v: Vec<char>| v@);
    let mut i: usize = 0;
    assert(lv.subrange(0, lv.len() as int) =~= lv);
    while i < ls.len()
        invariant
            i <= ls@.len(),
            lv == ls@.map_values(|v: Vec<char>| v@),
            first_content_line(lv) == first_content_line(lv.subrange(i as int, lv.len() as int)),
        decreases ls@.len() - i,
    {
        let ghost sub = lv.subrange(i as int, lv.len() as int);
        assert(sub.drop_first() =~= lv.subrange(i + 1, lv.len() as int));
        assert(sub[0] == ls@[i as int]@);
        let t = trim_chars(&ls[i]);
        if t.len() > 0 {
            return Some(i);
        }
        i += 1;
    }
    None
}

pub fn build_search_error(details: String, search_failed_text: &str) -> (e: SearchError)
    ensures
        e.details == details,
        e.summary@ == search_summary_spec(details@, search_failed_text@),
{
    let cs = chars_of(details.as_str());
    let ls = crate::recutils::lines_of(&cs);
    let s: Vec<char> = match first_content_index(&ls) {
        Some(i) => {
            let l = sub_chars(&ls[i], 0, ls[i].len());
            assert(ls@[i as int]@.subrange(0, ls@[i as int]@.len() as int) =~= ls@[i as int]@);
            match strip_prefix_str(&l, "repl protocol error: ") {
                Some(rest) => rest,
                None => l,
            }
        },
        None => chars_of(search_failed_text),
    };
    let ghost sv = s@;
    let summary = if s.len() > SEARCH_ERROR_SUMMARY_CAP {
        let mut t = sub_chars(&s, 0, SEARCH_ERROR_SUMMARY_CAP - 1);
        t.push('\u{2026}');
        assert(t@ =~= sv.take(199).push('\u{2026}'));
        string_of(&t)
    } else {
        string_of(&s)
    };
    SearchError { summary, details }
}

/// The help shown when a reconfigure fails on a module guix cannot find:
/// the command to run with the configuration's directory on the load
/// path (placeholders where a path is unknown).
pub open spec fn bootstrap_help_spec(load: Option<Seq<char>>, cfg: Option<Seq<char>>) -> Seq<char> {
    "Reconfigure failed: guix doesn't recognise a module your configuration imports. Put the module's directory on the load path once:\n\n    sudo guix system reconfigure -L "@
        + (match load { Some(l) => l, None => "<parent of config>"@ }) + " "@
        + (match cfg { Some(c) => c, None => "<set source config>"@ })
}

/// Whether the missing-module help is shown: a finished reconfigure that
/// did not exit 0 and whose stderr showed the missing-module error.
pub fn show_bootstrap_help(op: Option<&ActiveOpState>) -> (r: bool)
    ensures
        r == match op {
            Some(o) => o.finished && o.kind == OpKind::Reconfigure && o.bootstrap_likely && o.final_code != Some(0i32),
            None => false,
        },
{
    match op {
        Some(o) => o.finished && o.kind == OpKind::Reconfigure && o.bootstrap_likely && o.final_code != Some(0),
        None => false,
    }
}

/// The load path offered in that help: the source configuration's
/// directory, unless there is none or it is empty.
pub fn auto_load_path(source_config_path: Option<&str>) -> (r: Option<String>)
    ensures
        match source_config_path {
            Some(c) => match crate::paths::path_parent(c@) {
                Some(d) => if d.len() > 0 { r matches Some(x) && x@ == d } else { r is None },
                None => r is None,
            },
            None => r is None,
        },
{
    let cfg = match source_config_path {
        Some(c) => c,
        None => return None,
    };
    match crate::paths::parent(cfg) {
        Some(d) => {
            if d.as_str().is_empty() {
                None
            } else {
                Some(d)
            }
        },
        None => None,
    }
}

pub fn bootstrap_help_message(auto_load_path: Option<&str>, source_config_path: Option<&str>) -> (r: String)
    ensures
        r@ == bootstrap_help_spec(
            match auto_load_path { Some(p) => Some(p@), None => None },
            match source_config_path { Some(p) => Some(p@), None => None },
        ),
{
    let mut v: Vec<char> = Vec::new();
    push_str(&mut v, "Reconfigure failed: guix doesn't recognise a module your configuration imports. Put the module's directory on the load path once:\n\n    sudo guix system reconfigure -L ");
    match auto_load_path {
        Some(p) => push_str(&mut v, p),
        None => push_str(&mut v, "<parent of config>"),
    }
    push_str(&mut v, " ");
    match source_config_path {
        Some(p) => push_str(&mut v, p),
        None => push_str(&mut v, "<set source config>"),
    }
    string_of(&v)
}

/// A translatable message: its id and its named arguments.
#[derive(Debug, Clone, PartialEq, Eq)]
pub struct Localized {
    pub id: String,
    pub args: Vec<(String, String)>,
}

pub open spec fn localized_view(l: Localized) -> (Seq<char>, Seq<(Seq<char>, Seq<char>)>) {
    (l.id@, l.args@.map_values(|a: (String, String)| (a.0@, a.1@)))
}

/// The message for a failed operation.
pub open spec fn failure_text_spec(f: Failure) -> (Seq<char>, Seq<(Seq<char>, Seq<char>)>) {
    match f {
        Failure::Exit { code } => ("app-failed-exit"@, seq![("code"@, crate::package::signed_decimal(code as int))]),
        Failure::Build { name, log_path } => match log_path {
            Some(log) => ("stage-build-failed-log"@, seq![("name"@, name@), ("log"@, log@)]),
            None => ("stage-build-failed"@, seq![("name"@, name@)]),
        },
    }
}

pub(crate) fn arg(k: &str, v: String) -> (a: (String, String))
    ensures
        a.0@ == k@ && a.1@ == v@,
{
    (String::from_str(k), v)
}

pub fn failure_text(f: &Failure) -> (r: Localized)
    ensures
        localized_view(r) == failure_text_spec(*f),
{
    let mut args: Vec<(String, String)> = Vec::new();
    let id = match f {
        Failure::Exit { code } => {
            args.push(arg("code", crate::package::i64_string(*code as i64)));
            "app-failed-exit"
        },
        Failure::Build { name, log_path } => {
            args.push(arg("name", name.clone()));
            match log_path {
                Some(log) => {
                    args.push(arg("log", log.clone()));
                    "stage-build-failed-log"
                },
                None => "stage-build-failed",
            }
        },
    };
    let r = Localized { id: String::from_str(id), args };
    assert(localized_view(r) =~= failure_text_spec(*f));
    r
}

/// The message id of a stage's label.
pub fn stage_label_id(s: Stage) -> (r: &'static str)
    ensures
        r@ == (match s {
            Stage::Starting => "stage-starting"@,
            Stage::ChannelUpdate => "stage-channel-update"@,
            Stage::ComputingDeriv => "stage-computing-deriv"@,
            Stage::Downloading => "stage-downloading"@,
            Stage::Building => "stage-building"@,
            Stage::Profile => "stage-profile"@,
            Stage::Done => "stage-done"@,
            Stage::Failed => "stage-failed"@,
        }),
{
    match s {
        Stage::Starting => "stage-starting",
        Stage::ChannelUpdate => "stage-channel-update",
        Stage::ComputingDeriv => "stage-computing-deriv",
        Stage::Downloading => "stage-downloading",
        Stage::Building => "stage-building",
        Stage::Profile => "stage-profile",
        Stage::Done => "stage-done",
        Stage::Failed => "stage-failed",
    }
}

/// The status line under the progress bar: fixed texts at the start and
/// the end, otherwise the stage's label followed by `...`.
pub fn running_status_text(stage: Stage, stage_label: &str) -> (r: String)
    ensures
        r@ == (match stage {
            Stage::Starting => "Starting..."@,
            Stage::Done => "Done."@,
            Stage::Failed => "Failed."@,
            _ => stage_label@ + "..."@,
        }),
{
    match stage {
        Stage::Starting => String::from_str("Starting..."),
        Stage::Done => String::from_str("Done."),
        Stage::Failed => String::from_str("Failed."),
        _ => {
            let mut v: Vec<char> = Vec::new();
            push_str(&mut v, stage_label);
            push_str(&mut v, "...");
            string_of(&v)
        },
    }
}

/// The Channels tab's sub-view.
#[derive(Debug, Clone, Copy, PartialEq, Eq, Structural)]
pub enum ChannelsSubMode {
    Installed,
    Discover,
}

impl Default for ChannelsSubMode {
    fn default() -> (m: Self)
        ensures
            m == ChannelsSubMode::Installed,
    {
        ChannelsSubMode::Installed
    }
}

/// Why the add-channel form cannot make a channel (by message id).
#[derive(Debug, Clone, Copy, PartialEq, Eq, Structural)]
pub enum FormError {
    /// `channels-form-name-required`.
    NameRequired,
    /// `channels-form-url-required`.
    UrlRequired,
    /// `channels-form-intro-required`.
    IntroRequired,
}

impl FormError {
    pub fn message_id(self) -> (r: &'static str)
        ensures
            r@ == (match self {
                FormError::NameRequired => "channels-form-name-required"@,
                FormError::UrlRequired => "channels-form-url-required"@,
                FormError::IntroRequired => "channels-form-intro-required"@,
            }),
    {
        match self {
            FormError::NameRequired => "channels-form-name-required",
            FormError::UrlRequired => "channels-form-url-required",
            FormError::IntroRequired => "channels-form-intro-required",
        }
    }
}

/// The add-channel form's fields as typed.
#[derive(Debug, Clone)]
pub struct AddChannelForm {
    pub name: String,
    pub url: String,
    pub branch: String,
    pub commit: String,
    pub intro_commit: String,
    pub intro_fpr: String,
}

/// A trimmed optional field: absent when blank.
pub open spec fn opt_field(s: Seq<char>) -> Option<Seq<char>> {
    if trim_spec(s).len() == 0 { None } else { Some(trim_spec(s)) }
}

/// The channel the form makes (every field trimmed): name, URL and both
/// parts of the introduction are required, in that order of checking.
pub open spec fn form_spec(f: AddChannelForm) -> Result<ChannelView, FormError> {
    if trim_spec(f.name@).len() == 0 {
        Err(FormError::NameRequired)
    } else if trim_spec(f.url@).len() == 0 {
        Err(FormError::UrlRequired)
    } else if trim_spec(f.intro_commit@).len() == 0 || trim_spec(f.intro_fpr@).len() == 0 {
        Err(FormError::IntroRequired)
    } else {
        Ok(ChannelView {
            name: trim_spec(f.name@),
            url: trim_spec(f.url@),
            branch: opt_field(f.branch@),
            commit: opt_field(f.commit@),
            introduction_commit: Some(trim_spec(f.intro_commit@)),
            introduction_fingerprint: Some(trim_spec(f.intro_fpr@)),
        })
    }
}

fn opt_trimmed(s: &String) -> (r: Option<String>)
    ensures
        crate::types::opt_view(r) == opt_field(s@),
{
    let cs = chars_of(s.as_str());
    let t = trim_chars(&cs);
    if t.len() == 0 { None } else { Some(string_of(&t)) }
}

fn trimmed(s: &String) -> (r: Vec<char>)
    ensures
        r@ == trim_spec(s@),
{
    let cs = chars_of(s.as_str());
    trim_chars(&cs)
}

impl AddChannelForm {
    /// All fields empty.
    pub fn new() -> (f: Self)
        ensures
            f.name@.len() == 0 && f.url@.len() == 0 && f.branch@.len() == 0 && f.commit@.len() == 0
                && f.intro_commit@.len() == 0 && f.intro_fpr@.len() == 0,
    {
        AddChannelForm {
            name: String::new(),
            url: String::new(),
            branch: String::new(),
            commit: String::new(),
            intro_commit: String::new(),
            intro_fpr: String::new(),
        }
    }

    /// Empties every field.
    pub fn clear(&mut self)
        ensures
            final(self).name@.len() == 0 && final(self).url@.len() == 0 && final(self).branch@.len() == 0
                && final(self).commit@.len() == 0 && final(self).intro_commit@.len() == 0 && final(self).intro_fpr@.len() == 0,
    {
        *self = AddChannelForm::new();
    }

    /// The channel to add, or the first missing required field.
    pub fn to_channel(&self) -> (r: Result<Channel, FormError>)
        ensures
            match form_spec(*self) {
                Ok(c) => r matches Ok(ch) && ch@ == c,
                Err(e) => r == Err::<Channel, FormError>(e),
            },
    {
        let name = trimmed(&self.name);
        let url = trimmed(&self.url);
        let ic = trimmed(&self.intro_commit);
        let fp = trimmed(&self.intro_fpr);
        if name.len() == 0 {
            return Err(FormError::NameRequired);
        }
        if url.len() == 0 {
            return Err(FormError::UrlRequired);
        }
        if ic.len() == 0 || fp.len() == 0 {
            return Err(FormError::IntroRequired);
        }
        Ok(Channel {
            name: string_of(&name),
            url: string_of(&url),
            branch: opt_trimmed(&self.branch),
            commit: opt_trimmed(&self.commit),
            introduction_commit: Some(string_of(&ic)),
            introduction_fingerprint: Some(string_of(&fp)),
        })
    }
}

/// A channels file as loaded, with its backup path when a backup exists.
#[derive(Debug)]
pub struct ChannelsFileLoad {
    pub file: ChannelsFile,
    pub backup_path: Option<String>,
}

/// A load of the channels file: loaded, absent, or failed with a message.
#[derive(Debug)]
pub enum ChannelsFileLoadOutcome {
    Loaded(ChannelsFileLoad),
    Missing,
    Failed(String),
}

/// The text shown for a channels-file error: its message.
pub fn describe_channels_error(e: &ChannelsError) -> (r: String)
    ensures
        match *e {
            ChannelsError::Io(_) => channels_error_message(*e).is_prefix_of(r@),
            ChannelsError::Guix(g) => match g {
                crate::error::GuixError::Spawn(_) | crate::error::GuixError::Io(_) => channels_error_message(*e).is_prefix_of(r@),
                _ => r@ == channels_error_message(*e),
            },
            _ => r@ == channels_error_message(*e),
        },
{
    e.message()
}

/// What reading the channels file came to: an absent file is `Missing`,
/// another error is `Failed` with its text; a read file carries the
/// backup path when the backup exists.
pub fn load_outcome(read: Result<ChannelsFile, ChannelsError>, backup_path: String, backup_exists: bool) -> (o: ChannelsFileLoadOutcome)
    ensures
        match read {
            Ok(f) => o matches ChannelsFileLoadOutcome::Loaded(l) && l.file == f
                && l.backup_path == (if backup_exists { Some(backup_path) } else { None::<String> }),
            Err(e) => match e {
                ChannelsError::FileNotFound { .. } => o is Missing,
                ChannelsError::Io(_) => o matches ChannelsFileLoadOutcome::Failed(m) && channels_error_message(e).is_prefix_of(m@),
                ChannelsError::Guix(g) => match g {
                    crate::error::GuixError::Spawn(_) | crate::error::GuixError::Io(_) =>
                        o matches ChannelsFileLoadOutcome::Failed(m) && channels_error_message(e).is_prefix_of(m@),
                    _ => o matches ChannelsFileLoadOutcome::Failed(m) && m@ == channels_error_message(e),
                },
                _ => o matches ChannelsFileLoadOutcome::Failed(m) && m@ == channels_error_message(e),
            },
        },
{
    match read {
        Ok(file) => ChannelsFileLoadOutcome::Loaded(ChannelsFileLoad {
            file,
            backup_path: if backup_exists { Some(backup_path) } else { None },
        }),
        Err(e) => match e {
            ChannelsError::FileNotFound { .. } => ChannelsFileLoadOutcome::Missing,
            _ => ChannelsFileLoadOutcome::Failed(describe_channels_error(&e)),
        },
    }
}

/// After a write, an absent file is itself an error
/// (`channels-vanished-after-write`).
#[derive(Debug, Clone, PartialEq, Eq)]
pub enum ReloadError {
    Vanished,
    Failed(String),
}

pub fn outcome_to_result(o: ChannelsFileLoadOutcome) -> (r: Result<ChannelsFileLoad, ReloadError>)
    ensures
        match o {
            ChannelsFileLoadOutcome::Loaded(l) => r matches Ok(x) && x == l,
            ChannelsFileLoadOutcome::Missing => r == Err::<ChannelsFileLoad, ReloadError>(ReloadError::Vanished),
            ChannelsFileLoadOutcome::Failed(m) => r == Err::<ChannelsFileLoad, ReloadError>(ReloadError::Failed(m)),
        },
{
    match o {
        ChannelsFileLoadOutcome::Loaded(l) => Ok(l),
        ChannelsFileLoadOutcome::Missing => Err(ReloadError::Vanished),
        ChannelsFileLoadOutcome::Failed(m) => Err(ReloadError::Failed(m)),
    }
}

} // verus!
