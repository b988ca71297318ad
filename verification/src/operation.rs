//! The decisions of a streamed write operation: how a `pkexec` exit code
//! is classified, and what the operation's outcome is once its event
//! stream has ended.

use vstd::prelude::*;
use crate::error::{GuixError, PolkitFailure};
use crate::types::{KnownBug, ProgressEvent};

verus! {

/// How a non-zero exit is read: under `pkexec`, the reserved codes 126,
/// 127 and 128+N are polkit failures; codes 1 to 125 stay guix's own.
#[derive(Debug, Clone, Copy, PartialEq, Eq, Structural)]
pub enum ExitClassifier {
    Standard,
    Pkexec,
}

/// Per `man pkexec`: 126 = authentication failed, 127 = not authorised,
/// 128+N = killed by signal N; 128 itself stays unclassified.
pub open spec fn pkexec_failure(code: i32) -> Option<PolkitFailure> {
    if code == 126 {
        Some(PolkitFailure::AuthFailed)
    } else if code == 127 {
        Some(PolkitFailure::NotAuthorized)
    } else if 129 <= code <= 255 {
        Some(PolkitFailure::KilledBySignal((code - 128) as i32))
    } else {
        None
    }
}

pub fn classify_pkexec_code(code: i32) -> (r: Option<PolkitFailure>)
    ensures
        r == pkexec_failure(code),
{
    if code == 126 {
        Some(PolkitFailure::AuthFailed)
    } else if code == 127 {
        Some(PolkitFailure::NotAuthorized)
    } else if 129 <= code && code <= 255 {
        Some(PolkitFailure::KilledBySignal(code - 128))
    } else {
        None
    }
}

/// The exit code of the last `ExitSummary` among `events`, if any,
/// starting from `last`.
pub open spec fn last_exit_spec(last: Option<i32>, events: Seq<ProgressEvent>) -> Option<i32>
    decreases events.len(),
{
    if events.len() == 0 {
        last
    } else {
        match events.last() {
            ProgressEvent::ExitSummary { code, .. } => Some(code),
            _ => last_exit_spec(last, events.drop_last()),
        }
    }
}

/// Folds one batch of events into the last exit code seen.
pub fn track_exit(last: Option<i32>, batch: &[ProgressEvent]) -> (r: Option<i32>)
    ensures
        r == last_exit_spec(last, batch@),
{
    let mut cur = last;
    let mut i: usize = 0;
    assert(batch@.subrange(0, 0) =~= Seq::<ProgressEvent>::empty());
    while i < batch.len()
        invariant
            i <= batch@.len(),
            cur == last_exit_spec(last, batch@.subrange(0, i as int)),
        decreases batch@.len() - i,
    {
        assert(batch@.subrange(0, i + 1).drop_last() =~= batch@.subrange(0, i as int));
        assert(batch@.subrange(0, i + 1).last() == batch@[i as int]);
        match &batch[i] {
            ProgressEvent::ExitSummary { code, .. } => {
                cur = Some(*code);
            },
            _ => {},
        }
        i += 1;
    }
    assert(batch@.subrange(0, batch@.len() as int) =~= batch@);
    cur
}

/// The outcome of an ended stream: success on exit 0; on another exit a
/// recognised known bug first, then (under `pkexec`) a polkit failure,
/// then a plain operation failure; `Cancelled` when no exit was seen.
pub fn completion_result(
    last_exit: Option<i32>,
    first_bug: Option<KnownBug>,
    classifier: ExitClassifier,
    stderr_tail: String,
) -> (r: Result<(), GuixError>)
    ensures
        match last_exit {
            None => r matches Err(GuixError::Cancelled),
            Some(0i32) => r is Ok,
            Some(code) => match first_bug {
                Some(b) => r matches Err(GuixError::KnownBug(x)) && x == b,
                None => if classifier == ExitClassifier::Pkexec && pkexec_failure(code) is Some {
                    r matches Err(GuixError::Polkit { kind, code: c, stderr_tail: t })
                        && Some(kind) == pkexec_failure(code) && c == code && t@ == stderr_tail@
                } else {
                    r matches Err(GuixError::OperationFailed { code: c, stderr_tail: t }) && c == code
                        && t@ == stderr_tail@
                },
            },
        },
{
    match last_exit {
        None => Err(GuixError::Cancelled),
        Some(0) => Ok(()),
        Some(code) => {
            if let Some(bug) = first_bug {
                return Err(GuixError::KnownBug(bug));
            }
            if classifier == ExitClassifier::Pkexec {
                if let Some(kind) = classify_pkexec_code(code) {
                    return Err(GuixError::Polkit { kind, code, stderr_tail });
                }
            }
            Err(GuixError::OperationFailed { code, stderr_tail })
        },
    }
}

/// `128 + N` for a child killed by signal `N`; `-1` when neither an exit
/// code nor a signal is known.
pub fn status_code(code: Option<i32>, signal: Option<i32>) -> (r: i32)
    requires
        signal matches Some(s) ==> s <= i32::MAX - 128,
    ensures
        r == (match code {
            Some(c) => c,
            None => match signal {
                Some(s) => (128 + s) as i32,
                None => -1i32,
            },
        }),
{
    match code {
        Some(c) => c,
        None => match signal {
            Some(s) => 128 + s,
            None => -1,
        },
    }
}

/// How long a window of events is gathered after the first one, in ms.
pub const COALESCE_WINDOW_MS: u64 = 50;

/// A window is sent early once it holds this many events.
pub const COALESCE_MAX_EVENTS: usize = 32;

/// Batches the parsed events for the consumer: after an idle spell the
/// first event goes out alone at once; the events after it are gathered
/// for a window (up to a cap) and sent together.
pub struct Coalescer {
    /// A window is open.
    pub windowing: bool,
    /// The events gathered in the open window.
    pub batch: Vec<ProgressEvent>,
}

/// What a send adds to the stream, as a sequence of events.
pub open spec fn sent(r: Option<Vec<ProgressEvent>>) -> Seq<ProgressEvent> {
    match r {
        Some(b) => b@,
        None => Seq::empty(),
    }
}

impl Coalescer {
    /// Nothing gathered while idle; a window never holds the cap.
    pub open spec fn wf(&self) -> bool {
        &&& !self.windowing ==> self.batch@.len() == 0
        &&& self.batch@.len() < COALESCE_MAX_EVENTS
    }

    pub fn new() -> (c: Self)
        ensures
            c.wf(),
            !c.windowing,
    {
        Coalescer { windowing: false, batch: Vec::new() }
    }

    /// One more event. Nothing is lost or reordered: what is sent, then
    /// what stays gathered, is what was gathered followed by the event.
    pub fn on_event(&mut self, e: ProgressEvent) -> (r: Option<Vec<ProgressEvent>>)
        requires
            old(self).wf(),
        ensures
            final(self).wf(),
            sent(r) + final(self).batch@ == old(self).batch@.push(e),
            !old(self).windowing ==> (r matches Some(b) && b@ == seq![e] && final(self).windowing),
            old(self).windowing ==> (r is Some <==> old(self).batch@.len() + 1 >= COALESCE_MAX_EVENTS),
            old(self).windowing ==> (final(self).windowing <==> r is None),
            r matches Some(b) ==> b@.len() > 0,
    {
        if !self.windowing {
            self.windowing = true;
            let mut one: Vec<ProgressEvent> = Vec::new();
            one.push(e);
            assert(one@ + self.batch@ =~= old(self).batch@.push(e));
            return Some(one);
        }
        self.batch.push(e);
        if self.batch.len() >= COALESCE_MAX_EVENTS {
            let mut full: Vec<ProgressEvent> = Vec::new();
            std::mem::swap(&mut full, &mut self.batch);
            self.windowing = false;
            assert(full@ + self.batch@ =~= old(self).batch@.push(e));
            Some(full)
        } else {
            assert(Seq::<ProgressEvent>::empty() + self.batch@ =~= old(self).batch@.push(e));
            None
        }
    }

    /// The window's time is up: whatever was gathered goes out, and the
    /// next event is sent alone again.
    pub fn on_deadline(&mut self) -> (r: Option<Vec<ProgressEvent>>)
        requires
            old(self).wf(),
        ensures
            final(self).wf(),
            !final(self).windowing,
            sent(r) == old(self).batch@,
            r matches Some(b) ==> b@.len() > 0,
    {
        self.windowing = false;
        if self.batch.len() > 0 {
            let mut b: Vec<ProgressEvent> = Vec::new();
            std::mem::swap(&mut b, &mut self.batch);
            Some(b)
        } else {
            None
        }
    }

    /// The event source closed: whatever was gathered goes out.
    pub fn on_close(&mut self) -> (r: Option<Vec<ProgressEvent>>)
        requires
            old(self).wf(),
        ensures
            final(self).wf(),
            final(self).batch@.len() == 0,
            sent(r) == old(self).batch@,
            r matches Some(b) ==> b@.len() > 0,
    {
        self.on_deadline()
    }
}

} // verus!
