//! The Lock Waiter: the decisions of the blocking wait for the lock
//! file to disappear.
//!
//! The wait is driven by two kinds of outside fact: how subscribing to
//! filesystem-change notifications for the lock path went, and what
//! each bounded receive on the notification channel produced. Both
//! arrive here as plain values; every decision taken on them — which
//! events end the wait, which are discarded, which failures are
//! terminal — is verified. The caller performs the subscription and the
//! receives and acts on the answers.
//!
//! Timeout policy: a configured timeout bounds each receive, armed in
//! full every time, so it is a bound on the time since the last event,
//! not on the total elapsed wait. In the trace semantics below this
//! shows as the timeout being one more receive outcome: wherever it
//! reaches the loop first, it decides the wait.
use vstd::prelude::*;

use crate::locate::path_eq;

verus! {

/// The kind of a filesystem-change notification.
#[derive(Clone, Copy, Debug, PartialEq, Eq, Structural)]
pub enum WatchEventKind {
    /// A file was removed: the only kind that can end the wait.
    FileRemoved,
    /// Something other than a file (a directory, say) was removed.
    OtherRemoved,
    /// Something was created.
    Created,
    /// Something was modified.
    Modified,
    /// Anything else the notification service reports.
    Other,
}

/// One filesystem-change notification: a kind and the path concerned,
/// as a sequence of component names.
#[derive(Debug)]
pub struct WatchEvent {
    pub kind: WatchEventKind,
    pub path: Vec<String>,
}

/// What one bounded receive on the notification channel produced.
#[derive(Debug)]
pub enum RecvOutcome {
    /// An event was delivered.
    Received(WatchEvent),
    /// The bounded wait elapsed with no event.
    TimedOut,
    /// The producer side of the channel terminated.
    Disconnected,
}

/// How the wait can fail.
#[derive(Clone, Copy, Debug, PartialEq, Eq, Structural)]
pub enum WaitError {
    /// The notification subscription could not be established, for a
    /// reason other than the watched path being gone already.
    WatchInitFailed,
    /// The bounded wait elapsed while the lock file still existed.
    TimedOut,
    /// The notification channel closed unexpectedly.
    ChannelClosed,
}

/// How establishing the notification subscription went.
#[derive(Clone, Copy, Debug, PartialEq, Eq, Structural)]
pub enum SubscribeOutcome {
    /// The subscription is in place.
    Established,
    /// Subscribing failed because the watched path no longer exists:
    /// the lock was cleared between the caller's check and the
    /// subscription.
    PathMissing,
    /// Subscribing failed for any other reason.
    InitError,
}

/// The event ends the wait: a file-removal notification for exactly the
/// watched lock path.
pub open spec fn event_matches(lock_path: Seq<Seq<char>>, e: WatchEvent) -> bool {
    e.kind == WatchEventKind::FileRemoved && e.path.deep_view() == lock_path
}

/// What one receive outcome decides: nothing (keep waiting), success,
/// or a terminal failure.
pub open spec fn decision_of(lock_path: Seq<Seq<char>>, o: RecvOutcome) -> Option<
    Result<(), WaitError>,
> {
    match o {
        RecvOutcome::Received(e) => if event_matches(lock_path, e) {
            Some(Ok(()))
        } else {
            None
        },
        RecvOutcome::TimedOut => Some(Err(WaitError::TimedOut)),
        RecvOutcome::Disconnected => Some(Err(WaitError::ChannelClosed)),
    }
}

/// The outcome is inert: the receive loop discards it and goes on.
pub open spec fn is_inert(lock_path: Seq<Seq<char>>, o: RecvOutcome) -> bool {
    decision_of(lock_path, o) is None
}

/// What the receive loop returns on a given sequence of receive
/// outcomes: the decision of the first outcome that carries one, or
/// nothing when every outcome is inert and the trace runs out with the
/// waiter still blocked.
pub open spec fn wait_trace_spec(lock_path: Seq<Seq<char>>, trace: Seq<RecvOutcome>) -> Option<
    Result<(), WaitError>,
>
    decreases trace.len(),
{
    if trace.len() == 0 {
        None
    } else {
        match decision_of(lock_path, trace[0]) {
            Some(d) => Some(d),
            None => wait_trace_spec(lock_path, trace.skip(1)),
        }
    }
}

/// What the whole wait returns: a failed subscription is terminal —
/// except when the watched path was already gone, which is success —
/// and an established one hands over to the receive loop.
pub open spec fn wait_spec(
    lock_path: Seq<Seq<char>>,
    subscription: SubscribeOutcome,
    trace: Seq<RecvOutcome>,
) -> Option<Result<(), WaitError>> {
    match subscription {
        SubscribeOutcome::PathMissing => Some(Ok(())),
        SubscribeOutcome::InitError => Some(Err(WaitError::WatchInitFailed)),
        SubscribeOutcome::Established => wait_trace_spec(lock_path, trace),
    }
}

/// What the receive loop does after one receive: stop successfully,
/// keep waiting, or fail.
#[derive(Clone, Copy, Debug, PartialEq, Eq, Structural)]
pub enum WaitStep {
    /// The lock file was removed: the wait is over.
    Finished,
    /// The outcome was inert: receive again.
    KeepWaiting,
    /// A terminal failure.
    Failed(WaitError),
}

/// Decide on one receive outcome: a removal of exactly the lock path
/// ends the wait, any other event is discarded, a timeout and a closed
/// channel are terminal failures.
pub fn wait_step(lock_path: &Vec<String>, outcome: &RecvOutcome) -> (r: WaitStep)
    ensures
        r == (match decision_of(lock_path.deep_view(), *outcome) {
            Some(d) => match d {
                Ok(u) => WaitStep::Finished,
                Err(e) => WaitStep::Failed(e),
            },
            None => WaitStep::KeepWaiting,
        }),
{
    match outcome {
        RecvOutcome::Received(e) => {
            if e.kind == WatchEventKind::FileRemoved && path_eq(&e.path, lock_path) {
                WaitStep::Finished
            } else {
                WaitStep::KeepWaiting
            }
        },
        RecvOutcome::TimedOut => WaitStep::Failed(WaitError::TimedOut),
        RecvOutcome::Disconnected => WaitStep::Failed(WaitError::ChannelClosed),
    }
}

/// The whole wait, on a given subscription outcome and a given finite
/// trace of receive outcomes: success once a removal of the lock path
/// is observed, failure on a timeout, a closed channel or a failed
/// subscription, and no answer when the trace runs out with the waiter
/// still blocked.
pub fn wait_for_clear(
    lock_path: &Vec<String>,
    subscription: SubscribeOutcome,
    trace: &Vec<RecvOutcome>,
) -> (r: Option<Result<(), WaitError>>)
    ensures
        r == wait_spec(lock_path.deep_view(), subscription, trace@),
{
    match subscription {
        SubscribeOutcome::PathMissing => Some(Ok(())),
        SubscribeOutcome::InitError => Some(Err(WaitError::WatchInitFailed)),
        SubscribeOutcome::Established => {
            let n = trace.len();
            let mut i: usize = 0;
            proof {
                assert(trace@.skip(0) =~= trace@);
            }
            while i < n
                invariant
                    0 <= i <= n,
                    n == trace.len(),
                    subscription == SubscribeOutcome::Established,
                    wait_trace_spec(lock_path.deep_view(), trace@) == wait_trace_spec(
                        lock_path.deep_view(),
                        trace@.skip(i as int),
                    ),
                decreases n - i,
            {
                proof {
                    assert(trace@.skip(i as int)[0] == trace@[i as int]);
                }
                match wait_step(lock_path, &trace[i]) {
                    WaitStep::Finished => {
                        return Some(Ok(()));
                    },
                    WaitStep::KeepWaiting => {
                        proof {
                            assert(trace@.skip(i as int).skip(1) =~= trace@.skip(i as int + 1));
                        }
                    },
                    WaitStep::Failed(e) => {
                        return Some(Err(e));
                    },
                }
                i = i + 1;
            }
            proof {
                assert(trace@.skip(i as int).len() == 0);
            }
            None
        },
    }
}

/// When the first decisive receive outcome sits at position `i` — all
/// before it inert — the wait returns exactly its decision. In
/// particular a removal of the lock path there ends the wait
/// successfully, and a timeout there is the timeout failure, whatever
/// follows either.
pub proof fn lemma_wait_first_decision(lock_path: Seq<Seq<char>>, trace: Seq<RecvOutcome>, i: int)
    requires
        0 <= i < trace.len(),
        forall|j: int| 0 <= j < i ==> is_inert(lock_path, #[trigger] trace[j]),
        !is_inert(lock_path, trace[i]),
    ensures
        wait_trace_spec(lock_path, trace) == decision_of(lock_path, trace[i]),
    decreases i,
{
    if i == 0 {
    } else {
        assert(is_inert(lock_path, trace[0]));
        assert forall|j: int| 0 <= j < i - 1 implies is_inert(
            lock_path,
            #[trigger] trace.skip(1)[j],
        ) by {
            assert(trace.skip(1)[j] == trace[j + 1]);
        }
        assert(trace.skip(1)[i - 1] == trace[i]);
        lemma_wait_first_decision(lock_path, trace.skip(1), i - 1);
    }
}

/// A trace of inert outcomes alone leaves the waiter blocked: nothing
/// but a matching removal, a timeout or a channel failure ends the
/// receive loop.
pub proof fn lemma_wait_all_inert(lock_path: Seq<Seq<char>>, trace: Seq<RecvOutcome>)
    requires
        forall|j: int| 0 <= j < trace.len() ==> is_inert(lock_path, #[trigger] trace[j]),
    ensures
        wait_trace_spec(lock_path, trace) is None,
    decreases trace.len(),
{
    if trace.len() > 0 {
        assert forall|j: int| 0 <= j < trace.skip(1).len() implies is_inert(
            lock_path,
            #[trigger] trace.skip(1)[j],
        ) by {
            assert(trace.skip(1)[j] == trace[j + 1]);
        }
        lemma_wait_all_inert(lock_path, trace.skip(1));
    }
}

/// When the lock file is never removed, a bounded wait fails with the
/// timeout error, reported as such and as nothing else: a timeout
/// reaching the receive loop first — after inert events only — decides
/// the whole wait.
pub proof fn lemma_wait_times_out(lock_path: Seq<Seq<char>>, trace: Seq<RecvOutcome>, i: int)
    requires
        0 <= i < trace.len(),
        forall|j: int| 0 <= j < i ==> is_inert(lock_path, #[trigger] trace[j]),
        trace[i] is TimedOut,
    ensures
        wait_trace_spec(lock_path, trace) == Some(Result::<(), WaitError>::Err(WaitError::TimedOut)),
{
    lemma_wait_first_decision(lock_path, trace, i);
}

/// The wait succeeds exactly when a removal of the lock path is
/// observed first: there is a matching removal in the trace, and every
/// receive outcome before it was an event to discard. Success is
/// decided at that removal and not before.
pub proof fn lemma_wait_succeeds_iff_removal_observed(
    lock_path: Seq<Seq<char>>,
    trace: Seq<RecvOutcome>,
)
    ensures
        (wait_trace_spec(lock_path, trace) == Some(Result::<(), WaitError>::Ok(()))) <==> exists|
            i: int,
        |
            0 <= i < trace.len() && decision_of(lock_path, #[trigger] trace[i]) == Some(
                Result::<(), WaitError>::Ok(()),
            ) && (forall|j: int| 0 <= j < i ==> is_inert(lock_path, #[trigger] trace[j])),
    decreases trace.len(),
{
    let ok = Some(Result::<(), WaitError>::Ok(()));
    if exists|i: int|
        0 <= i < trace.len() && decision_of(lock_path, #[trigger] trace[i]) == ok && (forall|
            j: int,
        | 0 <= j < i ==> is_inert(lock_path, #[trigger] trace[j])) {
        let i = choose|i: int|
            0 <= i < trace.len() && decision_of(lock_path, #[trigger] trace[i]) == ok && (forall|
                j: int,
            | 0 <= j < i ==> is_inert(lock_path, #[trigger] trace[j]));
        lemma_wait_first_decision(lock_path, trace, i);
    }
    if wait_trace_spec(lock_path, trace) == ok {
        if trace.len() == 0 {
        } else {
            match decision_of(lock_path, trace[0]) {
                Some(d) => {
                    assert(0 <= 0 < trace.len() && decision_of(lock_path, trace[0]) == ok && (
                    forall|j: int| 0 <= j < 0 ==> is_inert(lock_path, #[trigger] trace[j])));
                },
                None => {
                    lemma_wait_succeeds_iff_removal_observed(lock_path, trace.skip(1));
                    let i = choose|i: int|
                        0 <= i < trace.skip(1).len() && decision_of(
                            lock_path,
                            #[trigger] trace.skip(1)[i],
                        ) == ok && (forall|j: int|
                            0 <= j < i ==> is_inert(lock_path, #[trigger] trace.skip(1)[j]));
                    assert(trace.skip(1)[i] == trace[i + 1]);
                    assert forall|j: int| 0 <= j < i + 1 implies is_inert(
                        lock_path,
                        #[trigger] trace[j],
                    ) by {
                        if j > 0 {
                            assert(trace.skip(1)[j - 1] == trace[j]);
                        }
                    }
                    assert(0 <= i + 1 < trace.len() && decision_of(lock_path, trace[i + 1]) == ok
                        && (forall|j: int|
                        0 <= j < i + 1 ==> is_inert(lock_path, #[trigger] trace[j])));
                },
            }
        }
    }
}

} // verus!
