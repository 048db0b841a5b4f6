//! What the two background watchers of a run report, and what follows.
//!
//! A run has an exit watcher, which waits for the child to end, and a
//! checkpoint watcher, which looks after the startup grace period whether the
//! child is still alive. Both share the run's [`RunGuard`]. A watcher hands
//! what it saw to the supervisor together with the guard; the supervisor
//! updates itself and the guard and answers with the event to send, if any.
//! The guard remembers what was already reported, so that a run's stream
//! carries at most one end, and no passed checkpoint after the end.

use crate::definition::{CommandEvent, EventView, TerminatedPayload};
use crate::instance::{CoreInstance, Lifecycle};
use vstd::prelude::*;

verus! {

/// How long a child has to stay alive to count as started, in milliseconds.
pub const STARTUP_GRACE_MILLIS: u64 = 1500;

/// How many events the stream of a run holds before a sender has to wait for
/// the receiver.
pub const EVENT_CHANNEL_CAPACITY: usize = 1;

/// What the exit watcher of a run has reported so far.
#[derive(Debug, Clone, Copy, PartialEq, Eq, Structural)]
pub enum ExitWatch {
    /// Nothing yet.
    Pending,
    /// The end of the child.
    Terminated,
    /// That waiting for the child failed.
    Failed,
}

/// The record that the watchers of one run share.
#[derive(Debug)]
pub struct RunGuard {
    pid: u32,
    exit_watch: ExitWatch,
    checkpoint_passed: bool,
}

/// What a [`RunGuard`] holds.
pub struct GuardView {
    /// The process id of the run's child.
    pub pid: u32,
    pub exit_watch: ExitWatch,
    /// Whether the passed checkpoint was reported.
    pub checkpoint_passed: bool,
}

/// What the exit watcher found when its wait came back.
#[derive(Debug)]
pub enum WaitOutcome {
    /// The child ended, in this way.
    Exited(TerminatedPayload),
    /// The wait itself failed, with this message.
    Failed(String),
}

/// What a watcher saw.
pub enum Observation {
    /// The exit watcher saw the child end.
    Exited(TerminatedPayload),
    /// The exit watcher's wait failed.
    WaitFailed(Seq<char>),
    /// The checkpoint watcher looked at the child after the grace period.
    Checkpoint { alive: bool },
}

impl View for WaitOutcome {
    type V = Observation;

    open spec fn view(&self) -> Observation {
        match self {
            WaitOutcome::Exited(payload) => Observation::Exited(*payload),
            WaitOutcome::Failed(message) => Observation::WaitFailed(message@),
        }
    }
}

/// The view of an event that may be absent.
pub open spec fn event_view(event: Option<CommandEvent>) -> Option<EventView> {
    match event {
        Some(event) => Some(event@),
        None => None,
    }
}

impl GuardView {
    /// The guard of a run that has just begun.
    pub open spec fn fresh(pid: u32) -> GuardView {
        GuardView { pid, exit_watch: ExitWatch::Pending, checkpoint_passed: false }
    }

    /// The event that is sent for an observation. The exit watcher's first
    /// report is sent, as the end of the child or as an error; anything it
    /// reports after that is dropped. A checkpoint at which the child is alive
    /// is sent once, unless the end of the child was already sent.
    pub open spec fn emits(self, seen: Observation) -> Option<EventView> {
        match seen {
            Observation::Exited(payload) => if self.exit_watch is Pending {
                Some(EventView::Terminated(payload))
            } else {
                None
            },
            Observation::WaitFailed(message) => if self.exit_watch is Pending {
                Some(EventView::Error(message))
            } else {
                None
            },
            Observation::Checkpoint { alive } => if alive && !(self.exit_watch is Terminated)
                && !self.checkpoint_passed {
                Some(EventView::DelayCheckpointPass)
            } else {
                None
            },
        }
    }

    /// The guard after an observation.
    pub open spec fn next(self, seen: Observation) -> GuardView {
        if self.emits(seen) is None {
            self
        } else {
            match seen {
                Observation::Exited(_) => GuardView { exit_watch: ExitWatch::Terminated, ..self },
                Observation::WaitFailed(_) => GuardView { exit_watch: ExitWatch::Failed, ..self },
                Observation::Checkpoint { .. } => GuardView { checkpoint_passed: true, ..self },
            }
        }
    }

    /// The supervisor after an observation. With the end of the child the
    /// supervisor lets go of it; with a passed checkpoint it reports `Running`;
    /// both only while it still holds this run's child. An observation for
    /// which nothing is sent, and a failed wait, leave the supervisor as it is.
    pub open spec fn settle(self, life: Lifecycle, seen: Observation) -> Lifecycle {
        match self.emits(seen) {
            Some(EventView::Terminated(_)) => life.release(self.pid),
            Some(EventView::DelayCheckpointPass) => life.confirm(self.pid),
            _ => life,
        }
    }

    /// The guard after a series of observations.
    pub open spec fn replay(self, seen: Seq<Observation>) -> GuardView
        decreases seen.len(),
    {
        if seen.len() == 0 {
            self
        } else {
            self.next(seen.first()).replay(seen.drop_first())
        }
    }

    /// The events sent for a series of observations, in the order sent.
    pub open spec fn emitted(self, seen: Seq<Observation>) -> Seq<EventView>
        decreases seen.len(),
    {
        if seen.len() == 0 {
            Seq::empty()
        } else {
            let rest = self.next(seen.first()).emitted(seen.drop_first());
            match self.emits(seen.first()) {
                Some(event) => seq![event] + rest,
                None => rest,
            }
        }
    }
}

impl View for RunGuard {
    type V = GuardView;

    closed spec fn view(&self) -> GuardView {
        GuardView {
            pid: self.pid,
            exit_watch: self.exit_watch,
            checkpoint_passed: self.checkpoint_passed,
        }
    }
}

impl RunGuard {
    /// The process id of the run's child.
    pub fn pid(&self) -> (pid: u32)
        ensures
            pid == self@.pid,
    {
        self.pid
    }
}

impl CoreInstance {
    /// Records the child that was spawned for a run: from now on the
    /// supervisor holds it, and reports `Stopped` until the run's checkpoint
    /// has passed. Hands out the guard for the run's watchers.
    pub fn record_spawn(&mut self, pid: u32) -> (guard: RunGuard)
        ensures
            final(self).lifecycle() == Lifecycle::spawned(pid),
            final(self).settings() == old(self).settings(),
            final(self).wf(),
            guard@ == GuardView::fresh(pid),
    {
        self.hold(pid);
        RunGuard { pid, exit_watch: ExitWatch::Pending, checkpoint_passed: false }
    }

    /// Takes the exit watcher's report. The state is settled before the event
    /// is handed out, so that a slow receiver cannot see the event ahead of
    /// the state.
    pub fn on_wait_finished(&mut self, guard: &mut RunGuard, outcome: WaitOutcome) -> (event:
        Option<CommandEvent>)
        ensures
            event_view(event) == old(guard)@.emits(outcome@),
            final(guard)@ == old(guard)@.next(outcome@),
            final(self).lifecycle() == old(guard)@.settle(old(self).lifecycle(), outcome@),
            final(self).settings() == old(self).settings(),
            old(self).wf() ==> final(self).wf(),
    {
        match guard.exit_watch {
            ExitWatch::Pending => match outcome {
                WaitOutcome::Exited(payload) => {
                    guard.exit_watch = ExitWatch::Terminated;
                    self.release(guard.pid);
                    Some(CommandEvent::Terminated(payload))
                },
                WaitOutcome::Failed(message) => {
                    guard.exit_watch = ExitWatch::Failed;
                    Some(CommandEvent::Error(message))
                },
            },
            _ => None,
        }
    }

    /// Takes the checkpoint watcher's report: whether the child was still
    /// alive when the grace period of [`STARTUP_GRACE_MILLIS`] ran out.
    pub fn on_checkpoint(&mut self, guard: &mut RunGuard, alive: bool) -> (event: Option<
        CommandEvent,
    >)
        ensures
            event_view(event) == old(guard)@.emits(Observation::Checkpoint { alive }),
            final(guard)@ == old(guard)@.next(Observation::Checkpoint { alive }),
            final(self).lifecycle() == old(guard)@.settle(
                old(self).lifecycle(),
                Observation::Checkpoint { alive },
            ),
            final(self).settings() == old(self).settings(),
            old(self).wf() ==> final(self).wf(),
    {
        let ended = match guard.exit_watch {
            ExitWatch::Terminated => true,
            _ => false,
        };
        if alive && !ended && !guard.checkpoint_passed {
            guard.checkpoint_passed = true;
            self.confirm(guard.pid);
            Some(CommandEvent::DelayCheckpointPass)
        } else {
            None
        }
    }
}

/// How many of `events` report the end of the child.
pub open spec fn terminations(events: Seq<EventView>) -> nat
    decreases events.len(),
{
    if events.len() == 0 {
        0
    } else if events.first() is Terminated {
        1 + terminations(events.drop_first())
    } else {
        terminations(events.drop_first())
    }
}

/// How many of `events` report a passed checkpoint.
pub open spec fn checkpoint_passes(events: Seq<EventView>) -> nat
    decreases events.len(),
{
    if events.len() == 0 {
        0
    } else if events.first() is DelayCheckpointPass {
        1 + checkpoint_passes(events.drop_first())
    } else {
        checkpoint_passes(events.drop_first())
    }
}

/// The first thing the exit watcher reported among `seen`, if it reported.
pub open spec fn first_report(seen: Seq<Observation>) -> Option<Observation>
    decreases seen.len(),
{
    if seen.len() == 0 {
        None
    } else if seen.first() is Checkpoint {
        first_report(seen.drop_first())
    } else {
        Some(seen.first())
    }
}

/// Whether the exit watcher's first report among `seen` is the end of the
/// child.
pub open spec fn end_reported(seen: Seq<Observation>) -> bool {
    first_report(seen) matches Some(Observation::Exited(_))
}

/// No observation turns a supervisor that holds a child when it reports
/// `Running` into one that reports `Running` without a child.
pub proof fn lemma_settle_keeps_wf(guard: GuardView, life: Lifecycle, seen: Observation)
    requires
        life.wf(),
    ensures
        guard.settle(life, seen).wf(),
{
}

proof fn lemma_counts_of_push_front(event: EventView, rest: Seq<EventView>)
    ensures
        terminations(seq![event] + rest) == terminations(rest) + if event is Terminated {
            1nat
        } else {
            0nat
        },
        checkpoint_passes(seq![event] + rest) == checkpoint_passes(rest)
            + if event is DelayCheckpointPass {
            1nat
        } else {
            0nat
        },
{
    let all = seq![event] + rest;
    assert(all.first() == event);
    assert(all.drop_first() =~= rest);
}

proof fn lemma_counts_of_concat(a: Seq<EventView>, b: Seq<EventView>)
    ensures
        terminations(a + b) == terminations(a) + terminations(b),
        checkpoint_passes(a + b) == checkpoint_passes(a) + checkpoint_passes(b),
    decreases a.len(),
{
    if a.len() == 0 {
        assert(a + b =~= b);
    } else {
        lemma_counts_of_concat(a.drop_first(), b);
        assert((a + b).first() == a.first());
        assert((a + b).drop_first() =~= a.drop_first() + b);
    }
}

proof fn lemma_emitted_of_concat(guard: GuardView, a: Seq<Observation>, b: Seq<Observation>)
    ensures
        guard.emitted(a + b) == guard.emitted(a) + guard.replay(a).emitted(b),
        guard.replay(a + b) == guard.replay(a).replay(b),
    decreases a.len(),
{
    if a.len() == 0 {
        assert(a + b =~= b);
    } else {
        lemma_emitted_of_concat(guard.next(a.first()), a.drop_first(), b);
        assert((a + b).first() == a.first());
        assert((a + b).drop_first() =~= a.drop_first() + b);
        let rest_a = guard.next(a.first()).emitted(a.drop_first());
        let rest_b = guard.replay(a).emitted(b);
        match guard.emits(a.first()) {
            Some(event) => {
                assert(seq![event] + (rest_a + rest_b) =~= (seq![event] + rest_a) + rest_b);
            },
            None => {},
        }
    }
}

/// Once the end of the child has been sent, the watchers of that run send
/// nothing more, whatever they see.
pub proof fn lemma_nothing_follows_the_end(guard: GuardView, seen: Seq<Observation>)
    requires
        guard.exit_watch is Terminated,
    ensures
        guard.emitted(seen) == Seq::<EventView>::empty(),
        guard.replay(seen) == guard,
    decreases seen.len(),
{
    if seen.len() > 0 {
        lemma_nothing_follows_the_end(guard, seen.drop_first());
    }
}

/// In the stream of a run, the end of the child is the last event that the
/// watchers send: no passed checkpoint, no error and no second end comes
/// after it.
pub proof fn lemma_end_is_last(guard: GuardView, seen: Seq<Observation>)
    ensures
        forall|i: int|
            0 <= i < guard.emitted(seen).len() && (#[trigger] guard.emitted(seen)[i]) is Terminated
                ==> i == guard.emitted(seen).len() - 1,
    decreases seen.len(),
{
    if seen.len() > 0 {
        let after = guard.next(seen.first());
        let rest = after.emitted(seen.drop_first());
        lemma_end_is_last(after, seen.drop_first());
        match guard.emits(seen.first()) {
            Some(event) => {
                if event is Terminated {
                    lemma_nothing_follows_the_end(after, seen.drop_first());
                }
                assert forall|i: int|
                    0 <= i < guard.emitted(seen).len() && (#[trigger] guard.emitted(
                        seen,
                    )[i]) is Terminated implies i == guard.emitted(seen).len() - 1 by {
                    if i > 0 {
                        assert(guard.emitted(seen)[i] == rest[i - 1]);
                    }
                }
            },
            None => {},
        }
    }
}

/// A passed checkpoint is never sent after the end of the child.
pub proof fn lemma_no_checkpoint_after_end(guard: GuardView, seen: Seq<Observation>)
    ensures
        forall|i: int, j: int|
            0 <= i < j < guard.emitted(seen).len() && (#[trigger] guard.emitted(
                seen,
            )[i]) is Terminated ==> !((#[trigger] guard.emitted(seen)[j]) is DelayCheckpointPass),
{
    lemma_end_is_last(guard, seen);
}

proof fn lemma_end_count(guard: GuardView, seen: Seq<Observation>)
    ensures
        terminations(guard.emitted(seen)) == if guard.exit_watch is Pending && end_reported(seen) {
            1nat
        } else {
            0nat
        },
        guard.replay(seen).exit_watch is Terminated <==> guard.exit_watch is Terminated
            || (guard.exit_watch is Pending && end_reported(seen)),
        guard.replay(seen).pid == guard.pid,
    decreases seen.len(),
{
    if seen.len() > 0 {
        let after = guard.next(seen.first());
        lemma_end_count(after, seen.drop_first());
        match guard.emits(seen.first()) {
            Some(event) => {
                lemma_counts_of_push_front(event, after.emitted(seen.drop_first()));
            },
            None => {},
        }
    }
}

/// The stream of a run carries the end of the child exactly once if the exit
/// watcher's first report is that end, and never otherwise; the event carries
/// what the watcher reported.
pub proof fn lemma_end_reported_once(pid: u32, seen: Seq<Observation>)
    ensures
        terminations(GuardView::fresh(pid).emitted(seen)) == if end_reported(seen) {
            1nat
        } else {
            0nat
        },
        forall|i: int|
            0 <= i < GuardView::fresh(pid).emitted(seen).len() && (#[trigger] GuardView::fresh(
                pid,
            ).emitted(seen)[i]) is Terminated ==> Some(
                Observation::Exited(GuardView::fresh(pid).emitted(seen)[i]->Terminated_0),
            ) == first_report(seen),
{
    lemma_end_count(GuardView::fresh(pid), seen);
    lemma_end_payload(GuardView::fresh(pid), seen);
}

proof fn lemma_end_payload(guard: GuardView, seen: Seq<Observation>)
    requires
        guard.exit_watch is Pending,
    ensures
        forall|i: int|
            0 <= i < guard.emitted(seen).len() && (#[trigger] guard.emitted(seen)[i]) is Terminated
                ==> Some(Observation::Exited(guard.emitted(seen)[i]->Terminated_0)) == first_report(
                seen,
            ),
    decreases seen.len(),
{
    if seen.len() > 0 {
        let after = guard.next(seen.first());
        let rest = after.emitted(seen.drop_first());
        if after.exit_watch is Pending {
            lemma_end_payload(after, seen.drop_first());
        } else {
            lemma_end_count(after, seen.drop_first());
            lemma_no_end_without_count(rest);
        }
        match guard.emits(seen.first()) {
            Some(event) => {
                assert forall|i: int|
                    0 <= i < guard.emitted(seen).len() && (#[trigger] guard.emitted(
                        seen,
                    )[i]) is Terminated implies Some(
                    Observation::Exited(guard.emitted(seen)[i]->Terminated_0),
                ) == first_report(seen) by {
                    if i > 0 {
                        assert(guard.emitted(seen)[i] == rest[i - 1]);
                    }
                }
            },
            None => {},
        }
    }
}

proof fn lemma_no_end_without_count(events: Seq<EventView>)
    requires
        terminations(events) == 0,
    ensures
        forall|i: int| 0 <= i < events.len() ==> !((#[trigger] events[i]) is Terminated),
    decreases events.len(),
{
    if events.len() > 0 {
        lemma_no_end_without_count(events.drop_first());
        assert forall|i: int| 0 <= i < events.len() implies !((#[trigger] events[i]) is Terminated) by {
            if i > 0 {
                assert(events[i] == events.drop_first()[i - 1]);
            }
        }
    }
}

proof fn lemma_pass_count(guard: GuardView, seen: Seq<Observation>)
    ensures
        checkpoint_passes(guard.emitted(seen)) <= if guard.checkpoint_passed {
            0nat
        } else {
            1nat
        },
    decreases seen.len(),
{
    if seen.len() > 0 {
        let after = guard.next(seen.first());
        lemma_pass_count(after, seen.drop_first());
        match guard.emits(seen.first()) {
            Some(event) => {
                lemma_counts_of_push_front(event, after.emitted(seen.drop_first()));
            },
            None => {},
        }
    }
}

/// The stream of a run carries at most one passed checkpoint.
pub proof fn lemma_checkpoint_passed_once(pid: u32, seen: Seq<Observation>)
    ensures
        checkpoint_passes(GuardView::fresh(pid).emitted(seen)) <= 1,
{
    lemma_pass_count(GuardView::fresh(pid), seen);
}

proof fn lemma_before_checkpoint(guard: GuardView, before: Seq<Observation>)
    requires
        forall|i: int| 0 <= i < before.len() ==> !((#[trigger] before[i]) is Checkpoint),
    ensures
        guard.replay(before).checkpoint_passed == guard.checkpoint_passed,
        checkpoint_passes(guard.emitted(before)) == 0,
    decreases before.len(),
{
    if before.len() > 0 {
        let after = guard.next(before.first());
        assert(!(before[0] is Checkpoint));
        assert forall|i: int| 0 <= i < before.drop_first().len() implies !((
        #[trigger] before.drop_first()[i]) is Checkpoint) by {
            assert(before.drop_first()[i] == before[i + 1]);
        }
        lemma_before_checkpoint(after, before.drop_first());
        match guard.emits(before.first()) {
            Some(event) => {
                lemma_counts_of_push_front(event, after.emitted(before.drop_first()));
            },
            None => {},
        }
    }
}

/// When the checkpoint watcher of a run looks at the child for the first
/// time, a passed checkpoint is sent if and only if the child is alive and
/// its end has not been sent before.
pub proof fn lemma_checkpoint_passes_iff_alive(pid: u32, before: Seq<Observation>, alive: bool)
    requires
        forall|i: int| 0 <= i < before.len() ==> !((#[trigger] before[i]) is Checkpoint),
    ensures
        GuardView::fresh(pid).replay(before).emits(Observation::Checkpoint { alive })
            == if alive && !end_reported(before) {
            Some(EventView::DelayCheckpointPass)
        } else {
            None
        },
{
    lemma_before_checkpoint(GuardView::fresh(pid), before);
    lemma_end_count(GuardView::fresh(pid), before);
}

/// When the checkpoint watcher of a run has looked at the child for the first
/// time, and the child was alive then exactly if its end had not been
/// reported, the stream holds exactly one verdict on the start: either the
/// end of the child or the passed checkpoint, never both and never neither.
pub proof fn lemma_one_verdict_at_checkpoint(pid: u32, before: Seq<Observation>, alive: bool)
    requires
        forall|i: int| 0 <= i < before.len() ==> !((#[trigger] before[i]) is Checkpoint),
        alive <==> !end_reported(before),
    ensures
        ({
            let events = GuardView::fresh(pid).emitted(
                before + seq![Observation::Checkpoint { alive }],
            );
            terminations(events) + checkpoint_passes(events) == 1
        }),
{
    let guard = GuardView::fresh(pid);
    let look = seq![Observation::Checkpoint { alive }];
    lemma_checkpoint_passes_iff_alive(pid, before, alive);
    lemma_before_checkpoint(guard, before);
    lemma_end_count(guard, before);
    lemma_emitted_of_concat(guard, before, look);
    lemma_counts_of_concat(guard.emitted(before), guard.replay(before).emitted(look));
    let at = guard.replay(before);
    assert(look.drop_first() =~= Seq::<Observation>::empty());
    assert(at.next(look.first()).emitted(look.drop_first()) =~= Seq::<EventView>::empty());
    if alive {
        assert(at.emitted(look) =~= seq![EventView::DelayCheckpointPass]);
        lemma_counts_of_push_front(EventView::DelayCheckpointPass, Seq::empty());
    } else {
        assert(at.emitted(look) =~= Seq::<EventView>::empty());
    }
}

} // verus!
