//! Ending the child: first by asking, then by force, each for a bounded time.
//!
//! [`CoreInstance::kill`] opens a [`KillProtocol`] for the child that is held.
//! The caller performs the protocol's pending [`KillAction`], reports what came
//! of it with [`CoreInstance::advance_kill`], and goes on until that answers
//! with a verdict. The protocol asks the child to end and polls it
//! [`GRACEFUL_POLLS`] times; if the child could not be asked or is still
//! running after that, it forces the end and polls [`FORCEFUL_POLLS`] times.
//! Every poll comes [`POLL_INTERVAL_MILLIS`] after the step before it.

use crate::instance::{CoreInstance, CoreInstanceError, ErrorView, Lifecycle};
use vstd::prelude::*;

verus! {

/// How often the child is polled after it was asked to end.
pub const GRACEFUL_POLLS: u32 = 20;

/// How often the child is polled after its end was forced.
pub const FORCEFUL_POLLS: u32 = 30;

/// The pause before each poll, in milliseconds.
pub const POLL_INTERVAL_MILLIS: u64 = 100;

/// Where a kill stands.
#[derive(Debug, Clone, Copy, PartialEq, Eq, Structural)]
pub enum KillStage {
    /// The child is to be asked to end.
    Signal,
    /// The child was asked; this many polls are left before force is used.
    GracefulWait { polls_left: u32 },
    /// The end of the child is to be forced.
    Force,
    /// The end was forced; this many polls are left before the kill is given
    /// up.
    ForcefulWait { polls_left: u32 },
    /// The kill has its verdict.
    Done,
}

/// What the caller has to do next for a kill.
#[derive(Debug, Clone, Copy, PartialEq, Eq, Structural)]
pub enum KillAction {
    /// Send the child the signal that asks it to end.
    Terminate { pid: u32 },
    /// Wait for `after_millis`, then look whether the child has ended.
    Poll { pid: u32, after_millis: u64 },
    /// End the child without asking.
    Force { pid: u32 },
    /// Nothing: the kill has its verdict.
    Nothing,
}

/// What came of a [`KillAction`].
#[derive(Debug)]
pub enum KillReport {
    /// After [`KillAction::Terminate`]: whether the signal could be sent.
    Signalled { delivered: bool },
    /// After [`KillAction::Poll`]: the child has ended.
    Exited,
    /// After [`KillAction::Poll`]: the child is still running.
    StillRunning,
    /// After [`KillAction::Poll`]: the poll itself failed, with this message.
    PollFailed(String),
    /// After [`KillAction::Force`]: the forced end was requested.
    Forced,
    /// After [`KillAction::Force`]: the request failed, with this message.
    ForceFailed(String),
}

/// A [`KillReport`] with its text as a sequence of characters.
pub enum ReportView {
    Signalled { delivered: bool },
    Exited,
    StillRunning,
    PollFailed(Seq<char>),
    Forced,
    ForceFailed(Seq<char>),
}

impl View for KillReport {
    type V = ReportView;

    open spec fn view(&self) -> ReportView {
        match self {
            KillReport::Signalled { delivered } => ReportView::Signalled { delivered: *delivered },
            KillReport::Exited => ReportView::Exited,
            KillReport::StillRunning => ReportView::StillRunning,
            KillReport::PollFailed(message) => ReportView::PollFailed(message@),
            KillReport::Forced => ReportView::Forced,
            KillReport::ForceFailed(message) => ReportView::ForceFailed(message@),
        }
    }
}

/// The view of a verdict that may still be open.
pub open spec fn verdict_view(verdict: Option<Result<(), CoreInstanceError>>) -> Option<
    Result<(), ErrorView>,
> {
    match verdict {
        None => None,
        Some(Ok(())) => Some(Ok(())),
        Some(Err(error)) => Some(Err(error@)),
    }
}

/// The error of a kill that the child outlived.
pub open spec fn kill_timeout() -> ErrorView {
    ErrorView::Io("Failed to kill instance: force kill timeout"@)
}

impl KillStage {
    /// What the caller has to do next.
    pub open spec fn action(self, pid: u32) -> KillAction {
        match self {
            KillStage::Signal => KillAction::Terminate { pid },
            KillStage::GracefulWait { .. } | KillStage::ForcefulWait { .. } => KillAction::Poll {
                pid,
                after_millis: POLL_INTERVAL_MILLIS,
            },
            KillStage::Force => KillAction::Force { pid },
            KillStage::Done => KillAction::Nothing,
        }
    }

    /// Whether `report` is an answer to the pending action.
    pub open spec fn answered_by(self, report: ReportView) -> bool {
        match self {
            KillStage::Signal => report is Signalled,
            KillStage::GracefulWait { .. } | KillStage::ForcefulWait { .. } => report is Exited
                || report is StillRunning || report is PollFailed,
            KillStage::Force => report is Forced || report is ForceFailed,
            KillStage::Done => false,
        }
    }

    /// The verdict that a report brings, if it brings one: success as soon as
    /// a poll finds the child ended, however it ended; the failure of a poll or
    /// of the forced end; and the timeout when the last poll after the forced
    /// end finds the child still running.
    pub open spec fn verdict(self, report: ReportView) -> Option<Result<(), ErrorView>> {
        match (self, report) {
            (KillStage::GracefulWait { .. }, ReportView::Exited) => Some(Ok(())),
            (KillStage::ForcefulWait { .. }, ReportView::Exited) => Some(Ok(())),
            (KillStage::GracefulWait { .. }, ReportView::PollFailed(message)) => Some(
                Err(ErrorView::Io(message)),
            ),
            (KillStage::ForcefulWait { .. }, ReportView::PollFailed(message)) => Some(
                Err(ErrorView::Io(message)),
            ),
            (KillStage::Force, ReportView::ForceFailed(message)) => Some(
                Err(ErrorView::Io(message)),
            ),
            (KillStage::ForcefulWait { polls_left }, ReportView::StillRunning) => if polls_left
                > 1 {
                None
            } else {
                Some(Err(kill_timeout()))
            },
            _ => None,
        }
    }

    /// The stage after a report. A report that does not answer the pending
    /// action changes nothing.
    pub open spec fn next(self, report: ReportView) -> KillStage {
        if !self.answered_by(report) {
            self
        } else if self.verdict(report) is Some {
            KillStage::Done
        } else {
            match (self, report) {
                (KillStage::Signal, ReportView::Signalled { delivered }) => if delivered {
                    KillStage::GracefulWait { polls_left: GRACEFUL_POLLS }
                } else {
                    KillStage::Force
                },
                (KillStage::GracefulWait { polls_left }, _) => if polls_left > 1 {
                    KillStage::GracefulWait { polls_left: (polls_left - 1) as u32 }
                } else {
                    KillStage::Force
                },
                (KillStage::Force, _) => KillStage::ForcefulWait { polls_left: FORCEFUL_POLLS },
                (KillStage::ForcefulWait { polls_left }, _) => KillStage::ForcefulWait {
                    polls_left: (polls_left - 1) as u32,
                },
                _ => self,
            }
        }
    }

    /// The pause that the pending action begins with, in milliseconds.
    pub open spec fn pause(self) -> nat {
        match self {
            KillStage::GracefulWait { .. } | KillStage::ForcefulWait { .. } => POLL_INTERVAL_MILLIS as nat,
            _ => 0,
        }
    }

    /// The most answers that a kill at this stage can still take.
    pub open spec fn steps_left(self) -> nat {
        match self {
            KillStage::Signal => 2 + GRACEFUL_POLLS as nat + FORCEFUL_POLLS as nat,
            KillStage::GracefulWait { polls_left } => at_least_one(polls_left) + 1
                + FORCEFUL_POLLS as nat,
            KillStage::Force => 1 + FORCEFUL_POLLS as nat,
            KillStage::ForcefulWait { polls_left } => at_least_one(polls_left),
            KillStage::Done => 0,
        }
    }

    /// The longest that a kill at this stage can still pause in all, in
    /// milliseconds.
    pub open spec fn millis_left(self) -> nat {
        match self {
            KillStage::Signal => (GRACEFUL_POLLS as nat + FORCEFUL_POLLS as nat)
                * POLL_INTERVAL_MILLIS as nat,
            KillStage::GracefulWait { polls_left } => (at_least_one(polls_left)
                + FORCEFUL_POLLS as nat) * POLL_INTERVAL_MILLIS as nat,
            KillStage::Force => FORCEFUL_POLLS as nat * POLL_INTERVAL_MILLIS as nat,
            KillStage::ForcefulWait { polls_left } => at_least_one(polls_left)
                * POLL_INTERVAL_MILLIS as nat,
            KillStage::Done => 0,
        }
    }

    /// The stage after a series of reports.
    pub open spec fn replay(self, reports: Seq<ReportView>) -> KillStage
        decreases reports.len(),
    {
        if reports.len() == 0 {
            self
        } else {
            self.next(reports.first()).replay(reports.drop_first())
        }
    }

    /// The verdict that a series of reports ends in, if one of them brings a
    /// verdict.
    pub open spec fn outcome(self, reports: Seq<ReportView>) -> Option<Result<(), ErrorView>>
        decreases reports.len(),
    {
        if reports.len() == 0 {
            None
        } else if self.verdict(reports.first()) is Some {
            self.verdict(reports.first())
        } else {
            self.next(reports.first()).outcome(reports.drop_first())
        }
    }

    /// How many of a series of reports answered the action pending when they
    /// came.
    pub open spec fn answers(self, reports: Seq<ReportView>) -> nat
        decreases reports.len(),
    {
        if reports.len() == 0 {
            0
        } else {
            self.next(reports.first()).answers(reports.drop_first()) + if self.answered_by(
                reports.first(),
            ) {
                1nat
            } else {
                0nat
            }
        }
    }

    /// The pauses of the actions that a series of reports answered, in
    /// milliseconds.
    pub open spec fn paused(self, reports: Seq<ReportView>) -> nat
        decreases reports.len(),
    {
        if reports.len() == 0 {
            0
        } else {
            self.next(reports.first()).paused(reports.drop_first()) + if self.answered_by(
                reports.first(),
            ) {
                self.pause()
            } else {
                0nat
            }
        }
    }
}

/// `polls`, or 1 where it is 0.
pub open spec fn at_least_one(polls: u32) -> nat {
    if polls == 0 {
        1
    } else {
        polls as nat
    }
}

/// A kill in progress.
#[derive(Debug)]
pub struct KillProtocol {
    pid: u32,
    stage: KillStage,
}

/// What a [`KillProtocol`] holds.
pub struct KillView {
    /// The process id of the child to end.
    pub pid: u32,
    pub stage: KillStage,
}

impl KillView {
    /// The supervisor after a report: with the verdict of success it lets go
    /// of the child, if it still holds that child; in every other case it is
    /// left as it is, so that a failed kill can be tried again.
    pub open spec fn settle(self, life: Lifecycle, report: ReportView) -> Lifecycle {
        if self.stage.verdict(report) == Some(Ok::<(), ErrorView>(())) {
            life.release(self.pid)
        } else {
            life
        }
    }
}

impl Lifecycle {
    /// Whether a kill can begin, and for which child: a supervisor that holds
    /// no child refuses.
    pub open spec fn kill_entry(self) -> Result<KillView, ErrorView> {
        match self.child {
            Some(pid) => Ok(KillView { pid, stage: KillStage::Signal }),
            None => Err(ErrorView::StateCheckFailed),
        }
    }
}

impl View for KillProtocol {
    type V = KillView;

    closed spec fn view(&self) -> KillView {
        KillView { pid: self.pid, stage: self.stage }
    }
}

impl KillProtocol {
    /// What the caller has to do next.
    pub fn action(&self) -> (action: KillAction)
        ensures
            action == self@.stage.action(self@.pid),
    {
        match self.stage {
            KillStage::Signal => KillAction::Terminate { pid: self.pid },
            KillStage::GracefulWait { .. } | KillStage::ForcefulWait { .. } => KillAction::Poll {
                pid: self.pid,
                after_millis: POLL_INTERVAL_MILLIS,
            },
            KillStage::Force => KillAction::Force { pid: self.pid },
            KillStage::Done => KillAction::Nothing,
        }
    }

    /// Where the kill stands.
    pub fn stage(&self) -> (stage: KillStage)
        ensures
            stage == self@.stage,
    {
        self.stage
    }

    /// Takes a report and answers with the verdict it brings.
    fn advance(&mut self, report: KillReport) -> (verdict: Option<Result<(), CoreInstanceError>>)
        ensures
            verdict_view(verdict) == old(self)@.stage.verdict(report@),
            final(self)@ == (KillView {
                pid: old(self)@.pid,
                stage: old(self)@.stage.next(report@),
            }),
    {
        match (self.stage, report) {
            (KillStage::Signal, KillReport::Signalled { delivered }) => {
                if delivered {
                    self.stage = KillStage::GracefulWait { polls_left: GRACEFUL_POLLS };
                } else {
                    self.stage = KillStage::Force;
                }
                None
            },
            (KillStage::GracefulWait { .. }, KillReport::Exited) => {
                self.stage = KillStage::Done;
                Some(Ok(()))
            },
            (KillStage::ForcefulWait { .. }, KillReport::Exited) => {
                self.stage = KillStage::Done;
                Some(Ok(()))
            },
            (KillStage::GracefulWait { .. }, KillReport::PollFailed(message)) => {
                self.stage = KillStage::Done;
                Some(Err(CoreInstanceError::Io(message)))
            },
            (KillStage::ForcefulWait { .. }, KillReport::PollFailed(message)) => {
                self.stage = KillStage::Done;
                Some(Err(CoreInstanceError::Io(message)))
            },
            (KillStage::GracefulWait { polls_left }, KillReport::StillRunning) => {
                if polls_left > 1 {
                    self.stage = KillStage::GracefulWait { polls_left: polls_left - 1 };
                } else {
                    self.stage = KillStage::Force;
                }
                None
            },
            (KillStage::Force, KillReport::Forced) => {
                self.stage = KillStage::ForcefulWait { polls_left: FORCEFUL_POLLS };
                None
            },
            (KillStage::Force, KillReport::ForceFailed(message)) => {
                self.stage = KillStage::Done;
                Some(Err(CoreInstanceError::Io(message)))
            },
            (KillStage::ForcefulWait { polls_left }, KillReport::StillRunning) => {
                if polls_left > 1 {
                    self.stage = KillStage::ForcefulWait { polls_left: polls_left - 1 };
                    None
                } else {
                    self.stage = KillStage::Done;
                    Some(
                        Err(
                            CoreInstanceError::Io(
                                "Failed to kill instance: force kill timeout".to_owned(),
                            ),
                        ),
                    )
                }
            },
            _ => None,
        }
    }
}

impl CoreInstance {
    /// Opens a kill of the child that is held. A supervisor that holds no
    /// child refuses with [`CoreInstanceError::StateCheckFailed`]. Nothing is
    /// changed by asking.
    pub fn kill(&self) -> (opened: Result<KillProtocol, CoreInstanceError>)
        ensures
            match opened {
                Ok(protocol) => self.lifecycle().kill_entry() == Ok::<KillView, ErrorView>(
                    protocol@,
                ),
                Err(error) => self.lifecycle().kill_entry() == Err::<KillView, ErrorView>(error@),
            },
    {
        match self.child() {
            Some(pid) => Ok(KillProtocol { pid, stage: KillStage::Signal }),
            None => Err(CoreInstanceError::StateCheckFailed),
        }
    }

    /// Takes the report on the protocol's pending action. Answers `None` while
    /// the kill goes on, and with the verdict when it is over.
    pub fn advance_kill(&mut self, protocol: &mut KillProtocol, report: KillReport) -> (verdict:
        Option<Result<(), CoreInstanceError>>)
        ensures
            verdict_view(verdict) == old(protocol)@.stage.verdict(report@),
            final(protocol)@ == (KillView {
                pid: old(protocol)@.pid,
                stage: old(protocol)@.stage.next(report@),
            }),
            final(self).lifecycle() == old(protocol)@.settle(old(self).lifecycle(), report@),
            final(self).settings() == old(self).settings(),
            old(self).wf() ==> final(self).wf(),
    {
        let verdict = protocol.advance(report);
        if let Some(Ok(())) = &verdict {
            self.release(protocol.pid);
        }
        verdict
    }
}

/// A kill that ends in success leaves a supervisor that held the child
/// without a child and in the state `Stopped`, and the next kill is refused.
pub proof fn lemma_second_kill_refused(life: Lifecycle, kill: KillView, report: ReportView)
    requires
        life.child == Some(kill.pid),
        kill.stage.verdict(report) == Some(Ok::<(), ErrorView>(())),
    ensures
        kill.settle(life, report) == Lifecycle::idle(),
        kill.settle(life, report).kill_entry() == Err::<KillView, ErrorView>(
            ErrorView::StateCheckFailed,
        ),
{
}

/// A kill that fails, by timeout or otherwise, leaves the supervisor's state
/// and child as they were; and while a kill has no verdict they stay as well.
pub proof fn lemma_failed_kill_keeps_child(life: Lifecycle, kill: KillView, report: ReportView)
    requires
        kill.stage.verdict(report) != Some(Ok::<(), ErrorView>(())),
    ensures
        kill.settle(life, report) == life,
{
}

/// No report on a kill turns a supervisor that holds a child when it reports
/// `Running` into one that reports `Running` without a child.
pub proof fn lemma_kill_keeps_wf(life: Lifecycle, kill: KillView, report: ReportView)
    requires
        life.wf(),
    ensures
        kill.settle(life, report).wf(),
{
}

/// Every answered action brings a kill nearer to its end: the answers that it
/// can still take become fewer, and the time that it can still pause shrinks
/// by at least the pause of the action. A kill has no action pending exactly
/// when no answers are left to take.
pub proof fn lemma_kill_step_bounded(stage: KillStage, report: ReportView)
    ensures
        stage.answered_by(report) ==> stage.next(report).steps_left() < stage.steps_left(),
        stage.answered_by(report) ==> stage.pause() + stage.next(report).millis_left()
            <= stage.millis_left(),
        !stage.answered_by(report) ==> stage.next(report) == stage,
        stage.steps_left() == 0 <==> stage is Done,
        stage.verdict(report) is Some ==> stage.answered_by(report) && stage.next(report) is Done,
{
}

/// Whatever is reported and in whatever order, a kill takes at most 52
/// answers and pauses for at most five seconds in all before it has its
/// verdict.
pub proof fn lemma_kill_is_bounded(reports: Seq<ReportView>)
    ensures
        KillStage::Signal.answers(reports) <= 52,
        KillStage::Signal.paused(reports) <= 5000,
        KillStage::Signal.answers(reports) == 52 ==> KillStage::Signal.replay(reports) is Done,
{
    lemma_kill_trace_bounded(KillStage::Signal, reports);
}

proof fn lemma_kill_trace_bounded(stage: KillStage, reports: Seq<ReportView>)
    ensures
        stage.answers(reports) + stage.replay(reports).steps_left() <= stage.steps_left(),
        stage.paused(reports) + stage.replay(reports).millis_left() <= stage.millis_left(),
    decreases reports.len(),
{
    if reports.len() > 0 {
        lemma_kill_step_bounded(stage, reports.first());
        lemma_kill_trace_bounded(stage.next(reports.first()), reports.drop_first());
    }
}

/// A series of `polls` polls that each find the child still running.
pub open spec fn still_running(polls: nat) -> Seq<ReportView> {
    Seq::new(polls, |i: int| ReportView::StillRunning)
}

proof fn lemma_outcome_of_concat(stage: KillStage, a: Seq<ReportView>, b: Seq<ReportView>)
    requires
        stage.outcome(a) is None,
    ensures
        stage.outcome(a + b) == stage.replay(a).outcome(b),
    decreases a.len(),
{
    if a.len() == 0 {
        assert(a + b =~= b);
    } else {
        assert((a + b).first() == a.first());
        assert((a + b).drop_first() =~= a.drop_first() + b);
        lemma_outcome_of_concat(stage.next(a.first()), a.drop_first(), b);
    }
}

proof fn lemma_still_running_unfolds(polls: nat)
    requires
        polls > 0,
    ensures
        still_running(polls).len() == polls,
        still_running(polls).first() == ReportView::StillRunning,
        still_running(polls).drop_first() == still_running((polls - 1) as nat),
        still_running((polls - 1) as nat).len() == polls - 1,
{
    assert(still_running(polls).drop_first() =~= still_running((polls - 1) as nat));
}

proof fn lemma_graceful_window(left: u32, polls: nat)
    requires
        1 <= polls <= left,
    ensures
        (KillStage::GracefulWait { polls_left: left }).outcome(still_running(polls)) is None,
        (KillStage::GracefulWait { polls_left: left }).replay(still_running(polls)) == if polls
            == left {
            KillStage::Force
        } else {
            KillStage::GracefulWait { polls_left: (left - polls) as u32 }
        },
    decreases polls,
{
    let stage = KillStage::GracefulWait { polls_left: left };
    let reports = still_running(polls);
    lemma_still_running_unfolds(polls);
    assert(stage.verdict(reports.first()) is None);
    assert(stage.answered_by(reports.first()));
    let after = stage.next(reports.first());
    assert(stage.outcome(reports) == after.outcome(reports.drop_first()));
    assert(stage.replay(reports) == after.replay(reports.drop_first()));
    if polls > 1 {
        assert(after == KillStage::GracefulWait { polls_left: (left - 1) as u32 });
        lemma_graceful_window((left - 1) as u32, (polls - 1) as nat);
    } else {
        assert(after.outcome(reports.drop_first()) is None);
        assert(after.replay(reports.drop_first()) == after);
    }
}

proof fn lemma_forceful_window(left: u32, polls: nat)
    requires
        polls <= left,
        1 <= left,
    ensures
        (KillStage::ForcefulWait { polls_left: left }).outcome(still_running(polls)) == if polls
            == left {
            Some(Err::<(), ErrorView>(kill_timeout()))
        } else {
            None
        },
        polls < left ==> (KillStage::ForcefulWait { polls_left: left }).replay(
            still_running(polls),
        ) == (KillStage::ForcefulWait { polls_left: (left - polls) as u32 }),
    decreases polls,
{
    let stage = KillStage::ForcefulWait { polls_left: left };
    let reports = still_running(polls);
    if polls == 0 {
        assert(reports.len() == 0);
    } else {
        lemma_still_running_unfolds(polls);
        assert(stage.answered_by(reports.first()));
        if left > 1 {
            let after = stage.next(reports.first());
            assert(stage.verdict(reports.first()) is None);
            assert(after == KillStage::ForcefulWait { polls_left: (left - 1) as u32 });
            assert(stage.outcome(reports) == after.outcome(reports.drop_first()));
            assert(stage.replay(reports) == after.replay(reports.drop_first()));
            lemma_forceful_window((left - 1) as u32, (polls - 1) as nat);
        } else {
            assert(stage.verdict(reports.first()) == Some(Err::<(), ErrorView>(kill_timeout())));
        }
    }
}

/// How a kill gets to the forceful window when the signal is sent and
/// ignored.
proof fn lemma_kill_opening(tail: Seq<ReportView>)
    ensures
        KillStage::Signal.outcome(
            seq![ReportView::Signalled { delivered: true }] + (still_running(GRACEFUL_POLLS as nat)
                + (seq![ReportView::Forced] + tail)),
        ) == (KillStage::ForcefulWait { polls_left: FORCEFUL_POLLS }).outcome(tail),
{
    let signalled = seq![ReportView::Signalled { delivered: true }];
    let graceful = still_running(GRACEFUL_POLLS as nat);
    let forced = seq![ReportView::Forced];
    let rest = graceful + (forced + tail);
    let all = signalled + rest;
    assert(all.first() == signalled[0]);
    assert(all.drop_first() =~= rest);
    let asked = KillStage::GracefulWait { polls_left: GRACEFUL_POLLS };
    lemma_graceful_window(GRACEFUL_POLLS, GRACEFUL_POLLS as nat);
    lemma_outcome_of_concat(asked, graceful, forced + tail);
    assert((forced + tail).first() == ReportView::Forced);
    assert((forced + tail).drop_first() =~= tail);
}

/// A child that takes no notice of the signal, and ends within the polls
/// that follow the forced end, is killed with success: the signal is sent,
/// all polls of the graceful window find it running, force is used, and one
/// of the polls of the forceful window finds it ended.
pub proof fn lemma_force_ends_a_deaf_child(polls_survived: nat)
    requires
        polls_survived < FORCEFUL_POLLS,
    ensures
        KillStage::Signal.outcome(
            seq![ReportView::Signalled { delivered: true }] + still_running(GRACEFUL_POLLS as nat)
                + seq![ReportView::Forced] + still_running(polls_survived)
                + seq![ReportView::Exited],
        ) == Some(Ok::<(), ErrorView>(())),
{
    let signalled = seq![ReportView::Signalled { delivered: true }];
    let graceful = still_running(GRACEFUL_POLLS as nat);
    let forced = seq![ReportView::Forced];
    let forceful = still_running(polls_survived);
    let exited = seq![ReportView::Exited];
    lemma_kill_opening(forceful + exited);
    lemma_forceful_window(FORCEFUL_POLLS, polls_survived);
    let waiting = KillStage::ForcefulWait { polls_left: FORCEFUL_POLLS };
    lemma_outcome_of_concat(waiting, forceful, exited);
    assert(exited.first() == ReportView::Exited);
    assert(signalled + graceful + forced + forceful + exited =~= signalled + (graceful + (forced
        + (forceful + exited))));
}

/// A child that outlives both windows makes the kill fail with the timeout,
/// after the last poll of the forceful window.
pub proof fn lemma_undying_child_times_out()
    ensures
        KillStage::Signal.outcome(
            seq![ReportView::Signalled { delivered: true }] + still_running(GRACEFUL_POLLS as nat)
                + seq![ReportView::Forced] + still_running(FORCEFUL_POLLS as nat),
        ) == Some(Err::<(), ErrorView>(kill_timeout())),
{
    let signalled = seq![ReportView::Signalled { delivered: true }];
    let graceful = still_running(GRACEFUL_POLLS as nat);
    let forced = seq![ReportView::Forced];
    let forceful = still_running(FORCEFUL_POLLS as nat);
    lemma_kill_opening(forceful);
    lemma_forceful_window(FORCEFUL_POLLS, FORCEFUL_POLLS as nat);
    assert(signalled + graceful + forced + forceful =~= signalled + (graceful + (forced
        + forceful)));
}

} // verus!
