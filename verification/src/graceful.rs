//! Asking a child to end, and waiting a bounded time for it to do so.
//!
//! A [`GracefulKill`] first looks whether the child has ended already, then
//! has the signal sent that asks it to end, and then polls
//! [`GRACEFUL_KILL_POLLS`] times, [`POLL_INTERVAL_MILLIS`] apart. It never
//! uses force: a child that is still running after the last poll is reported
//! as a failure.

use crate::kill::POLL_INTERVAL_MILLIS;
use crate::pid_file::{decimal, pid_file_content};
use vstd::prelude::*;

verus! {

/// How often the child is polled after it was asked to end.
pub const GRACEFUL_KILL_POLLS: u32 = 30;

/// Where a graceful kill stands.
#[derive(Debug, Clone, Copy, PartialEq, Eq, Structural)]
pub enum GracefulStage {
    /// To look whether the child has ended already.
    Probe,
    /// To ask the child to end.
    Signal,
    /// The child was asked; this many polls are left.
    Wait { polls_left: u32 },
    /// The kill has its verdict.
    Done,
}

/// What the caller has to do next for a graceful kill.
#[derive(Debug, Clone, Copy, PartialEq, Eq, Structural)]
pub enum GracefulAction {
    /// Look whether the child has ended.
    Probe { pid: u32 },
    /// Send the child the signal that asks it to end.
    Terminate { pid: u32 },
    /// Wait for `after_millis`, then look whether the child has ended.
    Poll { pid: u32, after_millis: u64 },
    /// Nothing: the kill has its verdict.
    Nothing,
}

/// What came of a [`GracefulAction`].
#[derive(Debug, Clone, PartialEq, Eq)]
pub enum GracefulReport {
    /// After a look at the child: it has ended.
    Exited,
    /// After a look at the child: it is still running, or the look failed.
    StillRunning,
    /// After [`GracefulAction::Terminate`]: the signal was sent.
    Signalled,
    /// After [`GracefulAction::Terminate`]: the signal could not be sent, for
    /// this reason.
    SignalFailed(String),
}

/// A [`GracefulReport`] with its text as a sequence of characters.
pub enum GracefulReportView {
    Exited,
    StillRunning,
    Signalled,
    SignalFailed(Seq<char>),
}

impl View for GracefulReport {
    type V = GracefulReportView;

    open spec fn view(&self) -> GracefulReportView {
        match self {
            GracefulReport::Exited => GracefulReportView::Exited,
            GracefulReport::StillRunning => GracefulReportView::StillRunning,
            GracefulReport::Signalled => GracefulReportView::Signalled,
            GracefulReport::SignalFailed(reason) => GracefulReportView::SignalFailed(reason@),
        }
    }
}

/// The view of a verdict that may still be open.
pub open spec fn graceful_verdict_view(verdict: Option<Result<(), String>>) -> Option<
    Result<(), Seq<char>>,
> {
    match verdict {
        None => None,
        Some(Ok(())) => Some(Ok(())),
        Some(Err(reason)) => Some(Err(reason@)),
    }
}

/// The complaint about a child that is still running after the last poll.
pub open spec fn still_running(pid: u32) -> Seq<char> {
    "Failed to gracefully kill child process "@ + decimal(pid as nat)
}

impl GracefulStage {
    /// What the caller has to do next.
    pub open spec fn action(self, pid: u32) -> GracefulAction {
        match self {
            GracefulStage::Probe => GracefulAction::Probe { pid },
            GracefulStage::Signal => GracefulAction::Terminate { pid },
            GracefulStage::Wait { .. } => GracefulAction::Poll {
                pid,
                after_millis: POLL_INTERVAL_MILLIS,
            },
            GracefulStage::Done => GracefulAction::Nothing,
        }
    }

    /// Whether `report` is an answer to the pending action.
    pub open spec fn answered_by(self, report: GracefulReportView) -> bool {
        match self {
            GracefulStage::Probe | GracefulStage::Wait { .. } => report is Exited
                || report is StillRunning,
            GracefulStage::Signal => report is Signalled || report is SignalFailed,
            GracefulStage::Done => false,
        }
    }

    /// The verdict that a report brings, if it brings one: success as soon as
    /// the child is found ended, the reason why the signal could not be sent,
    /// and the complaint when the last poll finds the child still running.
    pub open spec fn verdict(self, pid: u32, report: GracefulReportView) -> Option<
        Result<(), Seq<char>>,
    > {
        match (self, report) {
            (GracefulStage::Probe, GracefulReportView::Exited) => Some(Ok(())),
            (GracefulStage::Wait { .. }, GracefulReportView::Exited) => Some(Ok(())),
            (GracefulStage::Signal, GracefulReportView::SignalFailed(reason)) => Some(Err(reason)),
            (GracefulStage::Wait { polls_left }, GracefulReportView::StillRunning) => if polls_left
                > 1 {
                None
            } else {
                Some(Err(still_running(pid)))
            },
            _ => None,
        }
    }

    /// The stage after a report. A report that does not answer the pending
    /// action changes nothing.
    pub open spec fn next(self, pid: u32, report: GracefulReportView) -> GracefulStage {
        if !self.answered_by(report) {
            self
        } else if self.verdict(pid, report) is Some {
            GracefulStage::Done
        } else {
            match self {
                GracefulStage::Probe => GracefulStage::Signal,
                GracefulStage::Signal => GracefulStage::Wait { polls_left: GRACEFUL_KILL_POLLS },
                GracefulStage::Wait { polls_left } => GracefulStage::Wait {
                    polls_left: (polls_left - 1) as u32,
                },
                GracefulStage::Done => self,
            }
        }
    }

    /// The most answers that a graceful kill at this stage can still take.
    pub open spec fn steps_left(self) -> nat {
        match self {
            GracefulStage::Probe => 2 + GRACEFUL_KILL_POLLS as nat,
            GracefulStage::Signal => 1 + GRACEFUL_KILL_POLLS as nat,
            GracefulStage::Wait { polls_left } => if polls_left == 0 {
                1
            } else {
                polls_left as nat
            },
            GracefulStage::Done => 0,
        }
    }
}

/// A graceful kill in progress.
#[derive(Debug)]
pub struct GracefulKill {
    pid: u32,
    stage: GracefulStage,
}

/// What a [`GracefulKill`] holds.
pub struct GracefulView {
    /// The process id of the child to end.
    pub pid: u32,
    pub stage: GracefulStage,
}

impl View for GracefulKill {
    type V = GracefulView;

    closed spec fn view(&self) -> GracefulView {
        GracefulView { pid: self.pid, stage: self.stage }
    }
}

impl GracefulKill {
    /// Opens a graceful kill of the child `pid`.
    pub fn new(pid: u32) -> (kill: Self)
        ensures
            kill@ == (GracefulView { pid, stage: GracefulStage::Probe }),
    {
        GracefulKill { pid, stage: GracefulStage::Probe }
    }

    /// What the caller has to do next.
    pub fn action(&self) -> (action: GracefulAction)
        ensures
            action == self@.stage.action(self@.pid),
    {
        match self.stage {
            GracefulStage::Probe => GracefulAction::Probe { pid: self.pid },
            GracefulStage::Signal => GracefulAction::Terminate { pid: self.pid },
            GracefulStage::Wait { .. } => GracefulAction::Poll {
                pid: self.pid,
                after_millis: POLL_INTERVAL_MILLIS,
            },
            GracefulStage::Done => GracefulAction::Nothing,
        }
    }

    /// Where the kill stands.
    pub fn stage(&self) -> (stage: GracefulStage)
        ensures
            stage == self@.stage,
    {
        self.stage
    }

    /// Takes the report on the pending action. Answers `None` while the kill
    /// goes on, and with the verdict when it is over.
    pub fn advance(&mut self, report: GracefulReport) -> (verdict: Option<Result<(), String>>)
        ensures
            graceful_verdict_view(verdict) == old(self)@.stage.verdict(old(self)@.pid, report@),
            final(self)@ == (GracefulView {
                pid: old(self)@.pid,
                stage: old(self)@.stage.next(old(self)@.pid, report@),
            }),
    {
        match (self.stage, report) {
            (GracefulStage::Probe, GracefulReport::Exited) => {
                self.stage = GracefulStage::Done;
                Some(Ok(()))
            },
            (GracefulStage::Probe, GracefulReport::StillRunning) => {
                self.stage = GracefulStage::Signal;
                None
            },
            (GracefulStage::Signal, GracefulReport::Signalled) => {
                self.stage = GracefulStage::Wait { polls_left: GRACEFUL_KILL_POLLS };
                None
            },
            (GracefulStage::Signal, GracefulReport::SignalFailed(reason)) => {
                self.stage = GracefulStage::Done;
                Some(Err(reason))
            },
            (GracefulStage::Wait { .. }, GracefulReport::Exited) => {
                self.stage = GracefulStage::Done;
                Some(Ok(()))
            },
            (GracefulStage::Wait { polls_left }, GracefulReport::StillRunning) => {
                if polls_left > 1 {
                    self.stage = GracefulStage::Wait { polls_left: polls_left - 1 };
                    None
                } else {
                    self.stage = GracefulStage::Done;
                    let pid = pid_file_content(self.pid);
                    Some(
                        Err(
                            "Failed to gracefully kill child process ".to_owned().concat(
                                pid.as_str(),
                            ),
                        ),
                    )
                }
            },
            _ => None,
        }
    }
}

/// Every answered action brings a graceful kill nearer to its end, which it
/// reaches after 32 answers at most: one look, one signal and thirty polls.
pub proof fn lemma_graceful_step_bounded(stage: GracefulStage, pid: u32, report: GracefulReportView)
    ensures
        stage.answered_by(report) ==> stage.next(pid, report).steps_left() < stage.steps_left(),
        !stage.answered_by(report) ==> stage.next(pid, report) == stage,
        stage.steps_left() == 0 <==> stage is Done,
        GracefulStage::Probe.steps_left() == 32,
        stage.verdict(pid, report) is Some ==> stage.answered_by(report) && stage.next(
            pid,
            report,
        ) is Done,
{
}

} // verus!
