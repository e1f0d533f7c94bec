//! Bounded, unordered scheduling of the piece downloads.
//!
//! The scheduler decides; its caller does the work. Each call of `step`
//! hands in what happened (nothing yet, or a piece finished) and gets back
//! what to do next: launch the next segment, wait for a piece, or stop.
//! Segments are produced one at a time in plan order, so no list of them is
//! held, and no more than `parallelism` pieces are ever in flight.
use crate::error::DlError;
use crate::plan::{
    count_segments, nth_segment, piece_len, piece_length, plan, planned_segment, segment_count,
    Segment,
};
use vstd::prelude::*;

verus! {

/// What happened since the last step.
#[derive(Debug)]
pub enum Event {
    /// Nothing: asks for the next action.
    Ready,
    /// A piece finished, with the offset it wrote or the reason it failed.
    PieceFinished(Result<u64, DlError>),
}

/// What the caller is to do next.
#[derive(Debug, PartialEq, Eq)]
pub enum Action {
    /// Start fetching this segment.
    Launch(Segment),
    /// Wait until a piece in flight finishes, and report it.
    AwaitPiece,
    /// Every segment was written: the download succeeded.
    Finish,
    /// The download failed: stop and abandon the pieces in flight.
    Abort(DlError),
}

/// The scheduler's state in numbers.
pub struct SchedulerView {
    pub file_size: nat,
    pub parallelism: nat,
    pub piece: nat,
    pub count: nat,
    /// Segments handed out so far.
    pub launched: nat,
    /// Pieces started and not yet reported.
    pub in_flight: nat,
    /// Pieces reported as written.
    pub completed: nat,
    /// `Finish` or `Abort` was returned.
    pub stopped: bool,
}

/// The invariant of every scheduler state.
pub open spec fn scheduler_inv(v: SchedulerView) -> bool {
    &&& v.parallelism >= 1
    &&& v.file_size <= u64::MAX
    &&& v.parallelism <= u64::MAX
    &&& v.piece == piece_len(v.file_size, v.parallelism)
    &&& v.count == segment_count(v.file_size, v.parallelism)
    &&& v.launched <= v.count
    &&& v.in_flight <= v.parallelism
    &&& v.completed + v.in_flight <= v.launched
    &&& !v.stopped ==> v.completed + v.in_flight == v.launched
}

/// Hands out the next segment if one is left and a slot is free; otherwise
/// waits while pieces are in flight; otherwise finishes.
pub open spec fn dispatch(v: SchedulerView) -> (SchedulerView, Action) {
    if v.launched < v.count && v.in_flight < v.parallelism {
        (
            SchedulerView { launched: v.launched + 1, in_flight: v.in_flight + 1, ..v },
            Action::Launch(planned_segment(v.file_size, v.parallelism, v.launched)),
        )
    } else if v.in_flight > 0 {
        (v, Action::AwaitPiece)
    } else {
        (SchedulerView { stopped: true, ..v }, Action::Finish)
    }
}

/// The next state and action after `event`. A failed piece aborts the whole
/// download at once; an event that cannot happen (a piece reported while
/// none is in flight, or any event after the end) aborts with
/// `StreamProcessing`.
pub open spec fn step_result(v: SchedulerView, event: Event) -> (SchedulerView, Action) {
    if v.stopped {
        (v, Action::Abort(DlError::StreamProcessing))
    } else {
        match event {
            Event::Ready => dispatch(v),
            Event::PieceFinished(outcome) => {
                if v.in_flight == 0 {
                    (SchedulerView { stopped: true, ..v }, Action::Abort(DlError::StreamProcessing))
                } else {
                    match outcome {
                        Ok(_) => dispatch(
                            SchedulerView {
                                in_flight: (v.in_flight - 1) as nat,
                                completed: v.completed + 1,
                                ..v
                            },
                        ),
                        Err(e) => (
                            SchedulerView { in_flight: (v.in_flight - 1) as nat, stopped: true, ..v },
                            Action::Abort(e),
                        ),
                    }
                }
            },
        }
    }
}

/// Drives the segments of one file through at most `parallelism` concurrent
/// piece downloads.
pub struct Scheduler {
    file_size: u64,
    parallelism: u64,
    piece: u64,
    count: u64,
    launched: u64,
    in_flight: u64,
    completed: u64,
    stopped: bool,
}

impl View for Scheduler {
    type V = SchedulerView;

    closed spec fn view(&self) -> SchedulerView {
        SchedulerView {
            file_size: self.file_size as nat,
            parallelism: self.parallelism as nat,
            piece: self.piece as nat,
            count: self.count as nat,
            launched: self.launched as nat,
            in_flight: self.in_flight as nat,
            completed: self.completed as nat,
            stopped: self.stopped,
        }
    }
}

impl Scheduler {
    pub open spec fn wf(&self) -> bool {
        scheduler_inv(self@)
    }

    /// A scheduler for a file of `file_size` bytes, nothing launched yet.
    pub fn new(file_size: u64, parallelism: usize) -> (r: Scheduler)
        requires
            parallelism >= 1,
        ensures
            r.wf(),
            r@.file_size == file_size,
            r@.parallelism == parallelism,
            r@.count == plan(file_size as nat, parallelism as nat).len(),
            r@.launched == 0,
            r@.in_flight == 0,
            r@.completed == 0,
            !r@.stopped,
    {
        let p = parallelism as u64;
        Scheduler {
            file_size,
            parallelism: p,
            piece: piece_length(file_size, p),
            count: count_segments(file_size, p),
            launched: 0,
            in_flight: 0,
            completed: 0,
            stopped: false,
        }
    }

    fn dispatch(&mut self) -> (r: Action)
        requires
            old(self).wf(),
            !old(self)@.stopped,
        ensures
            final(self).wf(),
            (final(self)@, r) == dispatch(old(self)@),
    {
        if self.launched < self.count && self.in_flight < self.parallelism {
            let seg = nth_segment(
                self.file_size,
                self.parallelism,
                self.piece,
                self.count,
                self.launched,
            );
            self.launched = self.launched + 1;
            self.in_flight = self.in_flight + 1;
            Action::Launch(seg)
        } else if self.in_flight > 0 {
            Action::AwaitPiece
        } else {
            self.stopped = true;
            Action::Finish
        }
    }

    /// Takes in what happened and says what to do next.
    pub fn step(&mut self, event: Event) -> (r: Action)
        requires
            old(self).wf(),
        ensures
            final(self).wf(),
            (final(self)@, r) == step_result(old(self)@, event),
    {
        if self.stopped {
            return Action::Abort(DlError::StreamProcessing);
        }
        match event {
            Event::Ready => self.dispatch(),
            Event::PieceFinished(outcome) => {
                if self.in_flight == 0 {
                    self.stopped = true;
                    return Action::Abort(DlError::StreamProcessing);
                }
                match outcome {
                    Ok(_) => {
                        self.in_flight = self.in_flight - 1;
                        self.completed = self.completed + 1;
                        self.dispatch()
                    },
                    Err(e) => {
                        self.in_flight = self.in_flight - 1;
                        self.stopped = true;
                        Action::Abort(e)
                    },
                }
            },
        }
    }
}

/// Whatever happens, a step keeps the invariant, and so never more than
/// `parallelism` pieces are in flight.
pub proof fn lemma_step_bounded(v: SchedulerView, event: Event)
    requires
        scheduler_inv(v),
    ensures
        scheduler_inv(step_result(v, event).0),
        step_result(v, event).0.in_flight <= v.parallelism,
        step_result(v, event).0.parallelism == v.parallelism,
{
}

/// The `k`-th launch hands out the `k`-th planned segment, and the download
/// finishes only once every planned segment was written.
pub proof fn lemma_step_follows_plan(v: SchedulerView, event: Event)
    requires
        scheduler_inv(v),
    ensures
        step_result(v, event).1 matches Action::Launch(seg) ==> v.launched < plan(
            v.file_size,
            v.parallelism,
        ).len() && seg == plan(v.file_size, v.parallelism)[v.launched as int],
        step_result(v, event).1 matches Action::Launch(_) ==> step_result(v, event).0.launched
            == v.launched + 1,
        step_result(v, event).1 == Action::Finish ==> step_result(v, event).0.completed == plan(
            v.file_size,
            v.parallelism,
        ).len(),
{
}

} // verus!
