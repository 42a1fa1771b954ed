//! The bounded change writer.
//!
//! Writing a change set takes work that this library does not do itself:
//! creating the output directory and writing the files. What it does is
//! decide. A [`WriteSchedule`] tells its caller what to do next, one
//! [`Action`] at a time, and the caller reports each thing that happened as
//! an [`Event`]:
//!
//! * the directory is created before any write is handed out;
//! * writes are handed out in the order of the plan, and never while
//!   [`MAX_IN_FLIGHT`] of them are still running;
//! * the first failure that is reported ends the run with that failure, and
//!   nothing that was written is taken back;
//! * the run ends well once every write has been reported as done.
//!
//! The rules are the spec functions of [`ScheduleView`]; the schedule follows
//! them step by step.

use crate::error::{Error, ErrorView};
use crate::plan::{plan_writes, planned_writes, FileWrite};
use vstd::prelude::*;

verus! {

/// The number of writes that may run at the same time.
pub const MAX_IN_FLIGHT: usize = 2;

/// Something the caller reports to the schedule.
#[derive(Debug, PartialEq, Eq)]
pub enum Event {
    /// The output directory exists now, with every directory above it.
    DirectoryCreated,
    /// The output directory could not be created.
    DirectoryFailed(String),
    /// One of the running writes has written its whole file.
    WriteSucceeded,
    /// One of the running writes could not create or fully write its file.
    WriteFailed(String),
}

/// Mathematical value of an [`Event`].
pub enum EventView {
    DirectoryCreated,
    DirectoryFailed(Seq<char>),
    WriteSucceeded,
    WriteFailed(Seq<char>),
}

impl View for Event {
    type V = EventView;

    open spec fn view(&self) -> EventView {
        match self {
            Event::DirectoryCreated => EventView::DirectoryCreated,
            Event::DirectoryFailed(text) => EventView::DirectoryFailed(text@),
            Event::WriteSucceeded => EventView::WriteSucceeded,
            Event::WriteFailed(text) => EventView::WriteFailed(text@),
        }
    }
}

/// What the schedule asks its caller to do next.
#[derive(Debug, PartialEq, Eq)]
pub enum Action {
    /// Create the output directory and report how that went.
    CreateDirectory,
    /// Start the write at this index of the plan, then ask for the next
    /// action without waiting for it.
    Write(usize),
    /// Wait until one of the running writes is over and report how it went.
    Wait,
    /// The run is over, with this result.
    Finish(Result<(), Error>),
}

/// Mathematical value of an [`Action`].
pub enum ActionView {
    CreateDirectory,
    Write(nat),
    Wait,
    Finish(Result<(), ErrorView>),
}

impl View for Action {
    type V = ActionView;

    open spec fn view(&self) -> ActionView {
        match self {
            Action::CreateDirectory => ActionView::CreateDirectory,
            Action::Write(index) => ActionView::Write(*index as nat),
            Action::Wait => ActionView::Wait,
            Action::Finish(Ok(())) => ActionView::Finish(Ok(())),
            Action::Finish(Err(error)) => ActionView::Finish(Err(error@)),
        }
    }
}

/// Mathematical value of a [`WriteSchedule`], and the rules it follows.
pub struct ScheduleView {
    /// The number of writes in the plan.
    pub total: nat,
    /// Whether the output directory has been reported as created.
    pub directory_ready: bool,
    /// How many writes have been handed out, always the first of the plan.
    pub started: nat,
    /// How many of those have been reported as over, well or not.
    pub settled: nat,
    /// The first failure that was reported, if any.
    pub failure: Option<ErrorView>,
}

impl ScheduleView {
    /// The schedule of a run that has not begun.
    pub open spec fn initial(total: nat) -> ScheduleView {
        ScheduleView { total, directory_ready: false, started: 0, settled: 0, failure: None }
    }

    /// The number of writes that are running.
    pub open spec fn in_flight(self) -> int {
        self.started - self.settled
    }

    /// What holds of every schedule: no more writes are over than were
    /// started, nor more started than planned; at most [`MAX_IN_FLIGHT`] are
    /// running; and none was started before the directory was there.
    pub open spec fn wf(self) -> bool {
        &&& self.settled <= self.started <= self.total
        &&& self.in_flight() <= MAX_IN_FLIGHT
        &&& self.started > 0 ==> self.directory_ready
    }

    /// The action that is due in this state.
    pub open spec fn action(self) -> ActionView {
        if let Some(error) = self.failure {
            ActionView::Finish(Err(error))
        } else if !self.directory_ready {
            ActionView::CreateDirectory
        } else if self.started < self.total && self.in_flight() < MAX_IN_FLIGHT {
            ActionView::Write(self.started)
        } else if self.in_flight() > 0 {
            ActionView::Wait
        } else {
            ActionView::Finish(Ok(()))
        }
    }

    /// The state once the due action has been handed out: a write that is
    /// handed out counts as started.
    pub open spec fn after_action(self) -> ScheduleView {
        if self.action() is Write {
            ScheduleView { started: self.started + 1, ..self }
        } else {
            self
        }
    }

    /// The state with `error` recorded, unless a failure is recorded already:
    /// the first one stands.
    pub open spec fn with_failure(self, error: ErrorView) -> ScheduleView {
        if self.failure is None {
            ScheduleView { failure: Some(error), ..self }
        } else {
            self
        }
    }

    /// The state with one running write less. A report that no running write
    /// can account for settles nothing.
    pub open spec fn with_one_settled(self) -> ScheduleView {
        if self.in_flight() > 0 {
            ScheduleView { settled: self.settled + 1, ..self }
        } else {
            self
        }
    }

    /// The state once `event` has been reported.
    pub open spec fn after_event(self, event: EventView) -> ScheduleView {
        match event {
            EventView::DirectoryCreated => ScheduleView { directory_ready: true, ..self },
            EventView::DirectoryFailed(text) => self.with_failure(ErrorView::DirectorySetup(text)),
            EventView::WriteSucceeded => self.with_one_settled(),
            EventView::WriteFailed(text) => self.with_one_settled().with_failure(
                ErrorView::EntryWrite(text),
            ),
        }
    }

    /// The state after one step of a run.
    pub open spec fn after_step(self, step: Step) -> ScheduleView {
        match step {
            Step::Ask => self.after_action(),
            Step::Report(event) => self.after_event(event),
        }
    }

    /// The state after a whole sequence of steps, taken in order.
    pub open spec fn after_steps(self, steps: Seq<Step>) -> ScheduleView
        decreases steps.len(),
    {
        if steps.len() == 0 {
            self
        } else {
            self.after_steps(steps.drop_last()).after_step(steps.last())
        }
    }
}

/// One step of a run, as the schedule sees it.
pub enum Step {
    /// The caller asks for the next action.
    Ask,
    /// The caller reports an event.
    Report(EventView),
}

/// No step breaks what holds of every schedule.
pub proof fn lemma_step_keeps_well_formed(schedule: ScheduleView, step: Step)
    requires
        schedule.wf(),
    ensures
        schedule.after_step(step).wf(),
{
}

/// However a run goes, in whatever order the caller asks and reports, never
/// more than [`MAX_IN_FLIGHT`] writes are running.
pub proof fn lemma_writes_in_flight_are_capped(total: nat, steps: Seq<Step>)
    ensures
        ScheduleView::initial(total).after_steps(steps).wf(),
        0 <= ScheduleView::initial(total).after_steps(steps).in_flight() <= MAX_IN_FLIGHT,
    decreases steps.len(),
{
    if steps.len() > 0 {
        lemma_writes_in_flight_are_capped(total, steps.drop_last());
        lemma_step_keeps_well_formed(
            ScheduleView::initial(total).after_steps(steps.drop_last()),
            steps.last(),
        );
    }
}

/// A write is handed out only into a free slot, with the directory in place
/// and no failure on record, and it is the next of the plan.
pub proof fn lemma_write_takes_a_free_slot(schedule: ScheduleView)
    requires
        schedule.wf(),
        schedule.action() is Write,
    ensures
        schedule.action() == ActionView::Write(schedule.started),
        schedule.started < schedule.total,
        schedule.directory_ready,
        schedule.failure is None,
        schedule.in_flight() < MAX_IN_FLIGHT,
        schedule.after_action().in_flight() == schedule.in_flight() + 1,
{
}

/// The first failure ends the run and stands: whatever is asked or reported
/// after it, the due action is to finish with that failure, no further write
/// is handed out, and no write that is over is taken back.
pub proof fn lemma_first_failure_stands(schedule: ScheduleView, steps: Seq<Step>)
    requires
        schedule.failure is Some,
    ensures
        schedule.after_steps(steps).failure == schedule.failure,
        schedule.after_steps(steps).action() == ActionView::Finish(Err(schedule.failure->0)),
        schedule.after_steps(steps).started == schedule.started,
        schedule.after_steps(steps).settled >= schedule.settled,
    decreases steps.len(),
{
    if steps.len() > 0 {
        lemma_first_failure_stands(schedule, steps.drop_last());
    }
}

/// A failed write fails the run: once it is reported a failure is on record,
/// and from then on the run can only finish with an error. Where none was on
/// record before, it is this write's.
pub proof fn lemma_failed_write_fails_the_run(
    schedule: ScheduleView,
    text: Seq<char>,
    steps: Seq<Step>,
)
    ensures
        schedule.after_event(EventView::WriteFailed(text)).failure is Some,
        schedule.failure is None ==> schedule.after_event(EventView::WriteFailed(text)).failure
            == Some(ErrorView::EntryWrite(text)),
        schedule.after_event(EventView::WriteFailed(text)).after_steps(steps).action()
            matches ActionView::Finish(Err(_)),
{
    lemma_first_failure_stands(schedule.after_event(EventView::WriteFailed(text)), steps);
}

/// A directory that could not be created fails the run before any write: no
/// write was handed out, and none will be.
pub proof fn lemma_failed_directory_stops_all_writes(total: nat, text: Seq<char>, steps: Seq<Step>)
    ensures
        ({
            let failed = ScheduleView::initial(total).after_action().after_event(
                EventView::DirectoryFailed(text),
            );
            &&& ScheduleView::initial(total).action() == ActionView::CreateDirectory
            &&& failed.after_steps(steps).started == 0
            &&& failed.after_steps(steps).action() == ActionView::Finish(
                Err(ErrorView::DirectorySetup(text)),
            )
        }),
{
    let failed = ScheduleView::initial(total).after_action().after_event(
        EventView::DirectoryFailed(text),
    );
    lemma_first_failure_stands(failed, steps);
}

/// The run ends well only when the directory is there and every write of the
/// plan has been started and reported as over, with no failure among them.
pub proof fn lemma_success_means_all_written(schedule: ScheduleView)
    requires
        schedule.wf(),
        schedule.action() == ActionView::Finish(Ok(())),
    ensures
        schedule.failure is None,
        schedule.directory_ready,
        schedule.started == schedule.total,
        schedule.settled == schedule.total,
{
}

/// Decides, step by step, what a run of writes does next.
#[derive(Debug)]
pub struct WriteSchedule {
    total: usize,
    directory_ready: bool,
    started: usize,
    settled: usize,
    failure: Option<Error>,
}

impl View for WriteSchedule {
    type V = ScheduleView;

    closed spec fn view(&self) -> ScheduleView {
        ScheduleView {
            total: self.total as nat,
            directory_ready: self.directory_ready,
            started: self.started as nat,
            settled: self.settled as nat,
            failure: match self.failure {
                Some(error) => Some(error@),
                None => None,
            },
        }
    }
}

impl WriteSchedule {
    #[verifier::type_invariant]
    spec fn well_formed(&self) -> bool {
        self@.wf()
    }

    /// The schedule for a plan of `total` writes.
    pub fn new(total: usize) -> (schedule: WriteSchedule)
        ensures
            schedule@ == ScheduleView::initial(total as nat),
            schedule@.wf(),
    {
        WriteSchedule { total, directory_ready: false, started: 0, settled: 0, failure: None }
    }

    /// Hands out the action that is due.
    ///
    /// A write that is handed out counts as running from then on. Its index
    /// lies within the plan, and it is handed out only while fewer than
    /// [`MAX_IN_FLIGHT`] writes are running.
    pub fn next_action(&mut self) -> (action: Action)
        ensures
            action@ == old(self)@.action(),
            final(self)@ == old(self)@.after_action(),
            old(self)@.wf(),
            final(self)@.wf(),
            action matches Action::Write(index) ==> index < final(self)@.total && old(
                self,
            )@.in_flight() < MAX_IN_FLIGHT,
    {
        proof {
            use_type_invariant(&*self);
        }
        match &self.failure {
            Some(error) => {
                return Action::Finish(Err(error.duplicate()));
            },
            None => {},
        }
        if !self.directory_ready {
            Action::CreateDirectory
        } else if self.started < self.total && self.started - self.settled < MAX_IN_FLIGHT {
            let index = self.started;
            self.started = index + 1;
            Action::Write(index)
        } else if self.started > self.settled {
            Action::Wait
        } else {
            Action::Finish(Ok(()))
        }
    }

    /// Takes the report of something that happened.
    ///
    /// The first failure that is reported is kept and ends the run; later
    /// ones do not replace it.
    pub fn report(&mut self, event: Event)
        ensures
            final(self)@ == old(self)@.after_event(event@),
            old(self)@.wf(),
            final(self)@.wf(),
    {
        proof {
            use_type_invariant(&*self);
        }
        match event {
            Event::DirectoryCreated => {
                self.directory_ready = true;
            },
            Event::DirectoryFailed(text) => {
                if self.failure.is_none() {
                    self.failure = Some(Error::DirectorySetup(text));
                }
            },
            Event::WriteSucceeded => {
                if self.started > self.settled {
                    self.settled = self.settled + 1;
                }
            },
            Event::WriteFailed(text) => {
                if self.started > self.settled {
                    self.settled = self.settled + 1;
                }
                if self.failure.is_none() {
                    self.failure = Some(Error::EntryWrite(text));
                }
            },
        }
    }
}

/// A change set made ready for writing.
#[derive(Debug)]
pub struct WriteJob {
    /// The files to write, in the order in which they are handed out.
    pub writes: Vec<FileWrite>,
    /// The schedule of a run over `writes`, not yet begun.
    pub schedule: WriteSchedule,
}

/// Prepares the writing of a change set into an output directory.
///
/// The job holds one write for each entry whose path has a file name, under
/// that name alone, and a fresh schedule over those writes. The caller runs
/// it: it asks the schedule for the next action, carries it out in the output
/// directory, reports what happened, and goes on until the schedule finishes.
pub fn write_changes_to_dir(changes: &[(String, String)]) -> (job: WriteJob)
    ensures
        job.writes.deep_view() == planned_writes(changes.deep_view()),
        job.schedule@ == ScheduleView::initial(job.writes.len() as nat),
        job.schedule@.wf(),
{
    let writes = plan_writes(changes);
    let schedule = WriteSchedule::new(writes.len());
    WriteJob { writes, schedule }
}

} // verus!
