//! Report jobs and the course that one job takes on its worker: build the
//! report, save it, and tell the user once how it ended.
//!
//! Jobs do not know of each other. The library sets no limit on how many are
//! under way at a time; each carries its own destination.

use crate::extension_set::ExtensionSet;
use crate::order::ascending;
use std::path::PathBuf;
use vstd::prelude::*;

verus! {

/// What a `ReportJob` holds, as plain values.
pub struct ReportJobView {
    pub root: PathBuf,
    pub extensions: Seq<Seq<char>>,
    pub destination: PathBuf,
}

/// A request to build the report on the files under `root` that have one of
/// `extensions`, and to save it at `destination`. It does not change once made.
#[derive(Debug, PartialEq, Eq)]
pub struct ReportJob {
    root: PathBuf,
    extensions: ExtensionSet,
    destination: PathBuf,
}

impl View for ReportJob {
    type V = ReportJobView;

    closed spec fn view(&self) -> ReportJobView {
        ReportJobView {
            root: self.root,
            extensions: self.extensions@,
            destination: self.destination,
        }
    }
}

impl ReportJob {
    /// A job of these three parts.
    pub fn new(root: PathBuf, extensions: ExtensionSet, destination: PathBuf) -> (job: Self)
        ensures
            job@ == (ReportJobView { root, extensions: extensions@, destination }),
    {
        ReportJob { root, extensions, destination }
    }

    /// The directory that the report covers.
    pub fn root(&self) -> (r: &PathBuf)
        ensures
            *r == self@.root,
    {
        &self.root
    }

    /// The extensions of the files that the report covers, ascending.
    pub fn extensions(&self) -> (r: &Vec<String>)
        ensures
            r.deep_view() == self@.extensions,
            ascending(self@.extensions),
    {
        self.extensions.items()
    }

    /// Where the report is saved.
    pub fn destination(&self) -> (r: &PathBuf)
        ensures
            *r == self@.destination,
    {
        &self.destination
    }
}

/// The report could not be put together.
#[derive(Debug, PartialEq, Eq)]
pub struct BuilderError {
    pub reason: String,
}

/// The report could not be written to its destination.
#[derive(Debug, PartialEq, Eq)]
pub struct SaveError {
    pub reason: String,
}

/// How a job ended. The user is told of it once.
#[derive(Debug, PartialEq, Eq)]
pub enum JobOutcome {
    /// The report stands at its destination.
    Success,
    /// Building or saving failed, for the reason given.
    Failure(String),
}

/// How far a job has come.
#[derive(Debug, Clone, Copy, PartialEq, Eq)]
pub enum JobPhase {
    /// Handed to the dispatcher; no worker has taken it up.
    Queued,
    /// The worker is building the report.
    Building,
    /// The report is built; the worker is saving it.
    Saving,
    /// The job has ended and the user has been told.
    Finished,
}

/// What the worker reports of a job.
#[derive(Debug, PartialEq, Eq)]
pub enum JobEvent {
    /// A worker took the job up.
    Started,
    /// The report builder returned.
    Built(Result<(), BuilderError>),
    /// Saving the report returned.
    Saved(Result<(), SaveError>),
}

/// What the worker is to do next.
#[derive(Debug, PartialEq, Eq)]
pub enum JobStep {
    /// Build the report from the job's root and extensions.
    Build,
    /// Save the report at the job's destination.
    Save,
    /// Tell the user how the job ended. Nothing follows.
    Notify(JobOutcome),
    /// Nothing: the event does not belong to the phase that the job is in.
    Wait,
}

/// The phase that follows `phase` on `event`, and what the worker is to do
/// then. An event that does not belong to the phase changes nothing.
pub open spec fn next_step(phase: JobPhase, event: JobEvent) -> (JobPhase, JobStep) {
    match (phase, event) {
        (JobPhase::Queued, JobEvent::Started) => (JobPhase::Building, JobStep::Build),
        (JobPhase::Building, JobEvent::Built(Ok(_))) => (JobPhase::Saving, JobStep::Save),
        (JobPhase::Building, JobEvent::Built(Err(e))) => (
            JobPhase::Finished,
            JobStep::Notify(JobOutcome::Failure(e.reason)),
        ),
        (JobPhase::Saving, JobEvent::Saved(Ok(_))) => (
            JobPhase::Finished,
            JobStep::Notify(JobOutcome::Success),
        ),
        (JobPhase::Saving, JobEvent::Saved(Err(e))) => (
            JobPhase::Finished,
            JobStep::Notify(JobOutcome::Failure(e.reason)),
        ),
        _ => (phase, JobStep::Wait),
    }
}

/// The phase that a job is in after `events`, one after the other, from `phase`.
pub open spec fn phase_after(phase: JobPhase, events: Seq<JobEvent>) -> JobPhase
    decreases events.len(),
{
    if events.len() == 0 {
        phase
    } else {
        phase_after(next_step(phase, events[0]).0, events.drop_first())
    }
}

/// How many times the user is told over `events`, one after the other, from
/// `phase`.
pub open spec fn notifications(phase: JobPhase, events: Seq<JobEvent>) -> nat
    decreases events.len(),
{
    if events.len() == 0 {
        0
    } else {
        let (next, step) = next_step(phase, events[0]);
        let told: nat = if step is Notify {
            1
        } else {
            0
        };
        told + notifications(next, events.drop_first())
    }
}

/// A finished job stays finished, and nothing more is asked of the worker.
pub proof fn lemma_finished_stays(event: JobEvent)
    ensures
        next_step(JobPhase::Finished, event) == (JobPhase::Finished, JobStep::Wait),
{
}

/// The user is told when a job finishes, and at no other time.
pub proof fn lemma_told_on_finish(phase: JobPhase, event: JobEvent)
    ensures
        next_step(phase, event).1 is Notify <==> (!(phase is Finished) && next_step(
            phase,
            event,
        ).0 is Finished),
{
}

/// Whatever the worker reports and in whatever order, the user is told once of
/// a job that finishes, and not at all of one that does not or that had
/// finished before.
pub proof fn lemma_told_once(phase: JobPhase, events: Seq<JobEvent>)
    ensures
        notifications(phase, events) == if !(phase is Finished) && phase_after(
            phase,
            events,
        ) is Finished {
            1nat
        } else {
            0nat
        },
        phase is Finished ==> phase_after(phase, events) is Finished,
    decreases events.len(),
{
    if events.len() > 0 {
        lemma_told_on_finish(phase, events[0]);
        lemma_told_once(next_step(phase, events[0]).0, events.drop_first());
    }
}

/// A job that a worker takes up, builds and, where the build succeeded, saves
/// is finished, and the user has been told once, whatever the builder and the
/// save returned.
pub proof fn lemma_worked_job_is_told_once(
    built: Result<(), BuilderError>,
    saved: Result<(), SaveError>,
)
    ensures
        phase_after(
            JobPhase::Queued,
            seq![JobEvent::Started, JobEvent::Built(built), JobEvent::Saved(saved)],
        ) is Finished,
        notifications(
            JobPhase::Queued,
            seq![JobEvent::Started, JobEvent::Built(built), JobEvent::Saved(saved)],
        ) == 1,
        built is Err ==> phase_after(
            JobPhase::Queued,
            seq![JobEvent::Started, JobEvent::Built(built)],
        ) is Finished,
{
    let all = seq![JobEvent::Started, JobEvent::Built(built), JobEvent::Saved(saved)];
    let short = seq![JobEvent::Started, JobEvent::Built(built)];
    assert(all.drop_first() =~= seq![JobEvent::Built(built), JobEvent::Saved(saved)]);
    assert(all.drop_first().drop_first() =~= seq![JobEvent::Saved(saved)]);
    assert(all.drop_first().drop_first().drop_first() =~= Seq::<JobEvent>::empty());
    assert(short.drop_first() =~= seq![JobEvent::Built(built)]);
    assert(short.drop_first().drop_first() =~= Seq::<JobEvent>::empty());
    reveal_with_fuel(phase_after, 4);
    lemma_told_once(JobPhase::Queued, all);
}

/// A job on its way through the dispatcher.
#[derive(Debug)]
pub struct JobRun {
    job: ReportJob,
    phase: JobPhase,
}

/// Takes a job in. It waits for a worker.
pub fn dispatch(job: ReportJob) -> (run: JobRun)
    ensures
        run.job() == job,
        run.phase() is Queued,
{
    JobRun { job, phase: JobPhase::Queued }
}

impl JobRun {
    /// The job that is run.
    pub closed spec fn job(&self) -> ReportJob {
        self.job
    }

    /// How far the job has come.
    pub closed spec fn phase(&self) -> JobPhase {
        self.phase
    }

    /// The job that is run.
    pub fn request(&self) -> (r: &ReportJob)
        ensures
            *r == self.job(),
    {
        &self.job
    }

    /// How far the job has come.
    pub fn current_phase(&self) -> (r: JobPhase)
        ensures
            r == self.phase(),
    {
        self.phase
    }

    /// Takes what the worker reports and says what it is to do next.
    pub fn advance(&mut self, event: JobEvent) -> (step: JobStep)
        ensures
            (final(self).phase(), step) == next_step(old(self).phase(), event),
            final(self).job() == old(self).job(),
    {
        match (self.phase, event) {
            (JobPhase::Queued, JobEvent::Started) => {
                self.phase = JobPhase::Building;
                JobStep::Build
            },
            (JobPhase::Building, JobEvent::Built(Ok(_))) => {
                self.phase = JobPhase::Saving;
                JobStep::Save
            },
            (JobPhase::Building, JobEvent::Built(Err(e))) => {
                self.phase = JobPhase::Finished;
                JobStep::Notify(JobOutcome::Failure(e.reason))
            },
            (JobPhase::Saving, JobEvent::Saved(Ok(_))) => {
                self.phase = JobPhase::Finished;
                JobStep::Notify(JobOutcome::Success)
            },
            (JobPhase::Saving, JobEvent::Saved(Err(e))) => {
                self.phase = JobPhase::Finished;
                JobStep::Notify(JobOutcome::Failure(e.reason))
            },
            _ => JobStep::Wait,
        }
    }
}

} // verus!
