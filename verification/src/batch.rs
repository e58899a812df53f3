//! Batches of jobs: their states, their order, and how many run at a time.
use vstd::prelude::*;

use crate::clock;
use crate::clock::{elapsed_between, Span, Timestamp, MAX_SPAN};
use crate::config::{BatchConfig, Config};
use crate::ieee::{Double, F64};
use crate::text::same_text;

verus! {

/// The bit pattern of the double 1.
pub const ONE: u64 = 0x3ff0_0000_0000_0000;

/// How urgent a job is.
#[derive(Debug, Clone, Copy, PartialEq, Eq, PartialOrd, Ord, Structural)]
pub enum Priority {
    /// First.
    High,
    /// In between.
    Normal,
    /// Last.
    Low,
}

impl Default for Priority {
    fn default() -> (r: Self)
        ensures
            r == Priority::Normal,
    {
        Priority::Normal
    }
}

/// The place of a priority: the smaller comes first.
pub open spec fn rank_of(p: Priority) -> int {
    match p {
        Priority::High => 0,
        Priority::Normal => 1,
        Priority::Low => 2,
    }
}

fn priority_rank(p: Priority) -> (r: u8)
    ensures
        r == rank_of(p),
{
    match p {
        Priority::High => 0,
        Priority::Normal => 1,
        Priority::Low => 2,
    }
}

/// The state of a job.
#[derive(Debug, Clone, Copy, PartialEq, Eq, Structural)]
pub enum JobStatus {
    /// Waiting.
    Queued,
    /// Being worked on.
    Running,
    /// Stopped for a while.
    Paused,
    /// Done.
    Completed,
    /// Given up.
    Failed,
    /// Called off.
    Cancelled,
}

impl Default for JobStatus {
    fn default() -> (r: Self)
        ensures
            r == JobStatus::Queued,
    {
        JobStatus::Queued
    }
}

impl JobStatus {
    /// The job is over.
    pub open spec fn over(self) -> bool {
        self == JobStatus::Completed || self == JobStatus::Failed || self == JobStatus::Cancelled
    }

    /// Whether the job is over.
    pub fn is_terminal(self) -> (r: bool)
        ensures
            r == self.over(),
            r == (self == JobStatus::Completed || self == JobStatus::Failed || self
                == JobStatus::Cancelled),
    {
        matches!(self, JobStatus::Completed | JobStatus::Failed | JobStatus::Cancelled)
    }

    /// Whether the job has been taken up and is not over.
    pub fn is_active(self) -> (r: bool)
        ensures
            r == (self == JobStatus::Running || self == JobStatus::Paused),
    {
        matches!(self, JobStatus::Running | JobStatus::Paused)
    }
}

/// A video to translate.
#[derive(Debug, Clone)]
pub struct BatchJob {
    /// The identifier.
    pub id: String,
    /// The path of the video.
    pub input_path: String,
    /// The path of the result.
    pub output_path: String,
    /// The settings.
    pub config: Config,
    /// How urgent it is.
    pub priority: Priority,
    /// Its state.
    pub status: JobStatus,
    /// How far it is, from 0 to 1.
    pub progress: F64,
    /// What went wrong.
    pub error: Option<String>,
    /// When it was made.
    pub created_at: Timestamp,
    /// When it was taken up.
    pub started_at: Option<Timestamp>,
    /// When it was over.
    pub completed_at: Option<Timestamp>,
}

/// `p`, but at least 0 and at most 1.
pub open spec fn clamped(p: F64) -> F64 {
    if p.less(F64 { bits: 0 }) {
        F64 { bits: 0 }
    } else if (F64 { bits: ONE }).less(p) {
        F64 { bits: ONE }
    } else {
        p
    }
}

/// The job, taken up at `now`.
pub open spec fn started(job: BatchJob, now: Timestamp) -> BatchJob {
    BatchJob { status: JobStatus::Running, started_at: Some(now), ..job }
}

/// The job, done at `now`.
pub open spec fn completed(job: BatchJob, now: Timestamp) -> BatchJob {
    BatchJob {
        status: JobStatus::Completed,
        progress: F64 { bits: ONE },
        completed_at: Some(now),
        ..job
    }
}

/// The job, given up at `now`.
pub open spec fn failed(job: BatchJob, error: String, now: Timestamp) -> BatchJob {
    BatchJob {
        status: JobStatus::Failed,
        error: Some(error),
        completed_at: Some(now),
        ..job
    }
}

/// The job, called off at `now`.
pub open spec fn cancelled(job: BatchJob, now: Timestamp) -> BatchJob {
    BatchJob { status: JobStatus::Cancelled, completed_at: Some(now), ..job }
}

/// The job once something is done to it that makes `after` of it: a job that is over stays as it is.
pub open spec fn unless_over(job: BatchJob, after: BatchJob) -> BatchJob {
    if job.status.over() {
        job
    } else {
        after
    }
}

/// How long the job has been worked on at `now`, nothing where it has not been taken up.
pub open spec fn time_spent(job: BatchJob, now: Timestamp) -> Option<Span> {
    match job.started_at {
        None => None,
        Some(start) => clock::span_between(
            start,
            match job.completed_at {
                Some(end) => end,
                None => now,
            },
        ),
    }
}

/// The points in time of the job, and `now`, lie in the range of dates.
pub open spec fn dated(job: BatchJob, now: Timestamp) -> bool {
    &&& now.in_range()
    &&& job.started_at matches Some(t) ==> t.in_range()
    &&& job.completed_at matches Some(t) ==> t.in_range()
}

impl BatchJob {
    /// A job made at `now`.
    pub fn new_at(
        id: String,
        input_path: String,
        output_path: String,
        config: Config,
        priority: Priority,
        now: Timestamp,
    ) -> (r: Self)
        ensures
            r == (BatchJob {
                id,
                input_path,
                output_path,
                config,
                priority,
                status: JobStatus::Queued,
                progress: F64 { bits: 0 },
                error: None,
                created_at: now,
                started_at: None,
                completed_at: None,
            }),
    {
        BatchJob {
            id,
            input_path,
            output_path,
            config,
            priority,
            status: JobStatus::Queued,
            progress: F64 { bits: 0 },
            error: None,
            created_at: now,
            started_at: None,
            completed_at: None,
        }
    }

    /// A job made now.
    pub fn new(
        id: String,
        input_path: String,
        output_path: String,
        config: Config,
        priority: Priority,
    ) -> (r: Self)
        ensures
            r.created_at.in_range(),
            r == (BatchJob {
                id,
                input_path,
                output_path,
                config,
                priority,
                status: JobStatus::Queued,
                progress: F64 { bits: 0 },
                error: None,
                created_at: r.created_at,
                started_at: None,
                completed_at: None,
            }),
    {
        BatchJob::new_at(id, input_path, output_path, config, priority, clock::now())
    }

    /// Sets how far the job is.
    pub fn update_progress(&mut self, progress: F64)
        ensures
            *final(self) == (BatchJob { progress: clamped(progress), ..*old(self) }),
            progress.less(F64 { bits: 0 }) ==> final(self).progress.bits == 0,
            (F64 { bits: 0x3ff0_0000_0000_0000 }).less(progress) ==> final(self).progress.bits
                == 0x3ff0_0000_0000_0000,
            !progress.less(F64 { bits: 0 }) && !(F64 { bits: 0x3ff0_0000_0000_0000 }).less(
                progress,
            ) ==> final(self).progress == progress,
    {
        self.progress = if progress.lt(F64::from_bits(0)) {
            F64::from_bits(0)
        } else if F64::from_bits(ONE).lt(progress) {
            F64::from_bits(ONE)
        } else {
            progress
        };
    }

    /// Takes the job up at `now`. A job that is over stays as it is.
    pub fn start_at(&mut self, now: Timestamp)
        ensures
            *final(self) == unless_over(*old(self), started(*old(self), now)),
            !old(self).status.over() ==> *final(self) == (BatchJob {
                status: JobStatus::Running,
                started_at: Some(now),
                ..*old(self)
            }),
    {
        if !self.status.is_terminal() {
            self.status = JobStatus::Running;
            self.started_at = Some(now);
        }
    }

    /// Takes the job up now. A job that is over stays as it is.
    pub fn start(&mut self)
        ensures
            old(self).status.over() ==> *final(self) == *old(self),
            !old(self).status.over() ==> (final(self).started_at matches Some(t) && t.in_range()
                && *final(self) == started(*old(self), t)),
    {
        self.start_at(clock::now());
    }

    /// Marks the job as done at `now`. A job that is over stays as it is.
    pub fn complete_at(&mut self, now: Timestamp)
        ensures
            *final(self) == unless_over(*old(self), completed(*old(self), now)),
            !old(self).status.over() ==> final(self).status == JobStatus::Completed && final(self).progress.bits == 0x3ff0_0000_0000_0000 && *final(self) == (BatchJob {
                status: final(self).status,
                progress: final(self).progress,
                completed_at: Some(now),
                ..*old(self)
            }),
    {
        if !self.status.is_terminal() {
            self.status = JobStatus::Completed;
            self.progress = F64::from_bits(ONE);
            self.completed_at = Some(now);
        }
    }

    /// Marks the job as done now. A job that is over stays as it is.
    pub fn complete(&mut self)
        ensures
            old(self).status.over() ==> *final(self) == *old(self),
            !old(self).status.over() ==> (final(self).completed_at matches Some(t) && t.in_range()
                && *final(self) == completed(*old(self), t)),
    {
        self.complete_at(clock::now());
    }

    /// Marks the job as given up at `now`. A job that is over stays as it is.
    pub fn fail_at(&mut self, error: String, now: Timestamp)
        ensures
            *final(self) == unless_over(*old(self), failed(*old(self), error, now)),
            !old(self).status.over() ==> *final(self) == (BatchJob {
                status: JobStatus::Failed,
                error: Some(error),
                completed_at: Some(now),
                ..*old(self)
            }),
    {
        if !self.status.is_terminal() {
            self.status = JobStatus::Failed;
            self.error = Some(error);
            self.completed_at = Some(now);
        }
    }

    /// Marks the job as given up now. A job that is over stays as it is.
    pub fn fail(&mut self, error: String)
        ensures
            old(self).status.over() ==> *final(self) == *old(self),
            !old(self).status.over() ==> (final(self).completed_at matches Some(t) && t.in_range()
                && *final(self) == failed(*old(self), error, t)),
    {
        self.fail_at(error, clock::now());
    }

    /// Stops the job for a while, where it is being worked on.
    pub fn pause(&mut self)
        ensures
            *final(self) == if old(self).status == JobStatus::Running {
                BatchJob { status: JobStatus::Paused, ..*old(self) }
            } else {
                *old(self)
            },
    {
        if self.status == JobStatus::Running {
            self.status = JobStatus::Paused;
        }
    }

    /// Calls the job off at `now`. A job that is over stays as it is.
    pub fn cancel_at(&mut self, now: Timestamp)
        ensures
            *final(self) == unless_over(*old(self), cancelled(*old(self), now)),
            !old(self).status.over() ==> *final(self) == (BatchJob {
                status: JobStatus::Cancelled,
                completed_at: Some(now),
                ..*old(self)
            }),
    {
        if !self.status.is_terminal() {
            self.status = JobStatus::Cancelled;
            self.completed_at = Some(now);
        }
    }

    /// Calls the job off now. A job that is over stays as it is.
    pub fn cancel(&mut self)
        ensures
            old(self).status.over() ==> *final(self) == *old(self),
            !old(self).status.over() ==> (final(self).completed_at matches Some(t) && t.in_range()
                && *final(self) == cancelled(*old(self), t)),
    {
        self.cancel_at(clock::now());
    }

    /// How long the job has been worked on at `now`.
    pub fn elapsed_at(&self, now: Timestamp) -> (r: Option<Span>)
        requires
            dated(*self, now),
        ensures
            r == time_spent(*self, now),
            self.started_at is None ==> r is None,
            self.started_at matches Some(start) ==> {
                let end = if self.completed_at is Some {
                    self.completed_at->0
                } else {
                    now
                };
                &&& r is Some <==> start.nanos <= end.nanos
                &&& r matches Some(span) ==> start.nanos + span.nanos == end.nanos
            },
    {
        match self.started_at {
            None => None,
            Some(start) => {
                let end = match self.completed_at {
                    Some(end) => end,
                    None => now,
                };
                elapsed_between(start, end)
            },
        }
    }

    /// How long the job has been worked on until now, or until it was over.
    pub fn elapsed(&self) -> (r: Option<Span>)
        requires
            dated(*self, Timestamp { nanos: 0 }),
        ensures
            exists|now: Timestamp|
                now.in_range() && now.nanos >= 0 && r == #[trigger] time_spent(*self, now),
            self.completed_at is Some ==> r == time_spent(*self, Timestamp { nanos: 0 }),
    {
        self.elapsed_at(clock::now())
    }
}

/// How much of the memory is in use.
#[derive(Debug, Clone, Copy, PartialEq, Eq, Structural)]
pub enum MemoryPressure {
    /// It could not be found out.
    Unknown,
    /// More than the threshold.
    High,
    /// Neither.
    Normal,
    /// Less than seven tenths of the threshold.
    Low,
}

impl MemoryPressure {
    /// The pressure where `usage` per cent of the memory are in use, nothing where that could not be
    /// found out, by the threshold and by seven tenths of it.
    pub open spec fn at(usage: Option<F64>, threshold: F64, recovery: F64) -> MemoryPressure {
        match usage {
            None => MemoryPressure::Unknown,
            Some(usage) => if threshold.less(usage) {
                MemoryPressure::High
            } else if usage.less(recovery) {
                MemoryPressure::Low
            } else {
                MemoryPressure::Normal
            },
        }
    }

    /// Judges how much of the memory is in use.
    pub fn judge(usage: Option<F64>, threshold: F64, recovery: F64) -> (r: Self)
        ensures
            r == MemoryPressure::at(usage, threshold, recovery),
            r is Unknown <==> usage is None,
            usage matches Some(u) ==> {
                &&& r is High <==> threshold.less(u)
                &&& r is Low <==> u.less(recovery) && !threshold.less(u)
            },
    {
        match usage {
            None => MemoryPressure::Unknown,
            Some(usage) => if threshold.lt(usage) {
                MemoryPressure::High
            } else if usage.lt(recovery) {
                MemoryPressure::Low
            } else {
                MemoryPressure::Normal
            },
        }
    }
}

/// How many jobs may run, given how many may run at most, how many could until now, and how much
/// memory is in use: half as many, but at least one, under high pressure; one more under low pressure.
pub open spec fn adjusted(initial: usize, current: usize, pressure: MemoryPressure) -> usize {
    match pressure {
        MemoryPressure::High => if current / 2 > 1 {
            current / 2
        } else {
            1
        },
        MemoryPressure::Low => if current < initial {
            (current + 1) as usize
        } else {
            current
        },
        _ => current,
    }
}

/// Limits the number of jobs that run, by the memory in use.
#[derive(Debug, Clone)]
pub struct ResourceMonitor {
    /// The memory use, in per cent, above which fewer jobs run.
    pub memory_threshold: F64,
    /// How many jobs may run at most.
    pub initial_max_concurrent: usize,
    /// How many jobs may run now.
    pub max_concurrent: usize,
}

impl ResourceMonitor {
    /// A monitor with the settings of `config`.
    pub fn new(config: &BatchConfig) -> (r: Self)
        ensures
            r.memory_threshold == config.memory_threshold.value,
            r.initial_max_concurrent == config.max_concurrent,
            r.max_concurrent == config.max_concurrent,
    {
        ResourceMonitor {
            memory_threshold: config.memory_threshold.value,
            initial_max_concurrent: config.max_concurrent,
            max_concurrent: config.max_concurrent,
        }
    }

    /// Adjusts the number of jobs that may run, and returns it.
    pub fn check_and_adjust(&mut self, pressure: MemoryPressure) -> (r: usize)
        ensures
            r == adjusted(
                old(self).initial_max_concurrent,
                old(self).max_concurrent,
                pressure,
            ),
            *final(self) == (ResourceMonitor { max_concurrent: r, ..*old(self) }),
            pressure is High ==> r >= 1 && (r == 1 || 2 * r <= old(self).max_concurrent) && 2 * r + 1
                >= old(self).max_concurrent,
            pressure is Low ==> r == old(self).max_concurrent + (if old(self).max_concurrent
                < old(self).initial_max_concurrent {
                1int
            } else {
                0
            }),
            pressure is Normal || pressure is Unknown ==> r == old(self).max_concurrent,
    {
        match pressure {
            MemoryPressure::High => {
                self.max_concurrent = if self.max_concurrent / 2 > 1 {
                    self.max_concurrent / 2
                } else {
                    1
                };
            },
            MemoryPressure::Low => {
                if self.max_concurrent < self.initial_max_concurrent {
                    self.max_concurrent = self.max_concurrent + 1;
                }
            },
            _ => {},
        }
        self.max_concurrent
    }

    /// How many jobs may run now.
    pub fn current_max_concurrent(&self) -> (r: usize)
        ensures
            r == self.max_concurrent,
    {
        self.max_concurrent
    }

    /// Allows as many jobs as at the start.
    pub fn reset(&mut self)
        ensures
            *final(self) == (ResourceMonitor {
                max_concurrent: old(self).initial_max_concurrent,
                ..*old(self)
            }),
    {
        self.max_concurrent = self.initial_max_concurrent;
    }
}

/// At least one job may run after an adjustment that follows one that allowed a job, and never more
/// than at the start where that many were allowed.
pub proof fn law_adjusted_in_range(initial: usize, current: usize, pressure: MemoryPressure)
    requires
        1 <= current <= initial,
    ensures
        1 <= adjusted(initial, current, pressure) <= initial,
{
}

/// How many of `jobs` are in state `status`.
pub open spec fn count(jobs: Seq<BatchJob>, status: JobStatus) -> nat
    decreases jobs.len(),
{
    if jobs.len() == 0 {
        0
    } else if jobs.last().status == status {
        count(jobs.drop_last(), status) + 1
    } else {
        count(jobs.drop_last(), status)
    }
}

/// The jobs that are counted are those in that state.
pub proof fn law_count_is_number(jobs: Seq<BatchJob>, status: JobStatus)
    ensures
        count(jobs, status) == jobs.filter(|j: BatchJob| j.status == status).len(),
    decreases jobs.len(),
{
    reveal(Seq::filter);
    if jobs.len() > 0 {
        law_count_is_number(jobs.drop_last(), status);
    }
}

proof fn lemma_count_update(jobs: Seq<BatchJob>, i: int, job: BatchJob, status: JobStatus)
    requires
        0 <= i < jobs.len(),
    ensures
        count(jobs.update(i, job), status) == count(jobs, status) - (if jobs[i].status == status {
            1int
        } else {
            0
        }) + (if job.status == status {
            1int
        } else {
            0
        }),
    decreases jobs.len(),
{
    if i == jobs.len() - 1 {
        assert(jobs.update(i, job).drop_last() =~= jobs.drop_last());
    } else {
        lemma_count_update(jobs.drop_last(), i, job, status);
        assert(jobs.update(i, job).drop_last() =~= jobs.drop_last().update(i, job));
    }
}

/// The first job with the identifier `id`.
pub open spec fn find(jobs: Seq<BatchJob>, id: Seq<char>) -> Option<int>
    decreases jobs.len(),
{
    if jobs.len() == 0 {
        None
    } else {
        match find(jobs.drop_last(), id) {
            Some(i) => Some(i),
            None => if jobs.last().id@ == id {
                Some(jobs.len() - 1)
            } else {
                None
            },
        }
    }
}

proof fn lemma_find(jobs: Seq<BatchJob>, id: Seq<char>)
    ensures
        match find(jobs, id) {
            Some(i) => 0 <= i < jobs.len() && jobs[i].id@ == id && forall|j: int|
                0 <= j < i ==> (#[trigger] jobs[j]).id@ != id,
            None => forall|j: int| 0 <= j < jobs.len() ==> (#[trigger] jobs[j]).id@ != id,
        },
    decreases jobs.len(),
{
    if jobs.len() > 0 {
        let rest = jobs.drop_last();
        lemma_find(rest, id);
        assert forall|j: int| 0 <= j < jobs.len() - 1 implies #[trigger] jobs[j] == rest[j] by {}
    }
}

/// Only the first job with the identifier is changed: all others stay as they are and where they are.
pub proof fn law_only_that_job_changes(
    jobs: Seq<BatchJob>,
    id: Seq<char>,
    change: spec_fn(BatchJob) -> BatchJob,
    i: int,
)
    requires
        0 <= i < jobs.len(),
    ensures
        changed(jobs, id, change).len() == jobs.len(),
        jobs[i].id@ != id ==> changed(jobs, id, change)[i] == jobs[i],
        jobs[i].id@ == id && (forall|j: int| 0 <= j < i ==> (#[trigger] jobs[j]).id@ != id)
            ==> changed(jobs, id, change)[i] == change(jobs[i]) && find(jobs, id) == Some(i),
        (exists|j: int| 0 <= j < i && (#[trigger] jobs[j]).id@ == id) ==> changed(jobs, id, change)[i]
            == jobs[i],
        find(jobs, id) is None <==> forall|j: int|
            0 <= j < jobs.len() ==> (#[trigger] jobs[j]).id@ != id,
{
    lemma_find(jobs, id);
}

/// `jobs` with the one that has the identifier `id` replaced by what `change` makes of it.
pub open spec fn changed(
    jobs: Seq<BatchJob>,
    id: Seq<char>,
    change: spec_fn(BatchJob) -> BatchJob,
) -> Seq<BatchJob> {
    match find(jobs, id) {
        Some(i) => jobs.update(i, change(jobs[i])),
        None => jobs,
    }
}

/// The job at `i` is the next one: the first that waits, or the first of the most urgent ones that
/// wait.
pub open spec fn is_next(jobs: Seq<BatchJob>, by_priority: bool, i: int) -> bool {
    &&& 0 <= i < jobs.len()
    &&& jobs[i].status == JobStatus::Queued
    &&& forall|j: int|
        0 <= j < jobs.len() && (#[trigger] jobs[j]).status == JobStatus::Queued && j != i ==> if by_priority {
            rank_of(jobs[i].priority) < rank_of(jobs[j].priority) || (rank_of(jobs[i].priority)
                == rank_of(jobs[j].priority) && i < j)
        } else {
            i < j
        }
}

/// No job waits.
pub open spec fn none_waits(jobs: Seq<BatchJob>) -> bool {
    forall|j: int| 0 <= j < jobs.len() ==> (#[trigger] jobs[j]).status != JobStatus::Queued
}

fn find_next(jobs: &Vec<BatchJob>, by_priority: bool) -> (r: Option<usize>)
    ensures
        match r {
            Some(i) => is_next(jobs@, by_priority, i as int),
            None => none_waits(jobs@),
        },
{
    let mut best: Option<usize> = None;
    let mut i: usize = 0;
    while i < jobs.len()
        invariant
            i <= jobs@.len(),
            match best {
                Some(b) => is_next(jobs@.take(i as int), by_priority, b as int),
                None => none_waits(jobs@.take(i as int)),
            },
        decreases jobs@.len() - i,
    {
        let ghost before = jobs@.take(i as int);
        let ghost after = jobs@.take(i + 1);
        assert(forall|j: int| 0 <= j < i ==> #[trigger] after[j] == before[j]);
        assert(after[i as int] == jobs@[i as int]);
        if jobs[i].status == JobStatus::Queued {
            match best {
                None => {
                    best = Some(i);
                },
                Some(b) => {
                    assert(after[b as int] == before[b as int]);
                    if by_priority && priority_rank(jobs[i].priority) < priority_rank(
                        jobs[b].priority,
                    ) {
                        best = Some(i);
                    }
                },
            }
        } else {
            proof {
                if let Some(b) = best {
                    assert(after[b as int] == before[b as int]);
                }
            }
        }
        i += 1;
    }
    assert(jobs@.take(jobs@.len() as int) == jobs@);
    best
}

/// The total of the spans.
pub open spec fn total(spans: Seq<Span>) -> nat
    decreases spans.len(),
{
    if spans.len() == 0 {
        0
    } else {
        total(spans.drop_last()) + spans.last().nanos as nat
    }
}

/// The time for `pending` jobs, `concurrent` at a time and at least one, at the average of `spans`.
pub open spec fn remaining(spans: Seq<Span>, pending: usize, concurrent: usize) -> nat {
    let average = total(spans) / (spans.len() as u32) as nat;
    let at_a_time = if concurrent < 1 {
        1u32
    } else {
        concurrent as u32
    };
    ((pending as u32) as nat * average) / at_a_time as nat
}

/// The remaining time can be worked out: no number that is divided by has its low 32 bits clear, and
/// no span on the way is too long.
pub open spec fn estimable(spans: Seq<Span>, pending: usize, concurrent: usize) -> bool {
    &&& spans.len() as u32 != 0
    &&& concurrent >= 1 ==> concurrent as u32 != 0
    &&& total(spans) <= MAX_SPAN
    &&& (pending as u32) as nat * (total(spans) / (spans.len() as u32) as nat) <= MAX_SPAN
}

proof fn lemma_total_monotone(spans: Seq<Span>, i: int)
    requires
        0 <= i <= spans.len(),
    ensures
        total(spans.take(i)) <= total(spans),
    decreases spans.len(),
{
    if i == spans.len() {
        assert(spans.take(i) =~= spans);
    } else {
        lemma_total_monotone(spans.drop_last(), i);
        assert(spans.drop_last().take(i) =~= spans.take(i));
    }
}

/// The total of two lists of spans is that of both.
pub proof fn law_total_adds_up(a: Seq<Span>, b: Seq<Span>)
    ensures
        total(a + b) == total(a) + total(b),
        forall|span: Span| total(#[trigger] seq![span]) == span.nanos,
        total(Seq::empty()) == 0,
    decreases b.len(),
{
    assert forall|span: Span| total(#[trigger] seq![span]) == span.nanos by {
        assert(seq![span].drop_last() =~= Seq::empty());
        assert(total(seq![span].drop_last()) == 0);
    }
    if b.len() == 0 {
        assert(a + b =~= a);
    } else {
        law_total_adds_up(a, b.drop_last());
        assert((a + b).drop_last() =~= a + b.drop_last());
    }
}

/// The remaining time is the average time of a job for each of the pending ones, shared among those that
/// run at a time: the average does not exceed the mean, and is less than a nanosecond below it; the same
/// holds of the share.
pub proof fn law_remaining_is_shared(spans: Seq<Span>, pending: usize, concurrent: usize)
    requires
        0 < spans.len() <= u32::MAX,
        pending <= u32::MAX,
        concurrent <= u32::MAX,
    ensures
        ({
            let lanes = if concurrent == 0 {
                1
            } else {
                concurrent as int
            };
            let r = remaining(spans, pending, concurrent);
            exists|average: int|
                {
                    &&& #[trigger] (average * spans.len()) <= total(spans)
                    &&& total(spans) < average * spans.len() + spans.len()
                    &&& r * lanes <= pending * average
                    &&& pending * average < r * lanes + lanes
                }
        }),
{
    let lanes = if concurrent == 0 {
        1int
    } else {
        concurrent as int
    };
    let n = spans.len() as int;
    let sum = total(spans) as int;
    let average = sum / n;
    let work = pending * average;
    let r = remaining(spans, pending, concurrent) as int;
    assert(average * n <= sum && sum < average * n + n) by (nonlinear_arith)
        requires
            n > 0,
            average == sum / n,
    ;
    assert(average >= 0) by (nonlinear_arith)
        requires
            n > 0,
            sum >= 0,
            average == sum / n,
    ;
    assert(r == work / lanes);
    assert(r * lanes <= work && work < r * lanes + lanes) by (nonlinear_arith)
        requires
            lanes > 0,
            r == work / lanes,
    ;
    assert((average * spans.len()) == average * n);
}

/// The time that `pending_count` jobs will take, `concurrent` at a time, judging by the jobs that are
/// done; nothing where none is.
pub fn estimate_remaining_time(
    completed_durations: &Vec<Span>,
    pending_count: usize,
    concurrent: usize,
) -> (r: Option<Span>)
    requires
        completed_durations@.len() > 0 ==> estimable(
            completed_durations@,
            pending_count,
            concurrent,
        ),
    ensures
        match r {
            Some(span) => completed_durations@.len() > 0 && span.nanos == remaining(
                completed_durations@,
                pending_count,
                concurrent,
            ),
            None => completed_durations@.len() == 0,
        },
{
    if completed_durations.is_empty() {
        return None;
    }
    let ghost spans = completed_durations@;
    let mut sum: u128 = 0;
    let mut i: usize = 0;
    while i < completed_durations.len()
        invariant
            i <= spans.len(),
            spans == completed_durations@,
            total(spans) <= MAX_SPAN,
            sum == total(spans.take(i as int)),
        decreases spans.len() - i,
    {
        proof {
            lemma_total_monotone(spans, i + 1);
            assert(spans.take(i + 1).drop_last() == spans.take(i as int));
        }
        sum = sum + completed_durations[i].nanos;
        i += 1;
    }
    assert(spans.take(spans.len() as int) == spans);
    #[verifier::truncate]
    let done: u32 = completed_durations.len() as u32;
    let average: u128 = sum / done as u128;
    #[verifier::truncate]
    let jobs: u32 = pending_count as u32;
    assert(jobs as nat * average as nat == jobs * average) by (nonlinear_arith);
    let all: u128 = jobs as u128 * average;
    #[verifier::truncate]
    let wanted: u32 = concurrent as u32;
    let at_a_time: u32 = if concurrent < 1 {
        1
    } else {
        wanted
    };
    Some(Span { nanos: all / at_a_time as u128 })
}

/// A queue of jobs.
#[derive(Debug)]
pub struct BatchQueue {
    /// The jobs, in the order in which they were added.
    pub jobs: Vec<BatchJob>,
    /// The settings.
    pub config: BatchConfig,
    /// The limit on the jobs that run.
    pub resource_monitor: ResourceMonitor,
    /// Whether no more jobs are taken up.
    pub paused: bool,
    /// How long the jobs that are done took.
    pub completed_durations: Vec<Span>,
}

/// The points in time of all jobs lie in the range of dates.
pub open spec fn all_dated(jobs: Seq<BatchJob>) -> bool {
    forall|i: int| 0 <= i < jobs.len() ==> dated(#[trigger] jobs[i], Timestamp { nanos: 0 })
}

/// What taking up the next job at `now` under `pressure` makes of a queue: nothing is taken up where
/// the queue is paused, where as many jobs run as may, or where none waits; else the job at `r` is.
pub open spec fn taken_up(
    before: BatchQueue,
    after: BatchQueue,
    pressure: MemoryPressure,
    now: Timestamp,
    r: Option<usize>,
) -> bool {
    let limit = adjusted(
        before.resource_monitor.initial_max_concurrent,
        before.resource_monitor.max_concurrent,
        pressure,
    );
    &&& after.config == before.config
    &&& after.paused == before.paused
    &&& after.completed_durations == before.completed_durations
    &&& after.resource_monitor == if before.paused {
        before.resource_monitor
    } else {
        ResourceMonitor { max_concurrent: limit, ..before.resource_monitor }
    }
    &&& match r {
        Some(i) => {
            &&& !before.paused
            &&& count(before.jobs@, JobStatus::Running) < limit
            &&& is_next(before.jobs@, before.config.enable_priority, i as int)
            &&& after.jobs@ == before.jobs@.update(i as int, started(before.jobs@[i as int], now))
        },
        None => {
            &&& before.paused || count(before.jobs@, JobStatus::Running) >= limit || none_waits(
                before.jobs@,
            )
            &&& after.jobs@ == before.jobs@
        },
    }
}

/// What marking a job as done at `now` makes of a queue, with the time it took as of `checked`. A job
/// that is over stays as it is, and its time is not counted again.
pub open spec fn job_completed(
    before: BatchQueue,
    after: BatchQueue,
    id: Seq<char>,
    checked: Timestamp,
    now: Timestamp,
) -> bool {
    &&& after.jobs@ == changed(
        before.jobs@,
        id,
        |j: BatchJob| unless_over(j, completed(j, now)),
    )
    &&& after.completed_durations@ == match find(before.jobs@, id) {
        Some(i) => if before.jobs@[i].status.over() {
            before.completed_durations@
        } else {
            match time_spent(before.jobs@[i], checked) {
                Some(span) => before.completed_durations@.push(span),
                None => before.completed_durations@,
            }
        },
        None => before.completed_durations@,
    }
    &&& after.config == before.config
    &&& after.resource_monitor == before.resource_monitor
    &&& after.paused == before.paused
}

/// Jobs never run over the limit: after a job is taken up, no more jobs run than may, and one more
/// than before; nothing else changes its state.
pub proof fn law_limit_kept(
    before: BatchQueue,
    after: BatchQueue,
    pressure: MemoryPressure,
    now: Timestamp,
    i: usize,
)
    requires
        taken_up(before, after, pressure, now, Some(i)),
    ensures
        count(after.jobs@, JobStatus::Running) == count(before.jobs@, JobStatus::Running) + 1,
        count(after.jobs@, JobStatus::Running) <= after.resource_monitor.max_concurrent,
        count(after.jobs@, JobStatus::Queued) + 1 == count(before.jobs@, JobStatus::Queued),
        forall|j: int|
            0 <= j < before.jobs@.len() && j != i ==> #[trigger] after.jobs@[j] == before.jobs@[j],
{
    let job = started(before.jobs@[i as int], now);
    lemma_count_update(before.jobs@, i as int, job, JobStatus::Running);
    lemma_count_update(before.jobs@, i as int, job, JobStatus::Queued);
}

/// A paused queue takes up nothing, and a queue that is not takes up a job whenever one waits and fewer
/// run than may.
pub proof fn law_taken_up_when(
    before: BatchQueue,
    after: BatchQueue,
    pressure: MemoryPressure,
    now: Timestamp,
    r: Option<usize>,
)
    requires
        taken_up(before, after, pressure, now, r),
    ensures
        r is Some <==> !before.paused && count(before.jobs@, JobStatus::Running) < adjusted(
            before.resource_monitor.initial_max_concurrent,
            before.resource_monitor.max_concurrent,
            pressure,
        ) && !none_waits(before.jobs@),
{
}

/// What is over stays as it is, whatever is done to whichever job, and when all jobs wait again or are
/// called off.
pub proof fn law_over_stays(
    jobs: Seq<BatchJob>,
    id: Seq<char>,
    change: spec_fn(BatchJob) -> BatchJob,
    i: int,
)
    requires
        0 <= i < jobs.len(),
        jobs[i].status.over(),
    ensures
        changed(jobs, id, |j: BatchJob| unless_over(j, change(j)))[i] == jobs[i],
        resumed(jobs[i]) == jobs[i],
        forall|after: Seq<BatchJob>, now: Timestamp| #[trigger]
            all_cancelled(jobs, after, now) ==> after[i] == jobs[i],
{
    lemma_find(jobs, id);
}

/// What is over is never taken up again.
pub proof fn law_over_is_not_taken_up(
    before: BatchQueue,
    after: BatchQueue,
    pressure: MemoryPressure,
    now: Timestamp,
    r: Option<usize>,
    i: int,
)
    requires
        taken_up(before, after, pressure, now, r),
        0 <= i < before.jobs@.len(),
        before.jobs@[i].status.over(),
    ensures
        after.jobs@[i] == before.jobs@[i],
{
}

/// A job that is resumed waits again where it was stopped for a while, and is else as it was.
pub proof fn law_resumed_waits(job: BatchJob)
    ensures
        resumed(job).status != JobStatus::Paused,
        job.status == JobStatus::Paused ==> resumed(job).status == JobStatus::Queued,
        job.status != JobStatus::Paused ==> resumed(job) == job,
        resumed(job) == (BatchJob { status: resumed(job).status, ..job }),
{
}

/// Work goes on after a queue is resumed: where a job was stopped for a while and fewer jobs run than
/// may, the next request takes a job up.
pub proof fn law_resumed_work_goes_on(
    stopped: BatchQueue,
    resumed_queue: BatchQueue,
    after: BatchQueue,
    pressure: MemoryPressure,
    now: Timestamp,
    r: Option<usize>,
    i: int,
)
    requires
        0 <= i < stopped.jobs@.len() == resumed_queue.jobs@.len(),
        stopped.jobs@[i].status == JobStatus::Paused,
        forall|k: int|
            0 <= k < stopped.jobs@.len() ==> #[trigger] resumed_queue.jobs@[k] == resumed(
                stopped.jobs@[k],
            ),
        !resumed_queue.paused,
        taken_up(resumed_queue, after, pressure, now, r),
        resumed_queue.jobs@.filter(|j: BatchJob| j.status == JobStatus::Running).len() < adjusted(
            resumed_queue.resource_monitor.initial_max_concurrent,
            resumed_queue.resource_monitor.max_concurrent,
            pressure,
        ),
    ensures
        r is Some,
        resumed_queue.jobs@[r->0 as int].status == JobStatus::Queued,
        after.jobs@[r->0 as int].status == JobStatus::Running,
{
    law_count_is_number(resumed_queue.jobs@, JobStatus::Running);
    assert(resumed_queue.jobs@[i].status == JobStatus::Queued);
}

impl BatchQueue {
    /// All but the jobs is as in `other`.
    pub open spec fn same_but_jobs(&self, other: BatchQueue) -> bool {
        &&& self.config == other.config
        &&& self.resource_monitor == other.resource_monitor
        &&& self.paused == other.paused
        &&& self.completed_durations == other.completed_durations
    }

    /// A queue without jobs.
    pub fn with_config(config: BatchConfig) -> (r: Self)
        ensures
            r.jobs@.len() == 0,
            r.config == config,
            r.resource_monitor.memory_threshold == config.memory_threshold.value,
            r.resource_monitor.initial_max_concurrent == config.max_concurrent,
            r.resource_monitor.max_concurrent == config.max_concurrent,
            !r.paused,
            r.completed_durations@.len() == 0,
    {
        let resource_monitor = ResourceMonitor::new(&config);
        BatchQueue {
            jobs: Vec::new(),
            config,
            resource_monitor,
            paused: false,
            completed_durations: Vec::new(),
        }
    }

    /// A queue without jobs, with the settings for batches of `config`.
    pub fn new(config: &Config) -> (r: Self)
        ensures
            r.jobs@.len() == 0,
            r.config.max_concurrent == config.batch.max_concurrent,
            r.config.memory_threshold.value == config.batch.memory_threshold.value,
            r.config.memory_threshold.text@ == config.batch.memory_threshold.text@,
            r.config.enable_priority == config.batch.enable_priority,
            r.resource_monitor.memory_threshold == config.batch.memory_threshold.value,
            r.resource_monitor.initial_max_concurrent == config.batch.max_concurrent,
            r.resource_monitor.max_concurrent == config.batch.max_concurrent,
            !r.paused,
            r.completed_durations@.len() == 0,
    {
        let memory_threshold = Double {
            value: config.batch.memory_threshold.value,
            text: config.batch.memory_threshold.text.clone(),
        };
        BatchQueue::with_config(
            BatchConfig {
                max_concurrent: config.batch.max_concurrent,
                memory_threshold,
                enable_priority: config.batch.enable_priority,
            },
        )
    }

    /// Adds a job, which then waits.
    pub fn add_job(&mut self, job: BatchJob)
        ensures
            final(self).jobs@ == old(self).jobs@.push(
                (BatchJob { status: JobStatus::Queued, ..job }),
            ),
            final(self).same_but_jobs(*old(self)),
    {
        let mut job = job;
        job.status = JobStatus::Queued;
        self.jobs.push(job);
    }

    fn count_status(&self, status: JobStatus) -> (r: usize)
        ensures
            r == count(self.jobs@, status),
    {
        let mut n: usize = 0;
        let mut i: usize = 0;
        while i < self.jobs.len()
            invariant
                i <= self.jobs@.len(),
                n <= i,
                n == count(self.jobs@.take(i as int), status),
            decreases self.jobs@.len() - i,
        {
            assert(self.jobs@.take(i + 1).drop_last() == self.jobs@.take(i as int));
            if self.jobs[i].status == status {
                n += 1;
            }
            i += 1;
        }
        assert(self.jobs@.take(self.jobs@.len() as int) == self.jobs@);
        n
    }

    fn position(&self, job_id: &str) -> (r: Option<usize>)
        ensures
            match r {
                Some(i) => find(self.jobs@, job_id@) == Some(i as int) && i < self.jobs@.len(),
                None => find(self.jobs@, job_id@) is None,
            },
    {
        proof {
            lemma_find(self.jobs@, job_id@);
        }
        let mut i: usize = 0;
        while i < self.jobs.len()
            invariant
                i <= self.jobs@.len(),
                forall|j: int| 0 <= j < i ==> (#[trigger] self.jobs@[j]).id@ != job_id@,
                match find(self.jobs@, job_id@) {
                    Some(k) => i <= k < self.jobs@.len() && self.jobs@[k].id@ == job_id@ && forall|
                        j: int,
                    |
                        0 <= j < k ==> (#[trigger] self.jobs@[j]).id@ != job_id@,
                    None => forall|j: int|
                        0 <= j < self.jobs@.len() ==> (#[trigger] self.jobs@[j]).id@ != job_id@,
                },
            decreases self.jobs@.len() - i,
        {
            if same_text(self.jobs[i].id.as_str(), job_id) {
                return Some(i);
            }
            i += 1;
        }
        None
    }

    /// Takes up the next job at `now`: nothing where the queue is paused, where as many jobs run as
    /// may under `pressure`, or where none waits. The result is the place of the job.
    pub fn next_job_at(&mut self, pressure: MemoryPressure, now: Timestamp) -> (r: Option<usize>)
        ensures
            taken_up(*old(self), *final(self), pressure, now, r),
            old(self).paused ==> r is None,
            r matches Some(i) ==> {
                let jobs = old(self).jobs@;
                &&& i < jobs.len()
                &&& jobs[i as int].status == JobStatus::Queued
                &&& final(self).jobs@ == jobs.update(
                    i as int,
                    (BatchJob {
                        status: JobStatus::Running,
                        started_at: Some(now),
                        ..jobs[i as int]
                    }),
                )
                &&& forall|j: int|
                    0 <= j < jobs.len() && (#[trigger] jobs[j]).status == JobStatus::Queued ==> {
                        &&& !old(self).config.enable_priority ==> i <= j
                        &&& old(self).config.enable_priority && jobs[j].priority
                            == jobs[i as int].priority ==> i <= j
                        &&& old(self).config.enable_priority && jobs[i as int].priority
                            == Priority::Normal ==> jobs[j].priority != Priority::High
                        &&& old(self).config.enable_priority && jobs[i as int].priority
                            == Priority::Low ==> jobs[j].priority == Priority::Low
                    }
            },
            r is None ==> final(self).jobs@ == old(self).jobs@,
            final(self).config == old(self).config,
            final(self).paused == old(self).paused,
            final(self).completed_durations == old(self).completed_durations,
            old(self).paused ==> final(self).resource_monitor == old(self).resource_monitor,
            final(self).resource_monitor.memory_threshold
                == old(self).resource_monitor.memory_threshold,
            final(self).resource_monitor.initial_max_concurrent
                == old(self).resource_monitor.initial_max_concurrent,
            !old(self).paused ==> final(self).resource_monitor.max_concurrent == adjusted(
                old(self).resource_monitor.initial_max_concurrent,
                old(self).resource_monitor.max_concurrent,
                pressure,
            ),
            !old(self).paused ==> (r is Some <==> old(self).jobs@.filter(
                |j: BatchJob| j.status == JobStatus::Running,
            ).len() < final(self).resource_monitor.max_concurrent && exists|j: int|
                0 <= j < old(self).jobs@.len() && (#[trigger] old(self).jobs@[j]).status
                    == JobStatus::Queued),
    {
        proof {
            law_count_is_number(self.jobs@, JobStatus::Running);
        }
        if self.paused {
            return None;
        }
        let max_concurrent = self.resource_monitor.check_and_adjust(pressure);
        if self.count_status(JobStatus::Running) >= max_concurrent {
            return None;
        }
        match find_next(&self.jobs, self.config.enable_priority) {
            None => None,
            Some(i) => {
                self.jobs[i].start_at(now);
                Some(i)
            },
        }
    }

    /// Takes up the next job now. The result is the place of the job.
    pub fn next_job(&mut self, pressure: MemoryPressure) -> (r: Option<usize>)
        ensures
            exists|now: Timestamp|
                now.in_range() && #[trigger] taken_up(
                    *old(self),
                    *final(self),
                    pressure,
                    now,
                    r,
                ),
    {
        let now = clock::now();
        self.next_job_at(pressure, now)
    }

    /// Sets how far a job is.
    pub fn update_progress(&mut self, job_id: &str, progress: F64)
        ensures
            final(self).jobs@ == changed(
                old(self).jobs@,
                job_id@,
                |j: BatchJob| BatchJob { progress: clamped(progress), ..j },
            ),
            final(self).same_but_jobs(*old(self)),
    {
        match self.position(job_id) {
            Some(i) => {
                self.jobs[i].update_progress(progress);
            },
            None => {},
        }
    }

    /// Marks a job as done at `now`, and remembers how long it took; `checked` is when that was found
    /// out. A job that is over stays as it is.
    pub fn complete_job_at(&mut self, job_id: &str, checked: Timestamp, now: Timestamp)
        requires
            all_dated(old(self).jobs@),
            checked.in_range(),
        ensures
            job_completed(*old(self), *final(self), job_id@, checked, now),
            final(self).config == old(self).config,
            final(self).resource_monitor == old(self).resource_monitor,
            final(self).paused == old(self).paused,
            final(self).jobs@.len() == old(self).jobs@.len(),
            find(old(self).jobs@, job_id@) is None ==> final(self).completed_durations@
                == old(self).completed_durations@ && final(self).jobs@ == old(self).jobs@,
            find(old(self).jobs@, job_id@) matches Some(i) ==> {
                let job = old(self).jobs@[i];
                let durations = old(self).completed_durations@;
                let after = final(self).completed_durations@;
                match job.status {
                    JobStatus::Queued | JobStatus::Running | JobStatus::Paused => {
                        &&& final(self).jobs@[i].status == JobStatus::Completed
                        &&& final(self).jobs@[i].completed_at == Some(now)
                        &&& job.started_at is None ==> after == durations
                        &&& job.started_at is Some && job.completed_at is None ==> {
                            let start = job.started_at->0.nanos;
                            &&& start > checked.nanos ==> after == durations
                            &&& start <= checked.nanos ==> after.len() == durations.len() + 1
                                && after.drop_last() == durations && start + after.last().nanos
                                == checked.nanos
                        }
                    },
                    _ => after == durations && final(self).jobs@ == old(self).jobs@,
                }
            },
    {
        match self.position(job_id) {
            Some(i) => {
                if !self.jobs[i].status.is_terminal() {
                    match self.jobs[i].elapsed_at(checked) {
                        Some(span) => {
                            self.completed_durations.push(span);
                        },
                        None => {},
                    }
                    self.jobs[i].complete_at(now);
                } else {
                    assert(self.jobs@.update(i as int, self.jobs@[i as int]) =~= self.jobs@);
                }
            },
            None => {},
        }
    }

    /// Marks a job as done now, and remembers how long it took. A job that is over stays as it is.
    pub fn complete_job(&mut self, job_id: &str)
        requires
            all_dated(old(self).jobs@),
        ensures
            exists|checked: Timestamp, now: Timestamp|
                checked.in_range() && now.in_range() && #[trigger] job_completed(
                    *old(self),
                    *final(self),
                    job_id@,
                    checked,
                    now,
                ),
    {
        let checked = clock::now();
        let now = clock::now();
        self.complete_job_at(job_id, checked, now);
    }

    /// Marks a job as given up at `now`. A job that is over stays as it is.
    pub fn fail_job_at(&mut self, job_id: &str, error: String, now: Timestamp)
        ensures
            final(self).jobs@ == changed(
                old(self).jobs@,
                job_id@,
                |j: BatchJob| unless_over(j, failed(j, error, now)),
            ),
            final(self).same_but_jobs(*old(self)),
    {
        match self.position(job_id) {
            Some(i) => {
                self.jobs[i].fail_at(error, now);
            },
            None => {},
        }
    }

    /// Calls a job off at `now`. A job that is over stays as it is.
    pub fn cancel_job_at(&mut self, job_id: &str, now: Timestamp)
        ensures
            final(self).jobs@ == changed(
                old(self).jobs@,
                job_id@,
                |j: BatchJob| unless_over(j, cancelled(j, now)),
            ),
            final(self).same_but_jobs(*old(self)),
    {
        match self.position(job_id) {
            Some(i) => {
                self.jobs[i].cancel_at(now);
            },
            None => {},
        }
    }

    /// Takes up no more jobs. Jobs that run are not affected.
    pub fn pause(&mut self)
        ensures
            *final(self) == (BatchQueue { paused: true, ..*old(self) }),
    {
        self.paused = true;
    }

    /// Takes up jobs again.
    pub fn start(&mut self)
        ensures
            *final(self) == (BatchQueue { paused: false, ..*old(self) }),
    {
        self.paused = false;
    }

    /// Marks a job as given up now. A job that is over stays as it is.
    pub fn fail_job(&mut self, job_id: &str, error: String)
        ensures
            exists|now: Timestamp| #[trigger]
                now.in_range() && final(self).jobs@ == changed(
                    old(self).jobs@,
                    job_id@,
                    |j: BatchJob| unless_over(j, failed(j, error, now)),
                ),
            final(self).same_but_jobs(*old(self)),
    {
        let now = clock::now();
        self.fail_job_at(job_id, error, now);
    }

    /// Calls a job off now. A job that is over stays as it is.
    pub fn cancel_job(&mut self, job_id: &str)
        ensures
            exists|now: Timestamp| #[trigger]
                now.in_range() && final(self).jobs@ == changed(
                    old(self).jobs@,
                    job_id@,
                    |j: BatchJob| unless_over(j, cancelled(j, now)),
                ),
            final(self).same_but_jobs(*old(self)),
    {
        let now = clock::now();
        self.cancel_job_at(job_id, now);
    }

    /// Takes up jobs again; those that were stopped for a while wait again.
    pub fn resume(&mut self)
        ensures
            !final(self).paused,
            final(self).jobs@.len() == old(self).jobs@.len(),
            forall|i: int|
                0 <= i < old(self).jobs@.len() ==> #[trigger] final(self).jobs@[i] == resumed(
                    old(self).jobs@[i],
                ),
            forall|i: int|
                0 <= i < old(self).jobs@.len() ==> (#[trigger] final(self).jobs@[i]).status == (
                match old(self).jobs@[i].status {
                    JobStatus::Paused => JobStatus::Queued,
                    other => other,
                }),
            forall|i: int|
                0 <= i < old(self).jobs@.len() ==> #[trigger] final(self).jobs@[i] == (BatchJob {
                    status: final(self).jobs@[i].status,
                    ..old(self).jobs@[i]
                }),
            forall|i: int|
                0 <= i < final(self).jobs@.len() ==> (#[trigger] final(self).jobs@[i]).status
                    != JobStatus::Paused,
            final(self).config == old(self).config,
            final(self).resource_monitor == old(self).resource_monitor,
            final(self).completed_durations == old(self).completed_durations,
    {
        self.paused = false;
        let mut i: usize = 0;
        while i < self.jobs.len()
            invariant
                i <= self.jobs@.len() == old(self).jobs@.len(),
                !self.paused,
                self.config == old(self).config,
                self.resource_monitor == old(self).resource_monitor,
                self.completed_durations == old(self).completed_durations,
                forall|j: int|
                    0 <= j < i ==> #[trigger] self.jobs@[j] == resumed(old(self).jobs@[j]),
                forall|j: int|
                    i <= j < self.jobs@.len() ==> #[trigger] self.jobs@[j] == old(self).jobs@[j],
            decreases self.jobs@.len() - i,
        {
            if self.jobs[i].status == JobStatus::Paused {
                self.jobs[i].status = JobStatus::Queued;
            }
            i += 1;
        }
    }

    /// Calls off, at `now`, all jobs that are not over.
    pub fn cancel_all_at(&mut self, now: Timestamp)
        ensures
            all_cancelled(old(self).jobs@, final(self).jobs@, now),
            final(self).jobs@.len() == old(self).jobs@.len(),
            forall|i: int|
                0 <= i < old(self).jobs@.len() ==> #[trigger] final(self).jobs@[i] == (match old(self).jobs@[i].status {
                    JobStatus::Queued | JobStatus::Running | JobStatus::Paused => BatchJob {
                        status: JobStatus::Cancelled,
                        completed_at: Some(now),
                        ..old(self).jobs@[i]
                    },
                    _ => old(self).jobs@[i],
                }),
            final(self).same_but_jobs(*old(self)),
    {
        let mut i: usize = 0;
        while i < self.jobs.len()
            invariant
                i <= self.jobs@.len() == old(self).jobs@.len(),
                self.same_but_jobs(*old(self)),
                forall|j: int|
                    0 <= j < i ==> #[trigger] self.jobs@[j] == if old(self).jobs@[j].status.over() {
                        old(self).jobs@[j]
                    } else {
                        cancelled(old(self).jobs@[j], now)
                    },
                forall|j: int|
                    i <= j < self.jobs@.len() ==> #[trigger] self.jobs@[j] == old(self).jobs@[j],
            decreases self.jobs@.len() - i,
        {
            self.jobs[i].cancel_at(now);
            i += 1;
        }
    }

    /// Calls off all jobs that are not over.
    pub fn cancel_all(&mut self)
        ensures
            exists|now: Timestamp|
                now.in_range() && #[trigger] all_cancelled(
                    old(self).jobs@,
                    final(self).jobs@,
                    now,
                ),
            final(self).same_but_jobs(*old(self)),
    {
        let now = clock::now();
        self.cancel_all_at(now);
    }

    /// The state of a job.
    pub fn get_status(&self, job_id: &str) -> (r: Option<JobStatus>)
        ensures
            r == match find(self.jobs@, job_id@) {
                Some(i) => Some(self.jobs@[i].status),
                None => None,
            },
    {
        match self.position(job_id) {
            Some(i) => Some(self.jobs[i].status),
            None => None,
        }
    }

    /// How far a job is.
    pub fn get_progress(&self, job_id: &str) -> (r: Option<F64>)
        ensures
            r == match find(self.jobs@, job_id@) {
                Some(i) => Some(self.jobs@[i].progress),
                None => None,
            },
    {
        match self.position(job_id) {
            Some(i) => Some(self.jobs[i].progress),
            None => None,
        }
    }

    /// The states of all jobs by their identifiers, each identifier once; of two jobs with one
    /// identifier the later counts.
    pub fn get_all_statuses(&self) -> (r: Vec<(String, JobStatus)>)
        ensures
            status_ids(r@).no_duplicates(),
            forall|id: Seq<char>|
                status_ids(r@).contains(id) <==> #[trigger] states(self.jobs@).contains_key(id),
            forall|k: int|
                0 <= k < r@.len() ==> (#[trigger] r@[k]).1 == states(self.jobs@)[r@[k].0@],
    {
        let mut out: Vec<(String, JobStatus)> = Vec::new();
        let mut i: usize = 0;
        while i < self.jobs.len()
            invariant
                i <= self.jobs@.len(),
                status_ids(out@).no_duplicates(),
                forall|id: Seq<char>|
                    status_ids(out@).contains(id) <==> #[trigger] states(
                        self.jobs@.take(i as int),
                    ).contains_key(id),
                forall|k: int|
                    0 <= k < out@.len() ==> (#[trigger] out@[k]).1 == states(
                        self.jobs@.take(i as int),
                    )[out@[k].0@],
            decreases self.jobs@.len() - i,
        {
            let ghost id = self.jobs@[i as int].id@;
            let ghost known = states(self.jobs@.take(i as int));
            let ghost before = out@;
            assert(self.jobs@.take(i + 1).drop_last() == self.jobs@.take(i as int));
            let mut at: usize = 0;
            while at < out.len() && !same_text(out[at].0.as_str(), self.jobs[i].id.as_str())
                invariant
                    at <= out@.len(),
                    i < self.jobs@.len(),
                    out@ == before,
                    id == self.jobs@[i as int].id@,
                    forall|k: int| 0 <= k < at ==> (#[trigger] out@[k]).0@ != id,
                decreases out@.len() - at,
            {
                at += 1;
            }
            if at < out.len() {
                let entry = (self.jobs[i].id.clone(), self.jobs[i].status);
                out.set(at, entry);
                proof {
                    assert(status_ids(out@) =~= status_ids(before));
                    assert(status_ids(before)[at as int] == id);
                    assert forall|k: int| 0 <= k < out@.len() implies (#[trigger] out@[k]).1
                        == known.insert(id, self.jobs@[i as int].status)[out@[k].0@] by {
                        if k != at {
                            assert(status_ids(before)[k] != status_ids(before)[at as int]);
                            assert(out@[k] == before[k]);
                            assert(status_ids(before)[k] == before[k].0@);
                        }
                    }
                }
            } else {
                out.push((self.jobs[i].id.clone(), self.jobs[i].status));
                proof {
                    let ids = status_ids(before);
                    assert(status_ids(out@) =~= ids.push(id));
                    assert(!ids.contains(id)) by {
                        if ids.contains(id) {
                            let k = choose|k: int| 0 <= k < ids.len() && ids[k] == id;
                            assert(before[k].0@ == id);
                        }
                    }
                    assert forall|other: Seq<char>|
                        ids.push(id).contains(other) <==> (ids.contains(other) || other == id) by {
                        if ids.contains(other) {
                            let k = choose|k: int| 0 <= k < ids.len() && ids[k] == other;
                            assert(ids.push(id)[k] == other);
                        }
                        assert(ids.push(id)[ids.len() as int] == id);
                    }
                    assert forall|k: int| 0 <= k < out@.len() implies (#[trigger] out@[k]).1
                        == known.insert(id, self.jobs@[i as int].status)[out@[k].0@] by {
                        if k < before.len() {
                            assert(out@[k] == before[k]);
                        }
                    }
                }
            }
            proof {
                assert forall|other: Seq<char>|
                    status_ids(out@).contains(other) <==> #[trigger] states(
                        self.jobs@.take(i + 1),
                    ).contains_key(other) by {
                    assert(states(self.jobs@.take(i + 1)) == known.insert(
                        id,
                        self.jobs@[i as int].status,
                    ));
                    assert(status_ids(before).contains(other) <==> known.contains_key(other));
                    if at < before.len() {
                        assert(status_ids(before)[at as int] == id);
                    }
                }
            }
            i += 1;
        }
        assert(self.jobs@.take(self.jobs@.len() as int) == self.jobs@);
        out
    }

    /// How many jobs there are.
    pub fn len(&self) -> (r: usize)
        ensures
            r == self.jobs@.len(),
    {
        self.jobs.len()
    }

    /// Whether there are no jobs.
    pub fn is_empty(&self) -> (r: bool)
        ensures
            r == (self.jobs@.len() == 0),
    {
        self.jobs.is_empty()
    }

    /// How many jobs wait.
    pub fn pending_count(&self) -> (r: usize)
        ensures
            r == count(self.jobs@, JobStatus::Queued),
    {
        self.count_status(JobStatus::Queued)
    }

    /// How many jobs are being worked on.
    pub fn running_count(&self) -> (r: usize)
        ensures
            r == count(self.jobs@, JobStatus::Running),
    {
        self.count_status(JobStatus::Running)
    }

    /// How many jobs are done.
    pub fn completed_count(&self) -> (r: usize)
        ensures
            r == count(self.jobs@, JobStatus::Completed),
    {
        self.count_status(JobStatus::Completed)
    }

    /// How many jobs were given up.
    pub fn failed_count(&self) -> (r: usize)
        ensures
            r == count(self.jobs@, JobStatus::Failed),
    {
        self.count_status(JobStatus::Failed)
    }

    /// How many jobs may run now.
    pub fn current_max_concurrent(&self) -> (r: usize)
        ensures
            r == self.resource_monitor.max_concurrent,
    {
        self.resource_monitor.current_max_concurrent()
    }

    /// The time that the jobs that wait and run will take, judging by those that are done; nothing
    /// where none is.
    pub fn estimate_remaining_time(&self) -> (r: Option<Span>)
        requires
            self.completed_durations@.len() > 0 ==> estimable(
                self.completed_durations@,
                (count(self.jobs@, JobStatus::Queued) + count(
                    self.jobs@,
                    JobStatus::Running,
                )) as usize,
                self.resource_monitor.max_concurrent,
            ),
        ensures
            match r {
                Some(span) => self.completed_durations@.len() > 0 && span.nanos == remaining(
                    self.completed_durations@,
                    (count(self.jobs@, JobStatus::Queued) + count(
                        self.jobs@,
                        JobStatus::Running,
                    )) as usize,
                    self.resource_monitor.max_concurrent,
                ),
                None => self.completed_durations@.len() == 0,
            },
    {
        proof {
            lemma_counts_disjoint(self.jobs@);
            assert(self.jobs.len() <= usize::MAX);
        }
        let unfinished: usize = self.pending_count() + self.running_count();
        estimate_remaining_time(
            &self.completed_durations,
            unfinished,
            self.resource_monitor.max_concurrent,
        )
    }

    /// The jobs.
    pub fn jobs(&self) -> (r: &[BatchJob])
        ensures
            r@ == self.jobs@,
    {
        self.jobs.as_slice()
    }

    /// The jobs, to be changed.
    pub fn jobs_mut(&mut self) -> (r: &mut Vec<BatchJob>)
        ensures
            *r == old(self).jobs,
            *final(self) == (BatchQueue { jobs: *final(r), ..*old(self) }),
    {
        &mut self.jobs
    }
}

/// The job, waiting again where it was stopped for a while.
pub open spec fn resumed(job: BatchJob) -> BatchJob {
    if job.status == JobStatus::Paused {
        BatchJob { status: JobStatus::Queued, ..job }
    } else {
        job
    }
}

/// `after` is `before` with all jobs that were not over called off at `now`.
pub open spec fn all_cancelled(before: Seq<BatchJob>, after: Seq<BatchJob>, now: Timestamp) -> bool {
    &&& after.len() == before.len()
    &&& forall|i: int|
        0 <= i < before.len() ==> #[trigger] after[i] == if before[i].status.over() {
            before[i]
        } else {
            cancelled(before[i], now)
        }
}

/// The states of `jobs` by their identifiers; of two jobs with one identifier the later counts.
pub open spec fn states(jobs: Seq<BatchJob>) -> Map<Seq<char>, JobStatus>
    decreases jobs.len(),
{
    if jobs.len() == 0 {
        Map::empty()
    } else {
        states(jobs.drop_last()).insert(jobs.last().id@, jobs.last().status)
    }
}

/// The state under an identifier is that of the last job with it, and only identifiers of jobs have
/// one.
pub proof fn law_states_of_last(jobs: Seq<BatchJob>, i: int)
    requires
        0 <= i < jobs.len(),
    ensures
        states(jobs).contains_key(jobs[i].id@),
        (forall|j: int| i < j < jobs.len() ==> (#[trigger] jobs[j]).id@ != jobs[i].id@) ==> states(
            jobs,
        )[jobs[i].id@] == jobs[i].status,
        forall|id: Seq<char>| #[trigger]
            states(jobs).contains_key(id) ==> exists|j: int|
                0 <= j < jobs.len() && (#[trigger] jobs[j]).id@ == id,
    decreases jobs.len(),
{
    let rest = jobs.drop_last();
    if i < rest.len() {
        law_states_of_last(rest, i);
    }
    if rest.len() > 0 {
        law_states_of_last(rest, 0);
    }
    assert(forall|j: int| 0 <= j < rest.len() ==> #[trigger] rest[j] == jobs[j]);
    assert(jobs[jobs.len() - 1] == jobs.last());
    assert forall|id: Seq<char>| #[trigger] states(jobs).contains_key(id) implies exists|j: int|
        0 <= j < jobs.len() && (#[trigger] jobs[j]).id@ == id by {
        if id != jobs.last().id@ {
            assert(states(rest).contains_key(id));
            assert(rest.len() > 0) by {
                if rest.len() == 0 {
                    assert(states(rest) == Map::<Seq<char>, JobStatus>::empty());
                }
            }
            let j = choose|j: int| 0 <= j < rest.len() && (#[trigger] rest[j]).id@ == id;
            assert(jobs[j].id@ == id);
        }
    }
}

/// The identifiers of a list of states.
pub open spec fn status_ids(list: Seq<(String, JobStatus)>) -> Seq<Seq<char>> {
    Seq::new(list.len(), |i: int| list[i].0@)
}

proof fn lemma_counts_disjoint(jobs: Seq<BatchJob>)
    ensures
        count(jobs, JobStatus::Queued) + count(jobs, JobStatus::Running) <= jobs.len(),
    decreases jobs.len(),
{
    if jobs.len() > 0 {
        lemma_counts_disjoint(jobs.drop_last());
    }
}

/// After all jobs are called off, each is over.
pub proof fn law_cancel_all_ends(before: Seq<BatchJob>, after: Seq<BatchJob>, now: Timestamp, i: int)
    requires
        all_cancelled(before, after, now),
        0 <= i < after.len(),
    ensures
        after[i].status.over(),
{
}

} // verus!
