//! Bookkeeping of background jobs: which jobs exist, their state and their output.
//! Starting the processes and forwarding their events is left to the caller.

use vstd::prelude::*;

verus! {

/// The number that identifies a job.
#[derive(Debug, Clone, Copy, PartialEq, Eq, Hash, Structural)]
pub struct JobId(pub u64);

/// What a running job reports.
#[derive(Debug, Clone)]
pub enum JobEvent {
    Started { id: JobId, description: String },
    Progress { id: JobId, pct: Option<u16>, line: String },
    Finished { id: JobId },
    Failed { id: JobId, msg: String },
}

/// The abstract value of a `JobEvent`.
pub enum JobEventView {
    Started { id: u64, description: Seq<char> },
    Progress { id: u64, pct: Option<u16>, line: Seq<char> },
    Finished { id: u64 },
    Failed { id: u64, msg: Seq<char> },
}

impl View for JobEvent {
    type V = JobEventView;

    open spec fn view(&self) -> JobEventView {
        match self {
            JobEvent::Started { id, description } => JobEventView::Started {
                id: id.0,
                description: description@,
            },
            JobEvent::Progress { id, pct, line } => JobEventView::Progress {
                id: id.0,
                pct: *pct,
                line: line@,
            },
            JobEvent::Finished { id } => JobEventView::Finished { id: id.0 },
            JobEvent::Failed { id, msg } => JobEventView::Failed { id: id.0, msg: msg@ },
        }
    }
}

/// Where a job stands.
#[derive(Debug, Clone, Copy, PartialEq, Eq, Structural)]
pub enum JobStatus {
    Running,
    Finished,
    Failed,
}

/// A job as the manager keeps it: its identity, description, state and output lines.
#[derive(Debug, Clone)]
pub struct JobHandle {
    pub id: JobId,
    pub description: String,
    pub status: JobStatus,
    pub log: Vec<String>,
}

/// The abstract value of a `JobHandle`.
pub struct JobHandleView {
    pub id: u64,
    pub description: Seq<char>,
    pub status: JobStatus,
    pub log: Seq<Seq<char>>,
}

impl View for JobHandle {
    type V = JobHandleView;

    open spec fn view(&self) -> JobHandleView {
        JobHandleView {
            id: self.id.0,
            description: self.description@,
            status: self.status,
            log: self.log@.map_values(|l: String| l@),
        }
    }
}

/// The abstract value of a `JobManager`: the next id it hands out and its jobs in order.
pub struct JobsView {
    pub next_id: u64,
    pub jobs: Seq<JobHandleView>,
}

/// A well-formed job list: ids strictly increase along it and stay below the next id.
pub open spec fn jobs_wf(m: JobsView) -> bool {
    &&& m.next_id >= 1
    &&& forall|i: int, j: int| 0 <= i < j < m.jobs.len() ==> #[trigger] m.jobs[i].id < #[trigger] m.jobs[j].id
    &&& forall|i: int| 0 <= i < m.jobs.len() ==> #[trigger] m.jobs[i].id < m.next_id
}

/// Index of the first job with the given id, or the number of jobs.
pub open spec fn job_index(jobs: Seq<JobHandleView>, id: u64) -> int
    decreases jobs.len(),
{
    if jobs.len() == 0 {
        0
    } else if jobs[0].id == id {
        0
    } else {
        1 + job_index(jobs.drop_first(), id)
    }
}

/// The job list after registering a new job with the given description.
pub open spec fn registered(m: JobsView, description: Seq<char>) -> JobsView {
    JobsView {
        next_id: (m.next_id + 1) as u64,
        jobs: m.jobs.push(
            JobHandleView { id: m.next_id, description, status: JobStatus::Running, log: seq![] },
        ),
    }
}

/// The job list after an event: progress appends its line to the job's log,
/// `Finished` and `Failed` set the job's status; `Started` and events for
/// unknown ids change nothing.
pub open spec fn applied(m: JobsView, e: JobEventView) -> JobsView {
    let jobs = m.jobs;
    match e {
        JobEventView::Started { .. } => m,
        JobEventView::Progress { id, line, .. } => {
            let i = job_index(jobs, id);
            if 0 <= i < jobs.len() {
                JobsView {
                    next_id: m.next_id,
                    jobs: jobs.update(i, JobHandleView { log: jobs[i].log.push(line), ..jobs[i] }),
                }
            } else {
                m
            }
        },
        JobEventView::Finished { id } => {
            let i = job_index(jobs, id);
            if 0 <= i < jobs.len() {
                JobsView {
                    next_id: m.next_id,
                    jobs: jobs.update(i, JobHandleView { status: JobStatus::Finished, ..jobs[i] }),
                }
            } else {
                m
            }
        },
        JobEventView::Failed { id, .. } => {
            let i = job_index(jobs, id);
            if 0 <= i < jobs.len() {
                JobsView {
                    next_id: m.next_id,
                    jobs: jobs.update(i, JobHandleView { status: JobStatus::Failed, ..jobs[i] }),
                }
            } else {
                m
            }
        },
    }
}

/// Whether some job is still running.
pub open spec fn some_running(jobs: Seq<JobHandleView>) -> bool {
    exists|i: int| 0 <= i < jobs.len() && #[trigger] jobs[i].status == JobStatus::Running
}

proof fn lemma_job_index(jobs: Seq<JobHandleView>, id: u64, i: int)
    requires
        0 <= i <= jobs.len(),
        forall|j: int| 0 <= j < i ==> jobs[j].id != id,
        i < jobs.len() ==> jobs[i].id == id,
    ensures
        job_index(jobs, id) == i,
    decreases jobs.len(),
{
    if jobs.len() > 0 && jobs[0].id != id {
        assert forall|j: int| 0 <= j < i - 1 implies jobs.drop_first()[j].id != id by {
            assert(jobs.drop_first()[j] == jobs[j + 1]);
        }
        lemma_job_index(jobs.drop_first(), id, i - 1);
    }
}

/// The job an event is about.
pub open spec fn event_id(e: JobEventView) -> u64 {
    match e {
        JobEventView::Started { id, .. } => id,
        JobEventView::Progress { id, .. } => id,
        JobEventView::Finished { id } => id,
        JobEventView::Failed { id, .. } => id,
    }
}

/// In a well-formed list the job with a given id sits at its index.
proof fn lemma_job_at(m: JobsView, i: int)
    requires
        jobs_wf(m),
        0 <= i < m.jobs.len(),
    ensures
        job_index(m.jobs, m.jobs[i].id) == i,
{
    assert forall|j: int| 0 <= j < i implies m.jobs[j].id != m.jobs[i].id by {
        assert(m.jobs[j].id < m.jobs[i].id);
    }
    lemma_job_index(m.jobs, m.jobs[i].id, i);
}

/// A registered job gets an id that no job had before, and the list stays well formed.
pub proof fn law_register_fresh_id(m: JobsView, description: Seq<char>)
    requires
        jobs_wf(m),
        m.next_id < u64::MAX,
    ensures
        forall|i: int| 0 <= i < m.jobs.len() ==> #[trigger] m.jobs[i].id != m.next_id,
        registered(m, description).jobs.len() == m.jobs.len() + 1,
        registered(m, description).jobs.last().id == m.next_id,
        registered(m, description).jobs.last().status == JobStatus::Running,
        jobs_wf(registered(m, description)),
{
}

/// An event never adds or removes jobs, nor changes their ids or descriptions.
pub proof fn law_apply_keeps_jobs(m: JobsView, e: JobEventView)
    requires
        jobs_wf(m),
    ensures
        applied(m, e).next_id == m.next_id,
        applied(m, e).jobs.len() == m.jobs.len(),
        forall|i: int| 0 <= i < m.jobs.len() ==> #[trigger] applied(m, e).jobs[i].id == m.jobs[i].id
            && applied(m, e).jobs[i].description == m.jobs[i].description,
        jobs_wf(applied(m, e)),
{
}

/// `Finished` or `Failed` for a job ends it with that status; no other job changes.
pub proof fn law_end_of_job(m: JobsView, e: JobEventView, i: int)
    requires
        jobs_wf(m),
        0 <= i < m.jobs.len(),
        e is Finished || e is Failed,
        event_id(e) == m.jobs[i].id,
    ensures
        applied(m, e).jobs[i].status == (if e is Finished {
            JobStatus::Finished
        } else {
            JobStatus::Failed
        }),
        applied(m, e).jobs[i].status != JobStatus::Running,
        forall|j: int| 0 <= j < m.jobs.len() && j != i ==> #[trigger] applied(m, e).jobs[j] == m.jobs[j],
{
    lemma_job_at(m, i);
}

/// A progress event adds its line to the end of its job's log and changes nothing else.
pub proof fn law_progress_appends(m: JobsView, e: JobEventView, i: int)
    requires
        jobs_wf(m),
        0 <= i < m.jobs.len(),
        e is Progress,
        event_id(e) == m.jobs[i].id,
    ensures
        applied(m, e).jobs[i].log == m.jobs[i].log.push(e->Progress_line),
        applied(m, e).jobs[i].status == m.jobs[i].status,
        forall|j: int| 0 <= j < m.jobs.len() && j != i ==> #[trigger] applied(m, e).jobs[j] == m.jobs[j],
{
    lemma_job_at(m, i);
}

/// Events about ids that no job has, and `Started` events, change nothing.
pub proof fn law_unknown_events_ignored(m: JobsView, e: JobEventView)
    requires
        jobs_wf(m),
        e is Started || (forall|i: int| 0 <= i < m.jobs.len() ==> #[trigger] m.jobs[i].id != event_id(e)),
    ensures
        applied(m, e) == m,
{
    if !(e is Started) {
        lemma_job_index(m.jobs, event_id(e), m.jobs.len() as int);
    }
}

/// A job just registered counts as running.
pub proof fn law_registered_job_runs(m: JobsView, description: Seq<char>)
    ensures
        some_running(registered(m, description).jobs),
{
    let jobs = registered(m, description).jobs;
    assert(jobs[jobs.len() - 1].status == JobStatus::Running);
}

/// The job list after registering jobs with these descriptions, one after another.
pub open spec fn registered_all(m: JobsView, descriptions: Seq<Seq<char>>) -> JobsView
    decreases descriptions.len(),
{
    if descriptions.len() == 0 {
        m
    } else {
        registered(registered_all(m, descriptions.drop_last()), descriptions.last())
    }
}

/// Registering jobs one after another hands out the ids `next_id`,
/// `next_id + 1`, ... in order, appends them as running jobs with their
/// descriptions and no output, keeps the jobs there were, and leaves the list
/// well formed.
pub proof fn law_register_many(m: JobsView, descriptions: Seq<Seq<char>>)
    requires
        jobs_wf(m),
        m.next_id + descriptions.len() <= u64::MAX,
    ensures
        registered_all(m, descriptions).next_id == m.next_id + descriptions.len(),
        registered_all(m, descriptions).jobs.len() == m.jobs.len() + descriptions.len(),
        registered_all(m, descriptions).jobs.take(m.jobs.len() as int) == m.jobs,
        forall|j: int|
            m.jobs.len() <= j < m.jobs.len() + descriptions.len() ==> #[trigger] registered_all(
                m,
                descriptions,
            ).jobs[j] == (JobHandleView {
                id: (m.next_id + (j - m.jobs.len())) as u64,
                description: descriptions[j - m.jobs.len()],
                status: JobStatus::Running,
                log: seq![],
            }),
        jobs_wf(registered_all(m, descriptions)),
    decreases descriptions.len(),
{
    if descriptions.len() > 0 {
        let d0 = descriptions.drop_last();
        law_register_many(m, d0);
        let m0 = registered_all(m, d0);
        law_register_fresh_id(m0, descriptions.last());
        let m1 = registered_all(m, descriptions);
        assert(m1 == registered(m0, descriptions.last()));
        assert(m1.jobs.take(m.jobs.len() as int) =~= m0.jobs.take(m.jobs.len() as int));
        assert forall|j: int| m.jobs.len() <= j < m.jobs.len() + descriptions.len() implies #[trigger] m1.jobs[j]
            == (JobHandleView {
            id: (m.next_id + (j - m.jobs.len())) as u64,
            description: descriptions[j - m.jobs.len()],
            status: JobStatus::Running,
            log: seq![],
        }) by {
            if j < m.jobs.len() + d0.len() {
                assert(m1.jobs[j] == m0.jobs[j]);
                assert(d0[j - m.jobs.len()] == descriptions[j - m.jobs.len()]);
            }
        }
    }
}

/// A new manager gives its first jobs the ids 1, 2, 3, ... in the order they
/// are registered.
pub proof fn law_new_manager_ids(descriptions: Seq<Seq<char>>)
    requires
        descriptions.len() < u64::MAX,
    ensures
        registered_all(JobsView { next_id: 1, jobs: seq![] }, descriptions).next_id == descriptions.len()
            + 1,
        forall|i: int|
            0 <= i < descriptions.len() ==> #[trigger] registered_all(
                JobsView { next_id: 1, jobs: seq![] },
                descriptions,
            ).jobs[i].id == i + 1,
{
    let m = JobsView { next_id: 1, jobs: seq![] };
    law_register_many(m, descriptions);
    assert forall|i: int| 0 <= i < descriptions.len() implies #[trigger] registered_all(m, descriptions).jobs[i].id
        == i + 1 by {
        assert(m.jobs.len() == 0);
    }
}

/// One operation on a job manager: registering a job with a description, or
/// applying an event.
pub enum JobOp {
    Register(Seq<char>),
    Apply(JobEventView),
}

/// The job list after a run of operations on a new manager.
pub open spec fn replayed(ops: Seq<JobOp>) -> JobsView
    decreases ops.len(),
{
    if ops.len() == 0 {
        JobsView { next_id: 1, jobs: seq![] }
    } else {
        let m = replayed(ops.drop_last());
        match ops.last() {
            JobOp::Register(d) => registered(m, d),
            JobOp::Apply(e) => applied(m, e),
        }
    }
}

/// How many of the operations register a job.
pub open spec fn registrations(ops: Seq<JobOp>) -> nat
    decreases ops.len(),
{
    if ops.len() == 0 {
        0
    } else {
        registrations(ops.drop_last()) + if ops.last() is Register {
            1nat
        } else {
            0nat
        }
    }
}

proof fn lemma_replayed(ops: Seq<JobOp>)
    requires
        registrations(ops) < u64::MAX,
    ensures
        jobs_wf(replayed(ops)),
        replayed(ops).next_id == registrations(ops) + 1,
        replayed(ops).jobs.len() == registrations(ops),
    decreases ops.len(),
{
    if ops.len() > 0 {
        let pre = ops.drop_last();
        lemma_replayed(pre);
        let m = replayed(pre);
        match ops.last() {
            JobOp::Register(d) => {
                law_register_fresh_id(m, d);
            },
            JobOp::Apply(e) => {
                law_apply_keeps_jobs(m, e);
            },
        }
    }
}

/// On a new manager that has seen `k` registrations and any number of
/// events, the next registration gets the id `k + 1`, appends exactly one
/// running job with its description and no output after the jobs there were,
/// and leaves a job running.
pub proof fn law_register_after_history(ops: Seq<JobOp>, description: Seq<char>)
    requires
        registrations(ops) + 1 < u64::MAX,
    ensures
        jobs_wf(replayed(ops)),
        replayed(ops).next_id == registrations(ops) + 1,
        replayed(ops).jobs.len() == registrations(ops),
        registered(replayed(ops), description).jobs == replayed(ops).jobs.push(
            JobHandleView {
                id: (registrations(ops) + 1) as u64,
                description,
                status: JobStatus::Running,
                log: seq![],
            },
        ),
        registered(replayed(ops), description).next_id == registrations(ops) + 2,
        jobs_wf(registered(replayed(ops), description)),
        some_running(registered(replayed(ops), description).jobs),
{
    lemma_replayed(ops);
    law_register_fresh_id(replayed(ops), description);
    law_registered_job_runs(replayed(ops), description);
}

/// The jobs the application has started, in the order it started them.
pub struct JobManager {
    next_id: u64,
    jobs: Vec<JobHandle>,
}

impl View for JobManager {
    type V = JobsView;

    closed spec fn view(&self) -> JobsView {
        JobsView { next_id: self.next_id, jobs: self.jobs@.map_values(|j: JobHandle| j@) }
    }
}

impl JobManager {
    /// An empty manager whose first job gets id 1.
    pub fn new() -> (m: Self)
        ensures
            m@ == (JobsView { next_id: 1, jobs: seq![] }),
            jobs_wf(m@),
    {
        let m = JobManager { next_id: 1, jobs: Vec::new() };
        assert(m@.jobs =~= Seq::<JobHandleView>::empty());
        m
    }

    /// Records a new running job and returns its id.
    pub fn register(&mut self, description: String) -> (r: JobId)
        requires
            jobs_wf(old(self)@),
            old(self)@.next_id < u64::MAX,
        ensures
            final(self)@ == registered(old(self)@, description@),
            jobs_wf(final(self)@),
            r == JobId(old(self)@.next_id),
    {
        let id = JobId(self.next_id);
        self.next_id = self.next_id + 1;
        let h = JobHandle { id, description, status: JobStatus::Running, log: Vec::new() };
        proof {
            assert(h@.log =~= Seq::<Seq<char>>::empty());
        }
        self.jobs.push(h);
        assert(self@.jobs =~= old(self)@.jobs.push(h@));
        id
    }

    /// Updates the job an event is about.
    pub fn apply(&mut self, event: &JobEvent)
        requires
            jobs_wf(old(self)@),
        ensures
            final(self)@ == applied(old(self)@, event@),
            jobs_wf(final(self)@),
    {
        let ghost m = old(self)@;
        let id = match event {
            JobEvent::Started { .. } => {
                return;
            },
            JobEvent::Progress { id, .. } => *id,
            JobEvent::Finished { id } => *id,
            JobEvent::Failed { id, .. } => *id,
        };
        let mut i: usize = 0;
        while i < self.jobs.len() && self.jobs[i].id != id
            invariant
                i <= self.jobs.len(),
                self@ == m,
                forall|j: int| 0 <= j < i ==> m.jobs[j].id != id.0,
            decreases self.jobs.len() - i,
        {
            i = i + 1;
        }
        proof {
            lemma_job_index(m.jobs, id.0, i as int);
        }
        if i == self.jobs.len() {
            return;
        }
        match event {
            JobEvent::Progress { line, .. } => {
                let ghost lg = self.jobs@[i as int].log@;
                self.jobs[i].log.push(line.clone());
                assert(self.jobs@[i as int].log@.map_values(|l: String| l@) =~= lg.map_values(
                    |l: String| l@,
                ).push(line@));
            },
            JobEvent::Finished { .. } => {
                self.jobs[i].status = JobStatus::Finished;
            },
            _ => {
                self.jobs[i].status = JobStatus::Failed;
            },
        }
        assert(self@.jobs =~= applied(m, event@).jobs);
    }

    /// The jobs, in the order they were registered.
    pub fn handles(&self) -> (r: &[JobHandle])
        ensures
            r@.map_values(|j: JobHandle| j@) == self@.jobs,
    {
        self.jobs.as_slice()
    }

    /// Whether any job is still running.
    pub fn any_running(&self) -> (r: bool)
        ensures
            r == some_running(self@.jobs),
    {
        let mut i: usize = 0;
        while i < self.jobs.len()
            invariant
                i <= self.jobs.len(),
                forall|j: int| 0 <= j < i ==> self@.jobs[j].status != JobStatus::Running,
            decreases self.jobs.len() - i,
        {
            if self.jobs[i].status == JobStatus::Running {
                assert(self@.jobs[i as int].status == JobStatus::Running);
                return true;
            }
            i = i + 1;
        }
        false
    }

    /// The id the next registered job will get.
    pub fn next_job_id(&self) -> (r: u64)
        ensures
            r == self@.next_id,
    {
        self.next_id
    }
}

} // verus!
