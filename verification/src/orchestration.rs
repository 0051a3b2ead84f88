//! Jobs at run time: the orchestrator that breaks a named job into the work
//! of its actions, the queue that the workers share, the workers' reports,
//! and the aggregator that knows which jobs are in flight.

use crate::commands::{captured, stdout_text, CommandOutput};
use crate::configuration::{
    job_named, ActionModel, ActionType, JobConfiguration, JobModel, JobsConfiguration,
};
use crate::ids::{id_text, new_id, uuid_text};
use crate::json::strings;
use crate::logging::{LogItem, LogItemType, LogRecord};
use crate::numeral::{decimal, usize_text};
use crate::routing::clone_strings;
use std::collections::HashMap;
use vstd::prelude::*;
use vstd::std_specs::hash::*;
use vstd::string::*;

verus! {

broadcast use vstd::std_specs::hash::group_hash_axioms;

/// A request to start the job called `name`.
#[derive(Debug)]
pub struct JobCommand {
    pub name: String,
}

/// What the aggregator is told.
#[derive(Clone, Copy, Debug, PartialEq, Eq, Structural)]
pub enum AggregatorMessage {
    /// The job with this identifier was handed to the workers.
    NewJobSet(u128),
    /// The number of jobs in flight is asked for.
    ProgressReport,
    /// The job with this identifier came to its end.
    CompletedJob(u128),
}

/// One action of a job, under its own identifier, as it waits for a worker.
#[derive(Debug)]
pub struct Job {
    pub id: u128,
    pub action: ActionType,
}

/// The model of a job at run time.
pub struct Task {
    pub id: u128,
    pub action: ActionModel,
}

impl View for Job {
    type V = Task;

    open spec fn view(&self) -> Task {
        Task { id: self.id, action: self.action@ }
    }
}

/// The models of a list of jobs.
pub open spec fn tasks(jobs: Seq<Job>) -> Seq<Task> {
    jobs.map_values(|job: Job| job@)
}

/// The models of a list of records.
pub open spec fn records(items: Seq<LogItem>) -> Seq<LogRecord> {
    items.map_values(|item: LogItem| item@)
}

/// A record of the given level.
pub open spec fn record(item_type: LogItemType, from: Seq<char>, message: Seq<char>) -> LogRecord {
    LogRecord { from, message, item_type }
}

/// The three texts one after the other.
pub fn concat3(a: &str, b: &str, c: &str) -> (text: String)
    ensures
        text@ == a@ + b@ + c@,
{
    let mut text = String::from_str(a);
    text.append(b);
    text.append(c);
    text
}

/// A copy of an action.
pub fn clone_action(action: &ActionType) -> (copy: ActionType)
    ensures
        copy@ == action@,
{
    match action {
        ActionType::Command(c) => ActionType::create_command(
            c.command_name.clone(),
            clone_strings(&c.args),
        ),
        ActionType::Test(t) => ActionType::create_test(t.wait_time),
    }
}

// ---------------------------------------------------------------------
// The aggregator
// ---------------------------------------------------------------------
/// The jobs in flight after `message` arrived: a new job is put in, unless it
/// is there already; a completed one is taken out, if it is there; a request
/// for progress changes nothing.
pub open spec fn after(outstanding: Set<u128>, message: AggregatorMessage) -> Set<u128> {
    match message {
        AggregatorMessage::NewJobSet(id) => outstanding.insert(id),
        AggregatorMessage::ProgressReport => outstanding,
        AggregatorMessage::CompletedJob(id) => outstanding.remove(id),
    }
}

/// The jobs in flight after the messages arrived one after the other.
pub open spec fn after_all(outstanding: Set<u128>, messages: Seq<AggregatorMessage>) -> Set<u128>
    decreases messages.len(),
{
    if messages.len() == 0 {
        outstanding
    } else {
        after(after_all(outstanding, messages.drop_last()), messages.last())
    }
}

/// The record that tells how many jobs are in flight.
pub open spec fn count_record(count: nat) -> LogRecord {
    record(LogItemType::Information, "aggregator"@, "Outstanding jobs: "@ + decimal(count))
}

/// What the aggregator writes to the log when `message` arrives while the
/// jobs in `outstanding` are in flight: what happened, with a warning for a
/// job that is registered twice or completed without being in flight, and
/// then the number of jobs in flight after the message.
pub open spec fn aggregator_log(outstanding: Set<u128>, message: AggregatorMessage) -> Seq<
    LogRecord,
> {
    let count = count_record(after(outstanding, message).len());
    match message {
        AggregatorMessage::NewJobSet(id) => if outstanding.contains(id) {
            seq![
                record(
                    LogItemType::Warning,
                    "aggregator"@,
                    "Job "@ + uuid_text(id) + " is already outstanding."@,
                ),
                count,
            ]
        } else {
            seq![
                record(
                    LogItemType::Information,
                    "aggregator"@,
                    "New job "@ + uuid_text(id) + " received."@,
                ),
                count,
            ]
        },
        AggregatorMessage::ProgressReport => seq![count],
        AggregatorMessage::CompletedJob(id) => if outstanding.contains(id) {
            seq![
                record(
                    LogItemType::Success,
                    "aggregator"@,
                    "Job "@ + uuid_text(id) + " complete."@,
                ),
                count,
            ]
        } else {
            seq![
                record(
                    LogItemType::Warning,
                    "aggregator"@,
                    "Job "@ + uuid_text(id) + " is not outstanding."@,
                ),
                count,
            ]
        },
    }
}

/// The owner of the set of jobs in flight.
#[derive(Debug)]
pub struct Aggregator {
    jobs: HashMap<u128, ()>,
}

impl View for Aggregator {
    type V = Set<u128>;

    closed spec fn view(&self) -> Set<u128> {
        self.jobs@.dom()
    }
}

impl Aggregator {
    /// An aggregator without jobs in flight.
    pub fn start() -> (aggregator: Aggregator)
        ensures
            aggregator@ == Set::<u128>::empty(),
    {
        Aggregator { jobs: HashMap::new() }
    }

    /// How many jobs are in flight.
    pub fn get_progress(&self) -> (count: usize)
        ensures
            count == self@.len(),
            self@.finite(),
    {
        self.jobs.len()
    }

    /// Whether the job `id` is in flight.
    pub fn is_outstanding(&self, id: u128) -> (yes: bool)
        ensures
            yes == self@.contains(id),
    {
        self.jobs.contains_key(&id)
    }

    fn count_item(&self) -> (item: LogItem)
        ensures
            item@ == count_record(self@.len()),
    {
        let mut message = String::from_str("Outstanding jobs: ");
        message.append(usize_text(self.jobs.len()).as_str());
        LogItem::info(String::from_str("aggregator"), message)
    }

    /// Registers the job `id` as in flight.
    pub fn send_jobs(&mut self, id: u128) -> (log: Vec<LogItem>)
        ensures
            final(self)@ == after(old(self)@, AggregatorMessage::NewJobSet(id)),
            records(log@) == aggregator_log(old(self)@, AggregatorMessage::NewJobSet(id)),
    {
        let text = id_text(id);
        let fresh = self.jobs.insert(id, ()).is_none();
        assert(self@ =~= old(self)@.insert(id));
        let event = if fresh {
            LogItem::info(
                String::from_str("aggregator"),
                concat3("New job ", text.as_str(), " received."),
            )
        } else {
            LogItem::warning(
                String::from_str("aggregator"),
                concat3("Job ", text.as_str(), " is already outstanding."),
            )
        };
        let count = self.count_item();
        let log = vec![event, count];
        assert(records(log@) =~= aggregator_log(old(self)@, AggregatorMessage::NewJobSet(id)));
        log
    }

    /// Takes the job `id` out of the jobs in flight.
    pub fn complete_job(&mut self, id: u128) -> (log: Vec<LogItem>)
        ensures
            final(self)@ == after(old(self)@, AggregatorMessage::CompletedJob(id)),
            records(log@) == aggregator_log(old(self)@, AggregatorMessage::CompletedJob(id)),
    {
        let text = id_text(id);
        let present = self.jobs.remove(&id).is_some();
        assert(self@ =~= old(self)@.remove(id));
        let event = if present {
            LogItem::success(
                String::from_str("aggregator"),
                concat3("Job ", text.as_str(), " complete."),
            )
        } else {
            LogItem::warning(
                String::from_str("aggregator"),
                concat3("Job ", text.as_str(), " is not outstanding."),
            )
        };
        let count = self.count_item();
        let log = vec![event, count];
        assert(records(log@) =~= aggregator_log(old(self)@, AggregatorMessage::CompletedJob(id)));
        log
    }

    /// Takes a message in, and gives what is to be written to the log.
    pub fn handle(&mut self, message: AggregatorMessage) -> (log: Vec<LogItem>)
        ensures
            final(self)@ == after(old(self)@, message),
            records(log@) == aggregator_log(old(self)@, message),
    {
        match message {
            AggregatorMessage::NewJobSet(id) => self.send_jobs(id),
            AggregatorMessage::ProgressReport => {
                let log = vec![self.count_item()];
                assert(records(log@) =~= aggregator_log(old(self)@, message));
                log
            },
            AggregatorMessage::CompletedJob(id) => self.complete_job(id),
        }
    }
}

// ---------------------------------------------------------------------
// The workers
// ---------------------------------------------------------------------
/// What a worker has to do for a job, outside of the library.
#[derive(Debug)]
pub enum Work {
    /// Run the command and wait for it.
    Run { command_name: String, args: Vec<String> },
    /// Wait for so many milliseconds.
    Wait { milliseconds: u64 },
}

/// The model of the work for a job.
pub enum WorkModel {
    Run { command_name: Seq<char>, args: Seq<Seq<char>> },
    Wait { milliseconds: nat },
}

impl View for Work {
    type V = WorkModel;

    open spec fn view(&self) -> WorkModel {
        match self {
            Work::Run { command_name, args } => WorkModel::Run {
                command_name: command_name@,
                args: strings(args@),
            },
            Work::Wait { milliseconds } => WorkModel::Wait { milliseconds: *milliseconds as nat },
        }
    }
}

/// What came of the work for a job.
#[derive(Debug)]
pub enum WorkOutcome {
    /// The command ran to its end.
    Ran(CommandOutput),
    /// The command could not be started.
    NotStarted,
    /// The time has passed.
    Waited,
    /// The work broke off, for the cause given.
    Failed(String),
}

/// The work that an action asks for. A test waits for the magnitude of its
/// time.
pub open spec fn work_of(action: ActionModel) -> WorkModel {
    match action {
        ActionModel::Command { command_name, args } => WorkModel::Run { command_name, args },
        ActionModel::Test { wait_time } => WorkModel::Wait {
            milliseconds: if wait_time < 0 {
                (-wait_time) as nat
            } else {
                wait_time as nat
            },
        },
    }
}

/// What a job has to say at its end: for a command that ran and succeeded,
/// the text that it wrote to its standard output; for a test, a reference to
/// the job. A job that failed gives the cause instead.
pub open spec fn job_result(task: Task, outcome: WorkOutcome) -> Result<Seq<char>, Seq<char>> {
    match (task.action, outcome) {
        (ActionModel::Command { .. }, WorkOutcome::Ran(output)) => captured(
            output.success,
            output.stdout@,
        ),
        (ActionModel::Command { .. }, WorkOutcome::NotStarted) => Err("Error running command."@),
        (ActionModel::Test { .. }, WorkOutcome::Waited) => Ok(
            "Job reference: "@ + uuid_text(task.id),
        ),
        (_, WorkOutcome::Failed(cause)) => Err(cause@),
        _ => Err("Outcome of another action."@),
    }
}

/// The name of a worker in the log.
pub open spec fn worker_name(id: usize) -> Seq<char> {
    "worker_"@ + decimal(id as nat)
}

/// What a worker writes to the log when it takes a job.
pub open spec fn received_record(worker: usize, job: u128) -> LogRecord {
    record(LogItemType::Information, worker_name(worker), "Job received. id: "@ + uuid_text(job))
}

/// What a worker writes to the log at the end of a job.
pub open spec fn finished_record(worker: usize, job: u128, result: Result<Seq<char>, Seq<char>>)
    -> LogRecord {
    match result {
        Ok(_) => record(
            LogItemType::Success,
            worker_name(worker),
            "Job "@ + uuid_text(job) + " complete."@,
        ),
        Err(cause) => record(
            LogItemType::Error,
            worker_name(worker),
            "Job "@ + uuid_text(job) + " failed: "@ + cause,
        ),
    }
}

/// What a worker hands back at the end of a job.
#[derive(Debug)]
pub struct WorkerReport {
    /// What the job had to say, or why it failed.
    pub result: Result<String, String>,
    /// What is to be written to the log.
    pub log: LogItem,
    /// What the aggregator is to be told.
    pub message: AggregatorMessage,
}

/// The text of a result, on either side.
pub open spec fn result_view(result: Result<String, String>) -> Result<Seq<char>, Seq<char>> {
    match result {
        Ok(text) => Ok(text@),
        Err(cause) => Err(cause@),
    }
}

impl Job {
    /// What a worker has to do for this job.
    pub fn work(&self) -> (work: Work)
        ensures
            work@ == work_of(self@.action),
    {
        match &self.action {
            ActionType::Command(c) => Work::Run {
                command_name: c.command_name.clone(),
                args: clone_strings(&c.args),
            },
            ActionType::Test(t) => {
                let wait_time = t.wait_time;
                let milliseconds: u64 = if wait_time >= 0 {
                    wait_time as u64
                } else if wait_time == i64::MIN {
                    0x8000_0000_0000_0000u64
                } else {
                    (-wait_time) as u64
                };
                Work::Wait { milliseconds }
            },
        }
    }
}

/// One of the workers of a pool.
#[derive(Debug)]
pub struct Worker {
    pub id: usize,
}

impl Worker {
    /// The worker with the number `id`.
    pub fn new(id: usize) -> (worker: Worker)
        ensures
            worker.id == id,
    {
        Worker { id }
    }

    fn name(&self) -> (name: String)
        ensures
            name@ == worker_name(self.id),
    {
        let mut name = String::from_str("worker_");
        name.append(usize_text(self.id).as_str());
        name
    }

    /// What the worker writes to the log when it takes `job`.
    pub fn receive(&self, job: &Job) -> (item: LogItem)
        ensures
            item@ == received_record(self.id, job.id),
    {
        let mut message = String::from_str("Job received. id: ");
        message.append(id_text(job.id).as_str());
        LogItem::info(self.name(), message)
    }

    /// The report of the worker at the end of `job`, whose work had
    /// `outcome`. Whatever the outcome, the aggregator is told that the job
    /// is completed.
    pub fn complete(&self, job: &Job, outcome: WorkOutcome) -> (report: WorkerReport)
        ensures
            report.message == AggregatorMessage::CompletedJob(job.id),
            result_view(report.result) == job_result(job@, outcome),
            report.log@ == finished_record(self.id, job.id, job_result(job@, outcome)),
    {
        let text = id_text(job.id);
        let result: Result<String, String> = match outcome {
            WorkOutcome::Failed(cause) => Err(cause),
            WorkOutcome::Ran(output) => match &job.action {
                ActionType::Command(_) => match stdout_text(&output) {
                    Ok(written) => Ok(written),
                    Err(e) => Err(String::from_str(e)),
                },
                ActionType::Test(_) => Err(String::from_str("Outcome of another action.")),
            },
            WorkOutcome::NotStarted => match &job.action {
                ActionType::Command(_) => Err(String::from_str("Error running command.")),
                ActionType::Test(_) => Err(String::from_str("Outcome of another action.")),
            },
            WorkOutcome::Waited => match &job.action {
                ActionType::Command(_) => Err(String::from_str("Outcome of another action.")),
                ActionType::Test(_) => {
                    let mut reference = String::from_str("Job reference: ");
                    reference.append(text.as_str());
                    Ok(reference)
                },
            },
        };
        let log = match &result {
            Ok(_) => LogItem::success(self.name(), concat3("Job ", text.as_str(), " complete.")),
            Err(cause) => {
                let mut message = concat3("Job ", text.as_str(), " failed: ");
                message.append(cause.as_str());
                LogItem::error(self.name(), message)
            },
        };
        WorkerReport { result, log, message: AggregatorMessage::CompletedJob(job.id) }
    }
}

/// A pool of workers and the queue of jobs that they share. Jobs leave the
/// queue in the order in which they came.
#[derive(Debug)]
pub struct WorkerPool {
    size: usize,
    queue: Vec<Job>,
}

/// The model of a pool: how many workers it has, and the jobs that wait.
pub struct Pool {
    pub size: nat,
    pub queue: Seq<Task>,
}

impl View for WorkerPool {
    type V = Pool;

    closed spec fn view(&self) -> Pool {
        Pool { size: self.size as nat, queue: tasks(self.queue@) }
    }
}

impl WorkerPool {
    #[verifier::type_invariant]
    spec fn well_formed(&self) -> bool {
        self.size > 0
    }

    /// A pool of `size` workers, with nothing to do yet.
    pub fn new(size: usize) -> (pool: WorkerPool)
        requires
            size > 0,
        ensures
            pool@ == (Pool { size: size as nat, queue: Seq::empty() }),
    {
        let pool = WorkerPool { size, queue: Vec::new() };
        assert(pool@.queue =~= Seq::<Task>::empty());
        pool
    }

    /// The number of workers, which is not 0.
    pub fn size(&self) -> (size: usize)
        ensures
            size == self@.size,
            size > 0,
    {
        proof {
            use_type_invariant(self);
        }
        self.size
    }

    /// The number of jobs that wait.
    pub fn waiting(&self) -> (count: usize)
        ensures
            count == self@.queue.len(),
    {
        self.queue.len()
    }

    /// Puts the work of `action` at the end of the queue, under the
    /// identifier `id`.
    pub fn execute(&mut self, id: u128, action: ActionType)
        ensures
            final(self)@ == (Pool {
                size: old(self)@.size,
                queue: old(self)@.queue.push(Task { id, action: action@ }),
            }),
    {
        proof {
            use_type_invariant(&*self);
        }
        let mut taken = WorkerPool { size: 1, queue: Vec::new() };
        core::mem::swap(self, &mut taken);
        let size = taken.size;
        let mut queue = taken.queue;
        queue.push(Job { id, action });
        let ghost after = WorkerPool { size, queue };
        assert(after@.queue =~= old(self)@.queue.push(Task { id, action: action@ }));
        *self = WorkerPool { size, queue };
    }

    /// Takes the job that has waited longest out of the queue.
    pub fn next(&mut self) -> (job: Option<Job>)
        ensures
            match job {
                Some(j) => old(self)@.queue.len() > 0 && j@ == old(self)@.queue[0] && final(self)@
                    == (Pool { size: old(self)@.size, queue: old(self)@.queue.skip(1) }),
                None => old(self)@.queue.len() == 0 && final(self)@ == old(self)@,
            },
    {
        proof {
            use_type_invariant(&*self);
        }
        if self.queue.len() == 0 {
            return None;
        }
        let mut taken = WorkerPool { size: 1, queue: Vec::new() };
        core::mem::swap(self, &mut taken);
        let size = taken.size;
        let mut queue = taken.queue;
        let job = queue.remove(0);
        let ghost after = WorkerPool { size, queue };
        assert(after@.queue =~= old(self)@.queue.skip(1));
        *self = WorkerPool { size, queue };
        Some(job)
    }
}

// ---------------------------------------------------------------------
// The orchestrator
// ---------------------------------------------------------------------
/// One thing that is to be done for a job command.
#[derive(Debug)]
pub enum DispatchStep {
    /// Tell the aggregator this.
    Register(AggregatorMessage),
    /// Hand this job to the workers.
    HandOver(Job),
}

/// The model of a step of a dispatch.
pub enum StepModel {
    Register(AggregatorMessage),
    HandOver(Task),
}

impl View for DispatchStep {
    type V = StepModel;

    open spec fn view(&self) -> StepModel {
        match self {
            DispatchStep::Register(message) => StepModel::Register(*message),
            DispatchStep::HandOver(job) => StepModel::HandOver(job@),
        }
    }
}

/// The models of a list of steps.
pub open spec fn step_models(steps: Seq<DispatchStep>) -> Seq<StepModel> {
    steps.map_values(|step: DispatchStep| step@)
}

/// What the orchestrator decides for a job command.
#[derive(Debug)]
pub struct Dispatch {
    /// The answer to the sender: the identifier under which the command
    /// runs, or why it does not run.
    pub reply: Result<u128, &'static str>,
    /// What is to be done, in this order: each job is registered with the
    /// aggregator before it goes to the workers, so that its registration
    /// reaches the aggregator before its completion can.
    pub steps: Vec<DispatchStep>,
    /// What is to be written to the log.
    pub log: Vec<LogItem>,
}

/// The model of a dispatch.
pub struct DispatchModel {
    pub reply: Result<u128, Seq<char>>,
    pub steps: Seq<StepModel>,
    pub log: Seq<LogRecord>,
}

impl View for Dispatch {
    type V = DispatchModel;

    open spec fn view(&self) -> DispatchModel {
        DispatchModel {
            reply: match self.reply {
                Ok(id) => Ok(id),
                Err(e) => Err(e@),
            },
            steps: step_models(self.steps@),
            log: records(self.log@),
        }
    }
}

/// What the orchestrator writes to the log whenever a command arrives.
pub open spec fn command_record() -> LogRecord {
    record(LogItemType::Information, "orch"@, "Job command received."@)
}

/// What is decided for the command of a job that is not configured: nothing
/// goes to the workers nor to the aggregator, and the sender gets an error.
pub open spec fn not_found(name: Seq<char>) -> DispatchModel {
    DispatchModel {
        reply: Err("Job not found"@),
        steps: Seq::empty(),
        log: seq![
            command_record(),
            record(LogItemType::Error, "orch"@, "Job `"@ + name + "` not found."@),
        ],
    }
}

/// The steps for the actions of a job, the action at position `i` running
/// under the identifier `ids[i]`: for each action in its order, first the
/// aggregator is told of the identifier, then the work of the action is
/// handed to the workers under it.
pub open spec fn dispatch_steps(actions: Seq<ActionModel>, ids: Seq<u128>) -> Seq<StepModel>
    decreases actions.len(),
{
    if actions.len() == 0 {
        Seq::empty()
    } else {
        let id = ids[actions.len() - 1];
        dispatch_steps(actions.drop_last(), ids) + seq![
            StepModel::Register(AggregatorMessage::NewJobSet(id)),
            StepModel::HandOver(Task { id, action: actions.last() }),
        ]
    }
}

/// What is decided for the command of a configured job, with `set_id` for the
/// command and one of `ids` for each action: the steps for its actions, and
/// `set_id` for the sender.
pub open spec fn submitted(job: JobModel, set_id: u128, ids: Seq<u128>) -> DispatchModel {
    DispatchModel {
        reply: Ok(set_id),
        steps: dispatch_steps(job.actions, ids),
        log: seq![
            command_record(),
            record(
                LogItemType::Information,
                "orch"@,
                "Job received. Assigned id: "@ + uuid_text(set_id),
            ),
        ],
    }
}

/// What the aggregator is told in the steps, in their order.
pub open spec fn registered(steps: Seq<StepModel>) -> Seq<AggregatorMessage>
    decreases steps.len(),
{
    if steps.len() == 0 {
        Seq::empty()
    } else {
        match steps.last() {
            StepModel::Register(message) => registered(steps.drop_last()).push(message),
            StepModel::HandOver(_) => registered(steps.drop_last()),
        }
    }
}

/// The jobs that go to the workers in the steps, in their order.
pub open spec fn handed_over(steps: Seq<StepModel>) -> Seq<Task>
    decreases steps.len(),
{
    if steps.len() == 0 {
        Seq::empty()
    } else {
        match steps.last() {
            StepModel::Register(_) => handed_over(steps.drop_last()),
            StepModel::HandOver(task) => handed_over(steps.drop_last()).push(task),
        }
    }
}

/// The steps for a job come in pairs, one pair for each action in the order
/// of the actions: the registration of an identifier, and right after it the
/// hand-over of the action's work under that identifier.
pub proof fn lemma_dispatch_steps(actions: Seq<ActionModel>, ids: Seq<u128>, i: int)
    ensures
        dispatch_steps(actions, ids).len() == 2 * actions.len(),
        0 <= i < actions.len() ==> {
            &&& dispatch_steps(actions, ids)[2 * i] == StepModel::Register(
                AggregatorMessage::NewJobSet(ids[i]),
            )
            &&& dispatch_steps(actions, ids)[2 * i + 1] == StepModel::HandOver(
                Task { id: ids[i], action: actions[i] },
            )
        },
    decreases actions.len(),
{
    if actions.len() > 0 {
        let earlier = actions.drop_last();
        lemma_dispatch_steps(earlier, ids, i);
        if 0 <= i < earlier.len() {
            let steps = dispatch_steps(actions, ids);
            assert(earlier[i] == actions[i]);
            assert(steps[2 * i] == dispatch_steps(earlier, ids)[2 * i]);
            assert(steps[2 * i + 1] == dispatch_steps(earlier, ids)[2 * i + 1]);
        }
    }
}

/// No job goes to the workers before the aggregator was told of it: in the
/// steps for a job, a hand-over stands right after the registration of the
/// identifier under which the job runs.
pub proof fn lemma_registered_before_handed_over(
    actions: Seq<ActionModel>,
    ids: Seq<u128>,
    at: int,
)
    requires
        0 <= at < dispatch_steps(actions, ids).len(),
        dispatch_steps(actions, ids)[at] is HandOver,
    ensures
        at >= 1,
        dispatch_steps(actions, ids)[at - 1] == StepModel::Register(
            AggregatorMessage::NewJobSet(dispatch_steps(actions, ids)[at]->HandOver_0.id),
        ),
{
    let i = at / 2;
    lemma_dispatch_steps(actions, ids, i);
    if at % 2 == 0 {
        assert(at == 2 * i);
    } else {
        assert(at == 2 * i + 1);
    }
}

/// The orchestrator: it takes job commands and decides what goes to the
/// workers and to the aggregator.
#[derive(Debug)]
pub struct Orchestrator {}

impl Orchestrator {
    fn command_item() -> (item: LogItem)
        ensures
            item@ == command_record(),
    {
        LogItem::info(String::from_str("orch"), String::from_str("Job command received."))
    }

    /// The dispatch of `job` with the identifiers given: `set_id` for the
    /// command, and one of `ids` for each action.
    pub fn submit(job: &JobConfiguration, set_id: u128, ids: &Vec<u128>) -> (dispatch: Dispatch)
        requires
            ids@.len() == job@.actions.len(),
        ensures
            dispatch@ == submitted(job@, set_id, ids@),
    {
        let mut steps: Vec<DispatchStep> = Vec::new();
        let mut i: usize = 0;
        proof {
            assert(job@.actions.take(0) =~= Seq::<ActionModel>::empty());
            assert(step_models(steps@) =~= Seq::<StepModel>::empty());
        }
        while i < job.actions.len()
            invariant
                i <= job.actions.len(),
                ids@.len() == job.actions@.len(),
                step_models(steps@) == dispatch_steps(job@.actions.take(i as int), ids@),
            decreases job.actions.len() - i,
        {
            let id = ids[i];
            let ghost before = steps@;
            let action = clone_action(&job.actions[i]);
            steps.push(DispatchStep::Register(AggregatorMessage::NewJobSet(id)));
            steps.push(DispatchStep::HandOver(Job { id, action }));
            i = i + 1;
            proof {
                let seen = job@.actions.take(i as int);
                assert(seen.drop_last() =~= job@.actions.take(i - 1));
                assert(seen.last() == job.actions@[i - 1]@);
                assert(step_models(steps@) =~= step_models(before) + seq![
                    StepModel::Register(AggregatorMessage::NewJobSet(id)),
                    StepModel::HandOver(Task { id, action: action@ }),
                ]);
            }
        }
        proof {
            assert(job@.actions.take(job.actions@.len() as int) =~= job@.actions);
        }
        let mut message = String::from_str("Job received. Assigned id: ");
        message.append(id_text(set_id).as_str());
        let log = vec![
            Orchestrator::command_item(),
            LogItem::info(String::from_str("orch"), message),
        ];
        let dispatch = Dispatch { reply: Ok(set_id), steps, log };
        assert(dispatch@.log =~= submitted(job@, set_id, ids@).log);
        dispatch
    }

    /// The dispatch for a job that is not configured.
    pub fn refuse(name: &str) -> (dispatch: Dispatch)
        ensures
            dispatch@ == not_found(name@),
    {
        let log = vec![
            Orchestrator::command_item(),
            LogItem::error(String::from_str("orch"), concat3("Job `", name, "` not found.")),
        ];
        let dispatch = Dispatch { reply: Err("Job not found"), steps: Vec::new(), log };
        proof {
            assert(dispatch@.steps =~= not_found(name@).steps);
            assert(dispatch@.log =~= not_found(name@).log);
        }
        dispatch
    }

    /// What is to be done for `command`: the job is looked up by its name,
    /// and where it is configured, fresh identifiers are drawn and the work of
    /// its actions is dispatched under them, each action registered with the
    /// aggregator before its work goes to the workers.
    pub fn run(jobs_config: &JobsConfiguration, command: &JobCommand) -> (dispatch: Dispatch)
        ensures
            match job_named(jobs_config@, command.name@) {
                None => dispatch@ == not_found(command.name@),
                Some(job) => exists|set_id: u128, ids: Seq<u128>|
                    ids.len() == job.actions.len() && dispatch@ == submitted(job, set_id, ids),
            },
    {
        match jobs_config.get_job(command.name.as_str()) {
            None => Orchestrator::refuse(command.name.as_str()),
            Some(jc) => {
                let set_id = new_id();
                let mut ids: Vec<u128> = Vec::new();
                let mut i: usize = 0;
                while i < jc.actions.len()
                    invariant
                        i <= jc.actions.len(),
                        ids@.len() == i,
                    decreases jc.actions.len() - i,
                {
                    ids.push(new_id());
                    i = i + 1;
                }
                let dispatch = Orchestrator::submit(jc, set_id, &ids);
                proof {
                    let job = job_named(jobs_config@, command.name@)->Some_0;
                    assert(job == jc@);
                    assert(ids@.len() == job.actions.len());
                    assert(dispatch@ == submitted(job, set_id, ids@));
                }
                dispatch
            },
        }
    }
}

} // verus!
