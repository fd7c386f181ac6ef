//! The flow executor: the state of one run of a flow, the action that the
//! caller has to perform next, and what each outcome makes of the state.
//!
//! The executor starts no process and waits for none. It says what is to be
//! done; the caller does it and reports how it went.

pub mod laws;
pub mod proofs;
pub mod run;

use crate::engine::error::{
    copy_failures, flow_result, FlowError, FlowErrorView, JobError, TaskError, TaskErrorView,
    TaskFailure, TaskFailureView,
};
use crate::engine::executor::proofs::{lemma_first_repeat_unique, lemma_initial};
use crate::engine::executor::run::{
    chosen_flow, fresh, initial, jobs_of, lemma_one_less_waiting, preflight, probe_of, probes,
    refusal, waiting_count, RunView,
};
use crate::engine::graph::{
    distinct_ids, find_repeat, find_task, has_cycle, lemma_position, position,
};
use crate::engine::job::{shell, Invocation, InvocationView};
use crate::engine::state::{HandleState, Registry, State};
use crate::engine::task::{dispatched, poll_parent, run_task, Job, JobView, ParentWait};
use crate::engine::text::{listed, owned};
use crate::model::runer::{Blueprints, EnvBundles, Flow, Task};
use vstd::prelude::*;
use vstd::string::*;

verus! {

/// How far the runner of one task has come. A runner only ever moves from
/// `Waiting` to `Dispatching` or `Absent`, and from `Dispatching` to
/// `Published` or `Absent`.
#[derive(Clone, Copy, Debug, PartialEq, Eq, Structural)]
pub enum Runner {
    /// The task has not been started: its parent has not finished.
    Waiting,
    /// The task's job is with the driver.
    Dispatching,
    /// The task has started a process, whose handle is in the registry.
    Published,
    /// The task has reported an absent handle: it was blocked, stood for no
    /// job, or its job could not be started.
    Absent,
}

/// Whether a waiting task may start.
#[derive(Clone, Copy, Debug, PartialEq, Eq, Structural)]
pub enum Readiness {
    /// The task has no parent, or its parent finished with success.
    Ready,
    /// The parent, whose id is held, will never finish with success.
    Blocked(u32),
    /// The parent has not finished.
    Pending,
}

/// How the probe for a package dependency ended.
#[derive(Clone, Copy, Debug, PartialEq, Eq, Structural)]
pub enum ProbeOutcome {
    Found,
    Missing,
    /// The probe could not be started or waited for.
    Io,
}

/// How the driver fared with a job.
#[derive(Clone, Copy, Debug, PartialEq, Eq, Structural)]
pub enum SpawnOutcome {
    /// A process was started and is the task's handle.
    Running,
    /// The job is done already, with success.
    Finished,
    /// No handle: the job failed.
    Failed(JobError),
}

/// How a process ended.
#[derive(Clone, Copy, Debug, PartialEq, Eq, Structural)]
pub enum ExitOutcome {
    Success,
    Failure,
    /// The terminal status could not be determined.
    Unknown,
}

/// What the caller reports back.
#[derive(Debug, PartialEq, Eq)]
pub enum Event {
    /// The answer to `Action::Probe`: how each probe ended, in the order of
    /// the probes.
    Probed(Vec<ProbeOutcome>),
    /// The answer to `Action::Spawn`.
    Spawned(SpawnOutcome),
    /// The answer to `Action::Wait`: the process of the task `task_id` ended.
    Exited { task_id: u32, outcome: ExitOutcome },
}

/// Mathematical value of an [`Event`].
pub enum EventView {
    Probed(Seq<ProbeOutcome>),
    Spawned(SpawnOutcome),
    Exited { task_id: u32, outcome: ExitOutcome },
}

impl View for Event {
    type V = EventView;

    open spec fn view(&self) -> EventView {
        match self {
            Event::Probed(outcomes) => EventView::Probed(outcomes@),
            Event::Spawned(outcome) => EventView::Spawned(*outcome),
            Event::Exited { task_id, outcome } => EventView::Exited {
                task_id: *task_id,
                outcome: *outcome,
            },
        }
    }
}

/// The probe for one package dependency: a process that ends with success
/// exactly if the package is found.
#[derive(Debug)]
pub struct Probe {
    pub name: String,
    pub invocation: Invocation,
}

/// Mathematical value of a [`Probe`].
pub struct ProbeView {
    pub name: Seq<char>,
    pub invocation: InvocationView,
}

impl View for Probe {
    type V = ProbeView;

    open spec fn view(&self) -> ProbeView {
        ProbeView { name: self.name@, invocation: self.invocation@ }
    }
}

impl DeepView for Probe {
    type V = ProbeView;

    open spec fn deep_view(&self) -> ProbeView {
        self@
    }
}

/// What the run is waiting for.
#[derive(Clone, Copy, Debug, PartialEq, Eq, Structural)]
pub enum Pending {
    /// The outcomes of the probes for the package dependencies.
    Probe,
    /// The outcome of the job of the task at this index.
    Spawn(usize),
    /// The end of any running process.
    Exit,
    /// Nothing: the run is over.
    Finished,
}

/// Mathematical value of a [`Pending`].
pub enum PendingView {
    Probe,
    Spawn(nat),
    Exit,
    Finished,
}

impl View for Pending {
    type V = PendingView;

    open spec fn view(&self) -> PendingView {
        match self {
            Pending::Probe => PendingView::Probe,
            Pending::Spawn(i) => PendingView::Spawn(*i as nat),
            Pending::Exit => PendingView::Exit,
            Pending::Finished => PendingView::Finished,
        }
    }
}

/// What the caller has to do next.
#[derive(Debug)]
pub enum Action {
    /// Run every probe to its end, all at once or one after the other, and
    /// report `Event::Probed`.
    Probe(Vec<Probe>),
    /// Hand `job` to the driver for the task `task_id` and report
    /// `Event::Spawned`.
    Spawn { task_id: u32, job: Job },
    /// Wait until the process of some task has ended and report
    /// `Event::Exited`.
    Wait,
    /// The run is over, with this result.
    Finish(Result<(), FlowError>),
}

/// Mathematical value of an [`Action`].
pub enum ActionView {
    Probe(Seq<ProbeView>),
    Spawn { task_id: u32, job: JobView },
    Wait,
    Finish(Result<(), FlowErrorView>),
}

impl View for Action {
    type V = ActionView;

    open spec fn view(&self) -> ActionView {
        match self {
            Action::Probe(probes) => ActionView::Probe(probes.deep_view()),
            Action::Spawn { task_id, job } => ActionView::Spawn { task_id: *task_id, job: job@ },
            Action::Wait => ActionView::Wait,
            Action::Finish(result) => ActionView::Finish(flow_result(*result)),
        }
    }
}

/// Mathematical value of the jobs of a run.
pub open spec fn jobs_view(jobs: Seq<Result<Job, TaskError>>) -> Seq<
    Result<JobView, TaskErrorView>,
> {
    jobs.map_values(|job: Result<Job, TaskError>| dispatched(job))
}

fn readiness_of(
    tasks: &Vec<Task>,
    runners: &Vec<Runner>,
    handles: &Registry,
    i: usize,
    Ghost(run): Ghost<RunView>,
) -> (readiness: Readiness)
    requires
        i < tasks.len(),
        runners.len() == tasks.len(),
        run.tasks == tasks.deep_view(),
        run.runners == runners@,
        run.handles == handles@,
    ensures
        readiness == run.readiness(i as int),
{
    assert(tasks.deep_view()[i as int] == tasks[i as int]@);
    match tasks[i].depends {
        None => Readiness::Ready,
        Some(id) => match poll_parent(id, handles) {
            ParentWait::Ready => Readiness::Ready,
            ParentWait::Blocked => Readiness::Blocked(id),
            ParentWait::Running => Readiness::Pending,
            ParentWait::Unpublished => {
                proof {
                    lemma_position(run.tasks, id);
                }
                match find_task(tasks, id) {
                    Some(j) => {
                        if runners[j] == Runner::Absent {
                            Readiness::Blocked(id)
                        } else {
                            Readiness::Pending
                        }
                    },
                    None => Readiness::Blocked(id),
                }
            },
        },
    }
}

fn find_actionable(
    tasks: &Vec<Task>,
    runners: &Vec<Runner>,
    handles: &Registry,
    Ghost(run): Ghost<RunView>,
) -> (found: Option<(usize, Readiness)>)
    requires
        runners.len() == tasks.len(),
        run.tasks == tasks.deep_view(),
        run.runners == runners@,
        run.handles == handles@,
    ensures
        match found {
            Some((i, readiness)) => run.first_actionable(0) == Some(i as int) && i < tasks.len()
                && readiness == run.readiness(i as int) && runners[i as int] == Runner::Waiting
                && readiness != Readiness::Pending,
            None => run.first_actionable(0) is None,
        },
{
    let mut i: usize = 0;
    while i < tasks.len()
        invariant
            i <= tasks.len(),
            runners.len() == tasks.len(),
            run.tasks == tasks.deep_view(),
            run.runners == runners@,
            run.handles == handles@,
            run.first_actionable(0) == run.first_actionable(i as int),
        decreases tasks.len() - i,
    {
        if runners[i] == Runner::Waiting {
            let readiness = readiness_of(tasks, runners, handles, i, Ghost(run));
            if readiness != Readiness::Pending {
                return Some((i, readiness));
            }
        }
        assert(!run.actionable(i as int));
        i += 1;
    }
    None
}

fn any_running(tasks: &Vec<Task>, handles: &Registry, Ghost(run): Ghost<RunView>) -> (running: bool)
    requires
        run.tasks == tasks.deep_view(),
        run.handles == handles@,
    ensures
        running == run.some_running(),
{
    let mut i: usize = 0;
    while i < tasks.len()
        invariant
            i <= tasks.len(),
            run.tasks == tasks.deep_view(),
            run.handles == handles@,
            forall|j: int|
                0 <= j < i ==> !(run.handles.contains_key((#[trigger] run.tasks[j]).id)
                    && run.handles[run.tasks[j].id] == HandleState::Running),
        decreases tasks.len() - i,
    {
        assert(run.tasks[i as int] == tasks[i as int]@);
        match handles.status(tasks[i].id) {
            Some(HandleState::Running) => {
                return true;
            },
            _ => {},
        }
        i += 1;
    }
    false
}

fn record(failures: &mut Vec<TaskFailure>, task_id: u32, error: TaskError)
    ensures
        final(failures).deep_view() == old(failures).deep_view().push(
            TaskFailureView { task_id, error: error@ },
        ),
{
    let failure = TaskFailure { task_id, error };
    failures.push(failure);
    assert(failures.deep_view() =~= old(failures).deep_view().push(failure@));
}

fn schedule(
    tasks: &Vec<Task>,
    jobs: &Vec<Result<Job, TaskError>>,
    runners: &mut Vec<Runner>,
    handles: &Registry,
    failures: &mut Vec<TaskFailure>,
    Ghost(before): Ghost<RunView>,
) -> (pending: Pending)
    requires
        old(runners).len() == tasks.len(),
        jobs.len() == tasks.len(),
        before.tasks == tasks.deep_view(),
        before.jobs == jobs_view(jobs@),
        before.runners == old(runners)@,
        before.handles == handles@,
        before.failures == old(failures).deep_view(),
    ensures
        final(runners)@ == before.schedule().runners,
        final(failures).deep_view() == before.schedule().failures,
        pending@ == before.schedule().pending,
{
    let ghost mut run = before;
    loop
        invariant
            runners.len() == tasks.len(),
            jobs.len() == tasks.len(),
            run.tasks == tasks.deep_view(),
            run.jobs == jobs_view(jobs@),
            run.runners == runners@,
            run.handles == handles@,
            run.failures == failures.deep_view(),
            run.schedule() == before.schedule(),
        decreases waiting_count(runners@),
    {
        let found = find_actionable(tasks, runners, handles, Ghost(run));
        match found {
            None => {
                let running = any_running(tasks, handles, Ghost(run));
                return if running {
                    Pending::Exit
                } else {
                    Pending::Finished
                };
            },
            Some((i, readiness)) => {
                proof {
                    run.lemma_first_actionable(0);
                    assert(run.tasks[i as int] == tasks[i as int]@);
                    assert(run.jobs[i as int] == dispatched(jobs[i as int]));
                }
                let error = match readiness {
                    Readiness::Blocked(parent_id) => TaskError::Blocked(parent_id),
                    _ => match &jobs[i] {
                        Ok(_) => {
                            runners.set(i, Runner::Dispatching);
                            return Pending::Spawn(i);
                        },
                        Err(error) => error.clone(),
                    },
                };
                proof {
                    lemma_one_less_waiting(runners@, i as int, Runner::Absent);
                    run = run.give_up(i as int, error@);
                }
                runners.set(i, Runner::Absent);
                record(failures, tasks[i].id, error);
            },
        }
    }
}

/// One run of a flow: its tasks with their jobs and runners, the handle
/// registry, and the failures recorded so far.
#[derive(Debug)]
pub struct FlowRun {
    tasks: Vec<Task>,
    deps: Vec<String>,
    jobs: Vec<Result<Job, TaskError>>,
    runners: Vec<Runner>,
    handles: Registry,
    failures: Vec<TaskFailure>,
    pending: Pending,
    abort: Option<FlowError>,
}

impl View for FlowRun {
    type V = RunView;

    closed spec fn view(&self) -> RunView {
        RunView {
            tasks: self.tasks.deep_view(),
            deps: self.deps.deep_view(),
            jobs: jobs_view(self.jobs@),
            runners: self.runners@,
            handles: self.handles@,
            failures: self.failures.deep_view(),
            pending: self.pending@,
            abort: self.abort.deep_view(),
        }
    }
}

/// Plans the probe for the package dependency `name`.
pub fn plan_probe(name: &String) -> (probe: Probe)
    ensures
        probe@ == probe_of(name@),
{
    let mut command = owned("command -v ");
    command.append(name.as_str());
    Probe { name: name.clone(), invocation: shell(command.as_str(), true) }
}

/// Plans the probes for the package dependencies `deps`, one for each in
/// order.
pub fn plan_probes(deps: &Vec<String>) -> (planned: Vec<Probe>)
    ensures
        planned.deep_view() == probes(deps.deep_view()),
{
    let mut planned: Vec<Probe> = Vec::new();
    let mut i: usize = 0;
    while i < deps.len()
        invariant
            i <= deps.len(),
            planned.deep_view() == probes(deps.deep_view().take(i as int)),
        decreases deps.len() - i,
    {
        let ghost before = planned.deep_view();
        let probe = plan_probe(&deps[i]);
        planned.push(probe);
        assert(planned.deep_view() =~= before.push(probe@));
        assert(planned.deep_view() =~= probes(deps.deep_view().take(i + 1)));
        i += 1;
    }
    assert(deps.deep_view().take(i as int) =~= deps.deep_view());
    planned
}

/// Decides from the outcomes of the probes whether every package
/// dependency is there. The dependencies are gone through in order: the
/// first whose probe did not find it is reported as missing; one whose
/// probe could not be run, or has no outcome, is an error of its own.
pub fn check_package_dependencies(deps: &Vec<String>, outcomes: &Vec<ProbeOutcome>) -> (result:
    Result<(), FlowError>)
    ensures
        flow_result(result) == (match preflight(deps.deep_view(), outcomes@) {
            Some(error) => Err(error),
            None => Ok(()),
        }),
{
    let ghost names = deps.deep_view();
    let mut i: usize = 0;
    assert(names.skip(0) =~= names);
    assert(outcomes@.skip(0) =~= outcomes@);
    while i < deps.len()
        invariant
            i <= deps.len(),
            names == deps.deep_view(),
            preflight(names, outcomes@) == preflight(
                names.skip(i as int),
                if i <= outcomes.len() {
                    outcomes@.skip(i as int)
                } else {
                    Seq::empty()
                },
            ),
        decreases deps.len() - i,
    {
        assert(names.skip(i as int)[0] == deps[i as int]@);
        if i >= outcomes.len() {
            return Err(FlowError::Io);
        }
        assert(outcomes@.skip(i as int)[0] == outcomes[i as int]);
        match outcomes[i] {
            ProbeOutcome::Found => {},
            ProbeOutcome::Missing => {
                return Err(FlowError::MissingDependency(deps[i].clone()));
            },
            ProbeOutcome::Io => {
                return Err(FlowError::Io);
            },
        }
        assert(names.skip(i as int).skip(1) =~= names.skip(i + 1));
        assert(outcomes@.skip(i as int).skip(1) =~= outcomes@.skip(i + 1));
        assert(i + 1 > outcomes.len() ==> outcomes@.skip(i + 1) =~= Seq::<ProbeOutcome>::empty());
        i += 1;
    }
    assert(names.skip(i as int).len() == 0);
    Ok(())
}

fn dispatch_all(
    tasks: &Vec<Task>,
    blueprints: &Blueprints,
    env: &EnvBundles,
    network: &Option<String>,
) -> (jobs: Vec<Result<Job, TaskError>>)
    ensures
        jobs_view(jobs@) == jobs_of(
            tasks.deep_view(),
            blueprints.deep_view(),
            env.deep_view(),
            network.deep_view(),
        ),
        jobs.len() == tasks.len(),
{
    let ghost wanted = jobs_of(
        tasks.deep_view(),
        blueprints.deep_view(),
        env.deep_view(),
        network.deep_view(),
    );
    let mut jobs: Vec<Result<Job, TaskError>> = Vec::new();
    let mut i: usize = 0;
    while i < tasks.len()
        invariant
            i <= tasks.len(),
            jobs.len() == i,
            wanted == jobs_of(
                tasks.deep_view(),
                blueprints.deep_view(),
                env.deep_view(),
                network.deep_view(),
            ),
            jobs_view(jobs@) == wanted.take(i as int),
        decreases tasks.len() - i,
    {
        let ghost before = jobs_view(jobs@);
        let job = run_task(&tasks[i], blueprints, env, network);
        assert(tasks.deep_view()[i as int] == tasks[i as int]@);
        jobs.push(job);
        assert(jobs_view(jobs@) =~= before.push(dispatched(job)));
        assert(jobs_view(jobs@) =~= wanted.take(i + 1));
        i += 1;
    }
    assert(wanted.take(i as int) =~= wanted);
    jobs
}

fn all_waiting(count: usize) -> (runners: Vec<Runner>)
    ensures
        runners@ == Seq::new(count as nat, |i: int| Runner::Waiting),
{
    let mut runners: Vec<Runner> = Vec::new();
    let mut i: usize = 0;
    while i < count
        invariant
            i <= count,
            runners@ == Seq::new(i as nat, |k: int| Runner::Waiting),
        decreases count - i,
    {
        runners.push(Runner::Waiting);
        assert(runners@ =~= Seq::new((i + 1) as nat, |k: int| Runner::Waiting));
        i += 1;
    }
    runners
}

fn check_flow(flow: &Flow) -> (refused: Option<FlowError>)
    ensures
        refused.deep_view() == refusal(Some(flow@)),
{
    if flow.tasks.len() == 0 {
        return Some(FlowError::EmptyFlow);
    }
    if has_cycle(&flow.tasks) {
        return Some(FlowError::CyclicDependency);
    }
    match find_repeat(&flow.tasks) {
        Some(j) => {
            proof {
                lemma_first_repeat_unique(flow@.tasks, j as int);
                assert(flow@.tasks[j as int] == flow.tasks[j as int]@);
            }
            Some(FlowError::Duplicate(flow.tasks[j].id))
        },
        None => None,
    }
}

/// Begins the run of the flow at `flow_idx`.
///
/// The flow is refused if it is not there, has no task, holds a task that
/// is its own ancestor, or holds two tasks with the same id; nothing has
/// been asked of the caller then. Else every task is given its job, on
/// `network` where it runs a container, and the run waits for the probes
/// or, without package dependencies, has scheduled for the first time.
pub fn execute_flow(flow_idx: usize, state: &State, network: &Option<String>) -> (result: Result<
    FlowRun,
    FlowError,
>)
    ensures
        match refusal(chosen_flow(state.flows.deep_view(), flow_idx as int)) {
            Some(error) => result matches Err(refused) && refused@ == error,
            None => result matches Ok(run) && run@ == initial(
                state.flows.deep_view()->0[flow_idx as int],
                jobs_of(
                    state.flows.deep_view()->0[flow_idx as int].tasks,
                    listed(state.blueprints.deep_view()),
                    listed(state.env.deep_view()),
                    network.deep_view(),
                ),
            ) && run@.inv(),
        },
{
    let flow = match &state.flows {
        Some(flows) => {
            if flow_idx < flows.len() {
                assert(flows.deep_view()[flow_idx as int] == flows[flow_idx as int]@);
                &flows[flow_idx]
            } else {
                return Err(FlowError::NoSuchFlow);
            }
        },
        None => {
            return Err(FlowError::NoSuchFlow);
        },
    };
    if let Some(refused) = check_flow(flow) {
        return Err(refused);
    }
    let no_blueprints: Blueprints = Vec::new();
    let no_env: EnvBundles = Vec::new();
    let blueprints = match &state.blueprints {
        Some(blueprints) => blueprints,
        None => &no_blueprints,
    };
    let env = match &state.env {
        Some(env) => env,
        None => &no_env,
    };
    assert(blueprints.deep_view() =~= listed(state.blueprints.deep_view()));
    assert(env.deep_view() =~= listed(state.env.deep_view()));
    let Flow { name: _, tasks, pkg_dependencies } = flow.clone();
    let deps = match pkg_dependencies {
        Some(names) => names,
        None => Vec::new(),
    };
    assert(deps.deep_view() =~= listed(flow@.pkg_dependencies));
    let jobs = dispatch_all(&tasks, blueprints, env, network);
    let mut runners = all_waiting(tasks.len());
    let handles = Registry::new();
    let mut failures: Vec<TaskFailure> = Vec::new();
    assert(failures.deep_view() =~= Seq::<TaskFailureView>::empty());
    let ghost fresh = fresh(flow@, jobs_view(jobs@));
    let pending = if deps.len() > 0 {
        Pending::Probe
    } else {
        schedule(&tasks, &jobs, &mut runners, &handles, &mut failures, Ghost(fresh))
    };
    proof {
        let wanted = initial(flow@, jobs_view(jobs@));
        lemma_initial(flow@, jobs_view(jobs@));
        assert(fresh.runners =~= Seq::new(flow@.tasks.len(), |i: int| Runner::Waiting));
        if fresh.deps.len() == 0 {
            fresh.lemma_untouched_settled();
            fresh.lemma_schedule();
        }
        let built = RunView {
            tasks: tasks.deep_view(),
            deps: deps.deep_view(),
            jobs: jobs_view(jobs@),
            runners: runners@,
            handles: handles@,
            failures: failures.deep_view(),
            pending: pending@,
            abort: None,
        };
        assert(built == wanted);
    }
    let run = FlowRun { tasks, deps, jobs, runners, handles, failures, pending, abort: None };
    Ok(run)
}

impl FlowRun {
    #[verifier::type_invariant]
    spec fn sound(&self) -> bool {
        self@.inv()
    }

    /// The tasks of the flow.
    pub fn tasks(&self) -> (tasks: &Vec<Task>)
        ensures
            tasks.deep_view() == self@.tasks,
    {
        &self.tasks
    }

    /// How far the runner of each task has come, in the order of the tasks.
    pub fn runners(&self) -> (runners: &Vec<Runner>)
        ensures
            runners@ == self@.runners,
            runners.len() == self@.tasks.len(),
    {
        proof {
            use_type_invariant(self);
        }
        &self.runners
    }

    /// The failures recorded so far, in the order in which they occurred.
    pub fn failures(&self) -> (failures: &Vec<TaskFailure>)
        ensures
            failures.deep_view() == self@.failures,
    {
        &self.failures
    }

    /// The handle registry. It holds one entry for each task whose runner
    /// has published a handle, and no other entry.
    pub fn registry(&self) -> (handles: &Registry)
        ensures
            handles@ == self@.handles,
            self@.inv(),
            forall|i: int|
                0 <= i < self@.tasks.len() ==> (self@.runners[i] == Runner::Published
                    <==> handles@.contains_key((#[trigger] self@.tasks[i]).id)),
            forall|id: u32| #[trigger]
                handles@.contains_key(id) ==> position(self@.tasks, id) is Some,
            distinct_ids(self@.tasks),
    {
        proof {
            use_type_invariant(self);
        }
        &self.handles
    }

    /// Whether the run is over.
    pub fn finished(&self) -> (finished: bool)
        ensures
            finished == (self@.pending is Finished),
    {
        match self.pending {
            Pending::Finished => true,
            _ => false,
        }
    }

    fn outcome(&self) -> (result: Result<(), FlowError>)
        ensures
            flow_result(result) == self@.result(),
    {
        match &self.abort {
            Some(error) => Err(error.clone()),
            None => {
                if self.failures.len() == 0 {
                    Ok(())
                } else {
                    Err(FlowError::FlowFailed(copy_failures(&self.failures)))
                }
            },
        }
    }

    /// What the caller has to do next.
    ///
    /// A job is handed out only for a task whose parent has ended with
    /// success. The caller is asked to wait only while some process is
    /// running.
    pub fn action(&self) -> (action: Action)
        ensures
            action@ == self@.action(),
            self@.inv(),
    {
        proof {
            use_type_invariant(self);
        }
        match self.pending {
            Pending::Probe => Action::Probe(plan_probes(&self.deps)),
            Pending::Spawn(i) => {
                assert(self@.tasks[i as int] == self.tasks[i as int]@);
                assert(self@.jobs[i as int] == dispatched(self.jobs[i as int]));
                match &self.jobs[i] {
                    Ok(job) => Action::Spawn { task_id: self.tasks[i].id, job: job.clone() },
                    // Not reached: the task that is dispatching stands for a job.
                    Err(_) => Action::Wait,
                }
            },
            Pending::Exit => Action::Wait,
            Pending::Finished => Action::Finish(self.outcome()),
        }
    }

    /// Takes in what the caller reports and decides how the run goes on.
    /// An event that does not answer the action last asked for changes
    /// nothing.
    pub fn apply(self, event: Event) -> (next: FlowRun)
        ensures
            next@ == self@.after(event@),
            self@.leads_to(next@),
            next@.inv(),
    {
        proof {
            use_type_invariant(&self);
            self@.lemma_after(event@);
        }
        let ghost before = self@;
        let ghost ghost_event = event@;
        let FlowRun { tasks, deps, jobs, runners, handles, failures, pending, abort } = self;
        let mut runners = runners;
        let mut handles = handles;
        let mut failures = failures;
        let mut pending = pending;
        let mut abort = abort;
        match (pending, event) {
            (Pending::Probe, Event::Probed(outcomes)) => {
                match check_package_dependencies(&deps, &outcomes) {
                    Ok(()) => {
                        pending =
                        schedule(
                            &tasks,
                            &jobs,
                            &mut runners,
                            &handles,
                            &mut failures,
                            Ghost(before),
                        );
                        proof {
                            before.lemma_untouched_settled();
                            before.lemma_schedule();
                        }
                    },
                    Err(error) => {
                        abort = Some(error);
                        pending = Pending::Finished;
                    },
                }
            },
            (Pending::Spawn(i), Event::Spawned(outcome)) => {
                assert(before.tasks[i as int] == tasks[i as int]@);
                let ghost middle;
                match outcome {
                    SpawnOutcome::Running => {
                        proof {
                            middle = before.publish(i as int, HandleState::Running);
                            before.lemma_publish(i as int, HandleState::Running);
                        }
                        runners.set(i, Runner::Published);
                        let _ = handles.insert(tasks[i].id, HandleState::Running);
                    },
                    SpawnOutcome::Finished => {
                        proof {
                            middle = before.publish(i as int, HandleState::Succeeded);
                            before.lemma_publish(i as int, HandleState::Succeeded);
                        }
                        runners.set(i, Runner::Published);
                        let _ = handles.insert(tasks[i].id, HandleState::Succeeded);
                    },
                    SpawnOutcome::Failed(error) => {
                        proof {
                            middle = before.give_up(i as int, TaskError::of_job(error));
                            before.lemma_spawn_failed(i as int, TaskError::of_job(error));
                        }
                        runners.set(i, Runner::Absent);
                        record(&mut failures, tasks[i].id, TaskError::from_job(error));
                    },
                }
                pending =
                schedule(&tasks, &jobs, &mut runners, &handles, &mut failures, Ghost(middle));
                proof {
                    middle.lemma_schedule();
                }
            },
            (Pending::Exit, Event::Exited { task_id, outcome }) => {
                let succeeded = match outcome {
                    ExitOutcome::Success => true,
                    _ => false,
                };
                if handles.settle(task_id, succeeded) {
                    let ghost middle = before.exited(task_id, outcome);
                    match outcome {
                        ExitOutcome::Success => {},
                        ExitOutcome::Failure => {
                            record(&mut failures, task_id, TaskError::ExitFailure);
                        },
                        ExitOutcome::Unknown => {
                            record(&mut failures, task_id, TaskError::WaitFailure);
                        },
                    }
                    pending =
                    schedule(&tasks, &jobs, &mut runners, &handles, &mut failures, Ghost(middle));
                    proof {
                        before.lemma_exited(task_id, outcome);
                        middle.lemma_schedule();
                    }
                }
            },
            _ => {},
        }
        let next = FlowRun { tasks, deps, jobs, runners, handles, failures, pending, abort };
        proof {
            let wanted = before.after(ghost_event);
            assert(next@.tasks == wanted.tasks);
            assert(next@.deps == wanted.deps);
            assert(next@.jobs == wanted.jobs);
            assert(next@.handles == wanted.handles);
            assert(next@.abort == wanted.abort);
            assert(next@.runners == wanted.runners);
            assert(next@.failures == wanted.failures);
            assert(next@.pending == wanted.pending);
        }
        next
    }
}

} // verus!
