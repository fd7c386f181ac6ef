//! The model of a run: its mathematical value, what each answer of the caller
//! makes of it, and what holds of it at every moment.

use crate::engine::error::{FlowErrorView, TaskError, TaskErrorView, TaskFailureView};
use crate::engine::executor::{
    ActionView, EventView, ExitOutcome, PendingView, ProbeOutcome, ProbeView, Readiness, Runner,
    SpawnOutcome,
};
use crate::engine::graph::{cyclic, distinct_ids, first_repeat, position};
use crate::engine::job::{shell_invocation, InvocationView};
use crate::engine::state::HandleState;
use crate::engine::task::{dispatch, parent_wait, JobView, ParentWait};
use crate::engine::text::listed;
use crate::model::runer::{BlueprintView, FlowView, PairsView, TaskView};
use vstd::prelude::*;

verus! {

/// The probe for the package dependency `name`: a shell that looks the
/// command up, with its output discarded.
pub open spec fn probe_invocation(name: Seq<char>) -> InvocationView {
    shell_invocation("command -v "@ + name, true)
}

/// The probe for the package dependency `name`.
pub open spec fn probe_of(name: Seq<char>) -> ProbeView {
    ProbeView { name, invocation: probe_invocation(name) }
}

/// The probes for the package dependencies `deps`, one for each in order.
pub open spec fn probes(deps: Seq<Seq<char>>) -> Seq<ProbeView> {
    deps.map_values(|name: Seq<char>| probe_of(name))
}

/// Why the flow cannot go on after its probes, if it cannot. The package
/// dependencies are gone through in order, each with the outcome of its
/// probe: one that was not found is missing, and one whose probe could not
/// be run, or has no outcome, is an error of its own.
pub open spec fn preflight(deps: Seq<Seq<char>>, outcomes: Seq<ProbeOutcome>) -> Option<
    FlowErrorView,
>
    decreases deps.len(),
{
    if deps.len() == 0 {
        None
    } else if outcomes.len() == 0 {
        Some(FlowErrorView::Io)
    } else {
        match outcomes[0] {
            ProbeOutcome::Found => preflight(deps.skip(1), outcomes.skip(1)),
            ProbeOutcome::Missing => Some(FlowErrorView::MissingDependency(deps[0])),
            ProbeOutcome::Io => Some(FlowErrorView::Io),
        }
    }
}

/// The number of runners that are `Waiting`.
pub open spec fn waiting_count(runners: Seq<Runner>) -> nat
    decreases runners.len(),
{
    if runners.len() == 0 {
        0
    } else {
        waiting_count(runners.drop_last()) + (if runners.last() == Runner::Waiting {
            1nat
        } else {
            0nat
        })
    }
}

/// How many answers a runner may still take: a waiting runner may be handed
/// to the driver, be answered by it, and start a process that has to end; a
/// dispatching runner has the last two of these before it.
pub open spec fn weight(runner: Runner) -> nat {
    match runner {
        Runner::Waiting => 3,
        Runner::Dispatching => 2,
        _ => 0,
    }
}

/// The sum of the weights of `runners`.
pub open spec fn load(runners: Seq<Runner>) -> nat
    decreases runners.len(),
{
    if runners.len() == 0 {
        0
    } else {
        load(runners.drop_last()) + weight(runners.last())
    }
}

/// Whether the registry holds a running process for the id `id`.
pub open spec fn is_running(handles: Map<u32, HandleState>, id: u32) -> bool {
    handles.contains_key(id) && handles[id] == HandleState::Running
}

/// The number of tasks whose process is running.
pub open spec fn running_count(tasks: Seq<TaskView>, handles: Map<u32, HandleState>) -> nat
    decreases tasks.len(),
{
    if tasks.len() == 0 {
        0
    } else {
        running_count(tasks.drop_last(), handles) + (if is_running(handles, tasks.last().id) {
            1nat
        } else {
            0nat
        })
    }
}

/// Mathematical value of a [`FlowRun`].
pub struct RunView {
    /// The tasks of the flow.
    pub tasks: Seq<TaskView>,
    /// The package dependencies of the flow.
    pub deps: Seq<Seq<char>>,
    /// For each task, the job it stands for or why it stands for none.
    pub jobs: Seq<Result<JobView, TaskErrorView>>,
    /// For each task, how far its runner has come.
    pub runners: Seq<Runner>,
    /// The handle registry.
    pub handles: Map<u32, HandleState>,
    /// The failures of tasks, in the order in which they were recorded.
    pub failures: Seq<TaskFailureView>,
    /// What the run is waiting for.
    pub pending: PendingView,
    /// Why the run ended before any task was started, if it did.
    pub abort: Option<FlowErrorView>,
}

impl RunView {
    /// A bound on the number of answers that the run still takes before it
    /// is over: one for the probes if they are outstanding, what the runners
    /// have before them, and one for each running process.
    pub open spec fn remaining(self) -> nat {
        (match self.pending {
            PendingView::Probe => 1nat,
            _ => 0nat,
        }) + load(self.runners) + running_count(self.tasks, self.handles)
    }

    /// Whether the waiting task at `i` may start, going by the registry
    /// and, for a parent without an entry, by the parent's runner: a parent
    /// that reported an absent handle, or that is no task of the flow, will
    /// never have an entry.
    pub open spec fn readiness(self, i: int) -> Readiness {
        match self.tasks[i].depends {
            None => Readiness::Ready,
            Some(id) => match parent_wait(self.handles, id) {
                ParentWait::Ready => Readiness::Ready,
                ParentWait::Blocked => Readiness::Blocked(id),
                ParentWait::Running => Readiness::Pending,
                ParentWait::Unpublished => match position(self.tasks, id) {
                    Some(j) => if self.runners[j] == Runner::Absent {
                        Readiness::Blocked(id)
                    } else {
                        Readiness::Pending
                    },
                    None => Readiness::Blocked(id),
                },
            },
        }
    }

    /// Whether the task at `i` is waiting and can be decided: it may start
    /// or will never start.
    pub open spec fn actionable(self, i: int) -> bool {
        &&& 0 <= i < self.tasks.len()
        &&& i < self.runners.len()
        &&& self.runners[i] == Runner::Waiting
        &&& self.readiness(i) != Readiness::Pending
    }

    /// The first task from `from` on that is actionable.
    pub open spec fn first_actionable(self, from: int) -> Option<int>
        decreases self.tasks.len() - from,
    {
        if from < 0 || from >= self.tasks.len() {
            None
        } else if self.actionable(from) {
            Some(from)
        } else {
            self.first_actionable(from + 1)
        }
    }

    /// Whether the process of some task is running.
    pub open spec fn some_running(self) -> bool {
        exists|i: int|
            0 <= i < self.tasks.len() && self.handles.contains_key((#[trigger] self.tasks[i]).id)
                && self.handles[self.tasks[i].id] == HandleState::Running
    }

    /// The run after the task at `i` has reported an absent handle because
    /// of `error`.
    pub open spec fn give_up(self, i: int, error: TaskErrorView) -> RunView {
        RunView {
            runners: self.runners.update(i, Runner::Absent),
            failures: self.failures.push(
                TaskFailureView { task_id: self.tasks[i].id, error },
            ),
            ..self
        }
    }

    /// The run after the process of the task at `i` has been entered into
    /// the registry.
    pub open spec fn publish(self, i: int, handle: HandleState) -> RunView {
        RunView {
            runners: self.runners.update(i, Runner::Published),
            handles: self.handles.insert(self.tasks[i].id, handle),
            ..self
        }
    }

    /// The run after every waiting task that can be decided has been
    /// decided, up to the first that is handed to the driver.
    ///
    /// As long as some waiting task is actionable, the first such task is
    /// taken. A blocked task, and a ready task that stands for no job,
    /// reports an absent handle, and the failure is recorded. A ready task
    /// with a job moves to `Dispatching`, and the run waits for the driver.
    /// Once no task is actionable, the run waits for a process to end, or is
    /// over if none is running.
    pub open spec fn schedule(self) -> RunView
        decreases waiting_count(self.runners),
        via Self::schedule_terminates
    {
        match self.first_actionable(0) {
            Some(i) => match self.readiness(i) {
                Readiness::Blocked(parent_id) => self.give_up(
                    i,
                    TaskErrorView::Blocked(parent_id),
                ).schedule(),
                Readiness::Ready => match self.jobs[i] {
                    Ok(_) => RunView {
                        runners: self.runners.update(i, Runner::Dispatching),
                        pending: PendingView::Spawn(i as nat),
                        ..self
                    },
                    Err(error) => self.give_up(i, error).schedule(),
                },
                Readiness::Pending => self,
            },
            None => RunView {
                pending: if self.some_running() {
                    PendingView::Exit
                } else {
                    PendingView::Finished
                },
                ..self
            },
        }
    }

    #[via_fn]
    proof fn schedule_terminates(self) {
        if let Some(i) = self.first_actionable(0) {
            self.lemma_first_actionable(0);
            lemma_one_less_waiting(self.runners, i, Runner::Absent);
        }
    }

    /// The run after the process of the task `task_id` has ended.
    pub open spec fn exited(self, task_id: u32, outcome: ExitOutcome) -> RunView {
        match outcome {
            ExitOutcome::Success => RunView {
                handles: self.handles.insert(task_id, HandleState::Succeeded),
                ..self
            },
            ExitOutcome::Failure => RunView {
                handles: self.handles.insert(task_id, HandleState::Failed),
                failures: self.failures.push(
                    TaskFailureView { task_id, error: TaskErrorView::ExitFailure },
                ),
                ..self
            },
            ExitOutcome::Unknown => RunView {
                handles: self.handles.insert(task_id, HandleState::Failed),
                failures: self.failures.push(
                    TaskFailureView { task_id, error: TaskErrorView::WaitFailure },
                ),
                ..self
            },
        }
    }

    /// The run after the caller has reported `event`.
    ///
    /// An event that does not answer what the run is waiting for changes
    /// nothing. Probes that found every package are followed by the first
    /// round of scheduling; any other outcome of the probes ends the run.
    /// The outcome of a job publishes the task's
    /// handle, or records its failure. The end of a running process settles
    /// its entry in the registry, and is recorded as a failure unless it was
    /// a success. After each of these the run schedules again.
    pub open spec fn after(self, event: EventView) -> RunView {
        match (self.pending, event) {
            (PendingView::Probe, EventView::Probed(outcomes)) => match preflight(
                self.deps,
                outcomes,
            ) {
                None => self.schedule(),
                Some(error) => RunView {
                    pending: PendingView::Finished,
                    abort: Some(error),
                    ..self
                },
            },
            (PendingView::Spawn(i), EventView::Spawned(outcome)) => match outcome {
                SpawnOutcome::Running => self.publish(i as int, HandleState::Running).schedule(),
                SpawnOutcome::Finished => self.publish(
                    i as int,
                    HandleState::Succeeded,
                ).schedule(),
                SpawnOutcome::Failed(error) => self.give_up(
                    i as int,
                    TaskError::of_job(error),
                ).schedule(),
            },
            (PendingView::Exit, EventView::Exited { task_id, outcome }) => if self.handles.contains_key(
                task_id,
            ) && self.handles[task_id] == HandleState::Running {
                self.exited(task_id, outcome).schedule()
            } else {
                self
            },
            _ => self,
        }
    }

    /// The result of a run that is over: the reason for which it ended
    /// before any task was started, else the failures of its tasks, else
    /// success.
    pub open spec fn result(self) -> Result<(), FlowErrorView> {
        match self.abort {
            Some(error) => Err(error),
            None => if self.failures.len() == 0 {
                Ok(())
            } else {
                Err(FlowErrorView::FlowFailed(self.failures))
            },
        }
    }

    /// What the caller has to do next.
    pub open spec fn action(self) -> ActionView {
        match self.pending {
            PendingView::Probe => ActionView::Probe(probes(self.deps)),
            PendingView::Spawn(i) => ActionView::Spawn {
                task_id: self.tasks[i as int].id,
                job: self.jobs[i as int]->Ok_0,
            },
            PendingView::Exit => ActionView::Wait,
            PendingView::Finished => ActionView::Finish(self.result()),
        }
    }

    /// The flow is not empty, no two of its tasks have the same id, no task
    /// is its own ancestor, and each task has a runner and a job.
    pub open spec fn shaped(self) -> bool {
        &&& self.tasks.len() > 0
        &&& self.jobs.len() == self.tasks.len()
        &&& self.runners.len() == self.tasks.len()
        &&& distinct_ids(self.tasks)
        &&& !cyclic(self.tasks)
    }

    /// The registry holds an entry for exactly those tasks whose runner has
    /// published a handle, and for nothing else.
    pub open spec fn registered(self) -> bool {
        &&& forall|i: int|
            0 <= i < self.tasks.len() ==> (self.runners[i] == Runner::Published
                <==> self.handles.contains_key((#[trigger] self.tasks[i]).id))
        &&& forall|id: u32| #[trigger]
            self.handles.contains_key(id) ==> position(self.tasks, id) is Some
    }

    /// The parent of every task that was handed to the driver had finished
    /// with success.
    pub open spec fn ordered(self) -> bool {
        forall|i: int|
            0 <= i < self.tasks.len() && (self.runners[i] == Runner::Dispatching || self.runners[i]
                == Runner::Published) ==> match (#[trigger] self.tasks[i]).depends {
                Some(parent_id) => self.handles.contains_key(parent_id) && self.handles[parent_id]
                    == HandleState::Succeeded,
                None => true,
            }
    }

    /// No job is with the driver.
    pub open spec fn quiet(self) -> bool {
        forall|i: int| 0 <= i < self.runners.len() ==> #[trigger] self.runners[i] != Runner::Dispatching
    }

    /// No task has been decided.
    pub open spec fn untouched(self) -> bool {
        &&& forall|i: int| 0 <= i < self.runners.len() ==> #[trigger] self.runners[i] == Runner::Waiting
        &&& self.handles == Map::<u32, HandleState>::empty()
        &&& self.failures.len() == 0
    }

    /// Every task has been decided.
    pub open spec fn decided(self) -> bool {
        forall|i: int| 0 <= i < self.runners.len() ==> #[trigger] self.runners[i] != Runner::Waiting
    }

    /// What holds of a run between an outcome and the next scheduling.
    pub open spec fn settled(self) -> bool {
        &&& self.shaped()
        &&& self.registered()
        &&& self.ordered()
        &&& self.quiet()
        &&& self.abort is None
    }

    /// What holds of every run.
    ///
    /// While the packages are probed no task has been decided. While a job
    /// is with the driver, it is the job of the one task that is
    /// `Dispatching`. While the run waits for a process to end, some process
    /// is running. When the run is over, either it ended before any task
    /// was decided, or every task has been decided and no process is
    /// running.
    pub open spec fn inv(self) -> bool {
        &&& self.shaped()
        &&& self.registered()
        &&& self.ordered()
        &&& match self.pending {
            PendingView::Probe => self.deps.len() > 0 && self.abort is None && self.untouched(),
            PendingView::Spawn(i) => {
                &&& i < self.tasks.len()
                &&& self.runners[i as int] == Runner::Dispatching
                &&& self.jobs[i as int] is Ok
                &&& self.abort is None
                &&& forall|j: int|
                    0 <= j < self.runners.len() && j != i ==> #[trigger] self.runners[j]
                        != Runner::Dispatching
            },
            PendingView::Exit => self.abort is None && self.quiet() && self.some_running(),
            PendingView::Finished => {
                &&& self.quiet()
                &&& self.abort is Some ==> self.untouched()
                &&& self.abort is None ==> self.decided() && !self.some_running()
            },
        }
    }

    /// What `first_actionable` finds is actionable, and nothing before it
    /// is.
    pub proof fn lemma_first_actionable(self, from: int)
        requires
            0 <= from,
        ensures
            match self.first_actionable(from) {
                Some(i) => from <= i && self.actionable(i) && forall|j: int|
                    from <= j < i ==> !self.actionable(j),
                None => forall|j: int| from <= j ==> !self.actionable(j),
            },
        decreases self.tasks.len() - from,
    {
        if from < self.tasks.len() && !self.actionable(from) {
            self.lemma_first_actionable(from + 1);
        }
    }
}

/// A waiting runner that moves on leaves one waiting runner less.
pub proof fn lemma_one_less_waiting(runners: Seq<Runner>, i: int, moved: Runner)
    requires
        0 <= i < runners.len(),
        runners[i] == Runner::Waiting,
        moved != Runner::Waiting,
    ensures
        waiting_count(runners.update(i, moved)) + 1 == waiting_count(runners),
    decreases runners.len(),
{
    let after = runners.update(i, moved);
    if i == runners.len() - 1 {
        assert(after.drop_last() =~= runners.drop_last());
    } else {
        lemma_one_less_waiting(runners.drop_last(), i, moved);
        assert(after.drop_last() =~= runners.drop_last().update(i, moved));
    }
}

/// Whether a runner may move from `before` to `after`: it stays where it is,
/// leaves `Waiting`, or goes from `Dispatching` to its end.
pub open spec fn advanced(before: Runner, after: Runner) -> bool {
    ||| before == after
    ||| before == Runner::Waiting
    ||| before == Runner::Dispatching && (after == Runner::Published || after == Runner::Absent)
}

impl RunView {
    /// Whether `next` can follow this run: the flow is the same, no runner
    /// has moved backwards, no entry has left the registry, no entry that
    /// had ended has changed, and no recorded failure was dropped.
    pub open spec fn leads_to(self, next: RunView) -> bool {
        &&& next.tasks == self.tasks
        &&& next.deps == self.deps
        &&& next.jobs == self.jobs
        &&& next.runners.len() == self.runners.len()
        &&& forall|i: int|
            0 <= i < self.runners.len() ==> advanced(self.runners[i], #[trigger] next.runners[i])
        &&& forall|id: u32| #[trigger]
            self.handles.contains_key(id) ==> next.handles.contains_key(id) && (self.handles[id]
                != HandleState::Running ==> next.handles[id] == self.handles[id])
        &&& self.failures.len() <= next.failures.len()
        &&& next.failures.take(self.failures.len() as int) == self.failures
    }
}

/// The run of `flow` in which nothing has happened yet, with `jobs` the jobs
/// of its tasks: every task waits, the registry is empty, and the probes
/// are outstanding.
pub open spec fn fresh(flow: FlowView, jobs: Seq<Result<JobView, TaskErrorView>>) -> RunView {
    RunView {
        tasks: flow.tasks,
        deps: listed(flow.pkg_dependencies),
        jobs,
        runners: Seq::new(flow.tasks.len(), |i: int| Runner::Waiting),
        handles: Map::empty(),
        failures: Seq::empty(),
        pending: PendingView::Probe,
        abort: None,
    }
}

/// The run of `flow` as it is handed to the caller: it waits for the
/// probes, or has scheduled for the first time where the flow has no
/// package dependency.
pub open spec fn initial(flow: FlowView, jobs: Seq<Result<JobView, TaskErrorView>>) -> RunView {
    if fresh(flow, jobs).deps.len() > 0 {
        fresh(flow, jobs)
    } else {
        fresh(flow, jobs).schedule()
    }
}

/// The flow at `idx`, if there is one.
pub open spec fn chosen_flow(flows: Option<Seq<FlowView>>, idx: int) -> Option<FlowView> {
    match flows {
        Some(flows) => if 0 <= idx < flows.len() {
            Some(flows[idx])
        } else {
            None
        },
        None => None,
    }
}

/// Index of the first task whose id an earlier task has too.
pub open spec fn repeat_index(tasks: Seq<TaskView>) -> int {
    choose|j: int| first_repeat(tasks, j)
}

/// Why the flow cannot be run, if it cannot: there is no such flow, it is
/// empty, some task is its own ancestor, or two tasks have the same id.
pub open spec fn refusal(flow: Option<FlowView>) -> Option<FlowErrorView> {
    match flow {
        None => Some(FlowErrorView::NoSuchFlow),
        Some(flow) => if flow.tasks.len() == 0 {
            Some(FlowErrorView::EmptyFlow)
        } else if cyclic(flow.tasks) {
            Some(FlowErrorView::CyclicDependency)
        } else if !distinct_ids(flow.tasks) {
            Some(FlowErrorView::Duplicate(flow.tasks[repeat_index(flow.tasks)].id))
        } else {
            None
        },
    }
}

/// The jobs of `tasks`, each as the dispatch decides it.
pub open spec fn jobs_of(
    tasks: Seq<TaskView>,
    blueprints: Seq<(Seq<char>, BlueprintView)>,
    env: Seq<(Seq<char>, PairsView)>,
    network: Option<Seq<char>>,
) -> Seq<Result<JobView, TaskErrorView>> {
    tasks.map_values(|task: TaskView| dispatch(task, blueprints, env, network))
}

} // verus!
