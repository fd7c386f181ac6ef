//! Why the moves of a run keep what holds of every run.

use crate::engine::error::{TaskError, TaskErrorView};
use crate::engine::executor::run::{
    advanced, fresh, initial, is_running, lemma_one_less_waiting, load, preflight, repeat_index,
    running_count,
    waiting_count, weight, RunView,
};
use crate::engine::executor::{
    EventView, ExitOutcome, PendingView, Readiness, Runner, SpawnOutcome,
};
use crate::engine::graph::{
    ancestor, cyclic, distinct_ids, first_repeat, lemma_long_chain_is_cyclic, lemma_position,
    parent, position,
};
use crate::engine::state::HandleState;
use crate::engine::task::{parent_wait, JobView, ParentWait};
use crate::engine::text::listed;
use crate::model::runer::{FlowView, TaskView};
use vstd::prelude::*;

verus! {

impl RunView {
    /// In a run in which no waiting task can be decided and no process is
    /// running, every ancestor of a waiting task is a waiting task.
    pub proof fn lemma_waiting_chain(self, i: int, k: nat)
        requires
            self.shaped(),
            self.registered(),
            self.quiet(),
            forall|j: int| !self.actionable(j),
            !self.some_running(),
            0 <= i < self.tasks.len(),
            self.runners[i] == Runner::Waiting,
        ensures
            ancestor(self.tasks, i, k) matches Some(j) && 0 <= j < self.tasks.len()
                && self.runners[j] == Runner::Waiting,
        decreases k,
    {
        if k > 0 {
            self.lemma_waiting_chain(i, (k - 1) as nat);
            let j = ancestor(self.tasks, i, (k - 1) as nat)->0;
            assert(!self.actionable(j));
            assert(self.readiness(j) == Readiness::Pending);
            let id = self.tasks[j].depends->0;
            lemma_position(self.tasks, id);
            match parent_wait(self.handles, id) {
                ParentWait::Running => {
                    assert(self.handles.contains_key(id));
                    let p = position(self.tasks, id)->0;
                    assert(self.tasks[p].id == id);
                    assert(self.some_running());
                },
                ParentWait::Unpublished => {
                    let p = position(self.tasks, id)->0;
                    assert(self.tasks[p].id == id);
                    assert(self.runners[p] != Runner::Dispatching);
                    assert(self.runners[p] != Runner::Published);
                    assert(parent(self.tasks, j) == Some(p));
                },
                _ => {},
            }
        }
    }

    /// Where no waiting task can be decided and no process is running, no
    /// task is waiting: a run cannot come to a halt with work left undone.
    pub proof fn lemma_progress(self)
        requires
            self.shaped(),
            self.registered(),
            self.quiet(),
            forall|j: int| !self.actionable(j),
            !self.some_running(),
        ensures
            self.decided(),
    {
        assert forall|i: int| 0 <= i < self.runners.len() implies #[trigger] self.runners[i]
            != Runner::Waiting by {
            if self.runners[i] == Runner::Waiting {
                self.lemma_waiting_chain(i, self.tasks.len());
                lemma_long_chain_is_cyclic(self.tasks, i);
            }
        }
    }

    /// A waiting task that reports an absent handle leaves a run that can be
    /// scheduled, with less before it.
    pub proof fn lemma_give_up(self, i: int, error: TaskErrorView)
        requires
            self.settled(),
            0 <= i < self.tasks.len(),
            self.runners[i] == Runner::Waiting,
        ensures
            self.give_up(i, error).settled(),
            self.leads_to(self.give_up(i, error)),
            self.give_up(i, error).handles == self.handles,
            waiting_count(self.give_up(i, error).runners) < waiting_count(self.runners),
            load(self.give_up(i, error).runners) < load(self.runners),
    {
        let next = self.give_up(i, error);
        lemma_one_less_waiting(self.runners, i, Runner::Absent);
        lemma_load_update(self.runners, i, Runner::Absent);
        assert(next.registered()) by {
            assert forall|j: int| 0 <= j < next.tasks.len() implies (next.runners[j]
                == Runner::Published <==> next.handles.contains_key(
                (#[trigger] next.tasks[j]).id,
            )) by {
                assert(self.runners[j] == Runner::Published <==> self.handles.contains_key(
                    self.tasks[j].id,
                ));
            }
        }
        assert(next.ordered()) by {
            assert forall|j: int|
                0 <= j < next.tasks.len() && (next.runners[j] == Runner::Dispatching
                    || next.runners[j] == Runner::Published) implies match (
            #[trigger] next.tasks[j]).depends {
                Some(parent_id) => next.handles.contains_key(parent_id) && next.handles[parent_id]
                    == HandleState::Succeeded,
                None => true,
            } by {
                assert(self.runners[j] == next.runners[j]);
                assert(self.tasks[j] == next.tasks[j]);
            }
        }
        assert(next.failures.take(self.failures.len() as int) =~= self.failures);
    }

    /// Scheduling keeps what holds of every run, and touches neither the
    /// registry nor a runner that is not waiting.
    pub proof fn lemma_schedule(self)
        requires
            self.settled(),
        ensures
            self.schedule().inv(),
            self.leads_to(self.schedule()),
            self.schedule().handles == self.handles,
            self.schedule().abort is None,
            !(self.schedule().pending is Probe),
            load(self.schedule().runners) <= load(self.runners),
        decreases waiting_count(self.runners),
    {
        self.lemma_first_actionable(0);
        match self.first_actionable(0) {
            Some(i) => {
                match self.readiness(i) {
                    Readiness::Blocked(parent_id) => {
                        let next = self.give_up(i, TaskErrorView::Blocked(parent_id));
                        self.lemma_give_up(i, TaskErrorView::Blocked(parent_id));
                        next.lemma_schedule();
                        self.lemma_leads_on(next, next.schedule());
                    },
                    Readiness::Ready => {
                        match self.jobs[i] {
                            Ok(_) => {
                                let next = self.schedule();
                                assert(next.runners == self.runners.update(i, Runner::Dispatching));
                                lemma_load_update(self.runners, i, Runner::Dispatching);
                                assert(next.registered()) by {
                                    assert forall|j: int| 0 <= j < next.tasks.len() implies (
                                    next.runners[j] == Runner::Published
                                        <==> next.handles.contains_key(
                                        (#[trigger] next.tasks[j]).id,
                                    )) by {
                                        assert(self.runners[j] == Runner::Published
                                            <==> self.handles.contains_key(self.tasks[j].id));
                                    }
                                }
                                assert(next.ordered()) by {
                                    assert forall|j: int|
                                        0 <= j < next.tasks.len() && (next.runners[j]
                                            == Runner::Dispatching || next.runners[j]
                                            == Runner::Published) implies match (
                                    #[trigger] next.tasks[j]).depends {
                                        Some(parent_id) => next.handles.contains_key(parent_id)
                                            && next.handles[parent_id] == HandleState::Succeeded,
                                        None => true,
                                    } by {
                                        if j != i {
                                            assert(self.runners[j] == next.runners[j]);
                                            assert(self.tasks[j] == next.tasks[j]);
                                        }
                                    }
                                }
                                assert(next.failures.take(self.failures.len() as int)
                                    =~= self.failures);
                            },
                            Err(error) => {
                                let next = self.give_up(i, error);
                                self.lemma_give_up(i, error);
                                next.lemma_schedule();
                                self.lemma_leads_on(next, next.schedule());
                            },
                        }
                    },
                    Readiness::Pending => {},
                }
            },
            None => {
                let next = self.schedule();
                assert(next.failures.take(self.failures.len() as int) =~= self.failures);
                if !self.some_running() {
                    self.lemma_progress();
                }
                assert(next.some_running() == self.some_running());
            },
        }
    }

    /// What can follow a run that can follow this one can follow this one.
    pub proof fn lemma_leads_on(self, middle: RunView, last: RunView)
        requires
            self.leads_to(middle),
            middle.leads_to(last),
        ensures
            self.leads_to(last),
    {
        assert forall|i: int| 0 <= i < self.runners.len() implies advanced(
            self.runners[i],
            #[trigger] last.runners[i],
        ) by {
            assert(advanced(self.runners[i], middle.runners[i]));
            assert(advanced(middle.runners[i], last.runners[i]));
        }
        assert forall|id: u32| #[trigger] self.handles.contains_key(id) implies last.handles.contains_key(
            id,
        ) && (self.handles[id] != HandleState::Running ==> last.handles[id]
            == self.handles[id]) by {
            assert(middle.handles.contains_key(id));
        }
        assert(last.failures.take(self.failures.len() as int) =~= self.failures) by {
            assert(middle.failures.take(self.failures.len() as int) == self.failures);
            assert(last.failures.take(middle.failures.len() as int) == middle.failures);
            assert forall|k: int| 0 <= k < self.failures.len() implies last.failures[k]
                == self.failures[k] by {
                assert(middle.failures.take(self.failures.len() as int)[k] == self.failures[k]);
                assert(last.failures.take(middle.failures.len() as int)[k] == middle.failures[k]);
            }
        }
    }
}

impl RunView {
    /// The task whose job is with the driver can publish its handle: its id
    /// has no entry yet, and the run can be scheduled afterwards.
    pub proof fn lemma_publish(self, i: int, handle: HandleState)
        requires
            self.inv(),
            self.pending == PendingView::Spawn(i as nat),
            i >= 0,
        ensures
            self.publish(i, handle).settled(),
            self.leads_to(self.publish(i, handle)),
    {
        let next = self.publish(i, handle);
        let id = self.tasks[i].id;
        assert(!self.handles.contains_key(id));
        lemma_position(self.tasks, id);
        assert(next.registered()) by {
            assert forall|j: int| 0 <= j < next.tasks.len() implies (next.runners[j]
                == Runner::Published <==> next.handles.contains_key(
                (#[trigger] next.tasks[j]).id,
            )) by {
                assert(self.runners[j] == Runner::Published <==> self.handles.contains_key(
                    self.tasks[j].id,
                ));
                if j < i {
                    assert(self.tasks[j].id != self.tasks[i].id);
                } else if i < j {
                    assert(self.tasks[i].id != self.tasks[j].id);
                }
            }
            assert forall|other: u32| #[trigger] next.handles.contains_key(other) implies position(
                next.tasks,
                other,
            ) is Some by {
                if other != id {
                    assert(self.handles.contains_key(other));
                }
            }
        }
        assert(next.ordered()) by {
            assert forall|j: int|
                0 <= j < next.tasks.len() && (next.runners[j] == Runner::Dispatching
                    || next.runners[j] == Runner::Published) implies match (
            #[trigger] next.tasks[j]).depends {
                Some(parent_id) => next.handles.contains_key(parent_id) && next.handles[parent_id]
                    == HandleState::Succeeded,
                None => true,
            } by {
                assert(self.tasks[j] == next.tasks[j]);
                assert(self.runners[j] == Runner::Dispatching || self.runners[j]
                    == Runner::Published);
            }
        }
        assert(next.quiet()) by {
            assert forall|j: int| 0 <= j < next.runners.len() implies #[trigger] next.runners[j]
                != Runner::Dispatching by {
                if j != i {
                    assert(self.runners[j] != Runner::Dispatching);
                }
            }
        }
        assert(next.failures.take(self.failures.len() as int) =~= self.failures);
    }

    /// The task whose job is with the driver can report an absent handle,
    /// and the run can be scheduled afterwards.
    pub proof fn lemma_spawn_failed(self, i: int, error: TaskErrorView)
        requires
            self.inv(),
            self.pending == PendingView::Spawn(i as nat),
            i >= 0,
        ensures
            self.give_up(i, error).settled(),
            self.leads_to(self.give_up(i, error)),
    {
        let next = self.give_up(i, error);
        assert(next.registered()) by {
            assert forall|j: int| 0 <= j < next.tasks.len() implies (next.runners[j]
                == Runner::Published <==> next.handles.contains_key(
                (#[trigger] next.tasks[j]).id,
            )) by {
                assert(self.runners[j] == Runner::Published <==> self.handles.contains_key(
                    self.tasks[j].id,
                ));
            }
        }
        assert(next.ordered()) by {
            assert forall|j: int|
                0 <= j < next.tasks.len() && (next.runners[j] == Runner::Dispatching
                    || next.runners[j] == Runner::Published) implies match (
            #[trigger] next.tasks[j]).depends {
                Some(parent_id) => next.handles.contains_key(parent_id) && next.handles[parent_id]
                    == HandleState::Succeeded,
                None => true,
            } by {
                assert(self.tasks[j] == next.tasks[j]);
                assert(self.runners[j] == next.runners[j]);
            }
        }
        assert(next.quiet()) by {
            assert forall|j: int| 0 <= j < next.runners.len() implies #[trigger] next.runners[j]
                != Runner::Dispatching by {
                if j != i {
                    assert(self.runners[j] != Runner::Dispatching);
                }
            }
        }
        assert(next.failures.take(self.failures.len() as int) =~= self.failures);
    }

    /// A running process can end, and the run can be scheduled afterwards.
    pub proof fn lemma_exited(self, task_id: u32, outcome: ExitOutcome)
        requires
            self.inv(),
            self.pending == PendingView::Exit,
            self.handles.contains_key(task_id),
            self.handles[task_id] == HandleState::Running,
        ensures
            self.exited(task_id, outcome).settled(),
            self.leads_to(self.exited(task_id, outcome)),
    {
        let next = self.exited(task_id, outcome);
        assert(next.registered()) by {
            assert forall|j: int| 0 <= j < next.tasks.len() implies (next.runners[j]
                == Runner::Published <==> next.handles.contains_key(
                (#[trigger] next.tasks[j]).id,
            )) by {
                assert(self.runners[j] == Runner::Published <==> self.handles.contains_key(
                    self.tasks[j].id,
                ));
            }
            assert forall|other: u32| #[trigger] next.handles.contains_key(other) implies position(
                next.tasks,
                other,
            ) is Some by {
                assert(self.handles.contains_key(other));
            }
        }
        assert(next.ordered()) by {
            assert forall|j: int|
                0 <= j < next.tasks.len() && (next.runners[j] == Runner::Dispatching
                    || next.runners[j] == Runner::Published) implies match (
            #[trigger] next.tasks[j]).depends {
                Some(parent_id) => next.handles.contains_key(parent_id) && next.handles[parent_id]
                    == HandleState::Succeeded,
                None => true,
            } by {
                assert(self.tasks[j] == next.tasks[j]);
                assert(self.runners[j] == next.runners[j]);
            }
        }
        assert(next.failures.take(self.failures.len() as int) =~= self.failures);
    }

    /// A run that is waiting for probes has decided no task: it can be
    /// scheduled.
    pub proof fn lemma_untouched_settled(self)
        requires
            self.shaped(),
            self.untouched(),
            self.abort is None,
        ensures
            self.settled(),
    {
        assert(self.registered()) by {
            assert forall|i: int| 0 <= i < self.tasks.len() implies (self.runners[i]
                == Runner::Published <==> self.handles.contains_key(
                (#[trigger] self.tasks[i]).id,
            )) by {
                assert(self.runners[i] == Runner::Waiting);
            }
        }
        assert(self.ordered()) by {
            assert forall|i: int|
                0 <= i < self.tasks.len() && (self.runners[i] == Runner::Dispatching
                    || self.runners[i] == Runner::Published) implies match (
            #[trigger] self.tasks[i]).depends {
                Some(parent_id) => self.handles.contains_key(parent_id) && self.handles[parent_id]
                    == HandleState::Succeeded,
                None => true,
            } by {
                assert(self.runners[i] == Runner::Waiting);
            }
        }
        assert(self.quiet()) by {
            assert forall|i: int| 0 <= i < self.runners.len() implies #[trigger] self.runners[i]
                != Runner::Dispatching by {
                assert(self.runners[i] == Runner::Waiting);
            }
        }
    }

    /// Whatever the caller reports, what holds of every run holds of the run
    /// that follows, and the run that follows has lost nothing.
    pub proof fn lemma_after(self, event: EventView)
        requires
            self.inv(),
        ensures
            self.after(event).inv(),
            self.leads_to(self.after(event)),
    {
        let next = self.after(event);
        assert(self.failures.take(self.failures.len() as int) =~= self.failures);
        match (self.pending, event) {
            (PendingView::Probe, EventView::Probed(outcomes)) => {
                self.lemma_untouched_settled();
                if preflight(self.deps, outcomes) is None {
                    self.lemma_schedule();
                }
            },
            (PendingView::Spawn(i), EventView::Spawned(outcome)) => {
                match outcome {
                    SpawnOutcome::Running => {
                        let middle = self.publish(i as int, HandleState::Running);
                        self.lemma_publish(i as int, HandleState::Running);
                        middle.lemma_schedule();
                        self.lemma_leads_on(middle, next);
                    },
                    SpawnOutcome::Finished => {
                        let middle = self.publish(i as int, HandleState::Succeeded);
                        self.lemma_publish(i as int, HandleState::Succeeded);
                        middle.lemma_schedule();
                        self.lemma_leads_on(middle, next);
                    },
                    SpawnOutcome::Failed(error) => {
                        let middle = self.give_up(i as int, TaskError::of_job(error));
                        self.lemma_spawn_failed(i as int, TaskError::of_job(error));
                        middle.lemma_schedule();
                        self.lemma_leads_on(middle, next);
                    },
                }
            },
            (PendingView::Exit, EventView::Exited { task_id, outcome }) => {
                if self.handles.contains_key(task_id) && self.handles[task_id]
                    == HandleState::Running {
                    let middle = self.exited(task_id, outcome);
                    self.lemma_exited(task_id, outcome);
                    middle.lemma_schedule();
                    self.lemma_leads_on(middle, next);
                }
            },
            _ => {},
        }
    }
}

/// What holds of every run holds of the run of a valid flow at its start.
pub proof fn lemma_initial(flow: FlowView, jobs: Seq<Result<JobView, TaskErrorView>>)
    requires
        flow.tasks.len() > 0,
        jobs.len() == flow.tasks.len(),
        distinct_ids(flow.tasks),
        !cyclic(flow.tasks),
    ensures
        initial(flow, jobs).inv(),
{
    let fresh = fresh(flow, jobs);
    fresh.lemma_untouched_settled();
    if fresh.deps.len() == 0 {
        fresh.lemma_schedule();
    }
}

/// A runner that moves takes its weight with it.
pub proof fn lemma_load_update(runners: Seq<Runner>, i: int, moved: Runner)
    requires
        0 <= i < runners.len(),
    ensures
        load(runners.update(i, moved)) + weight(runners[i]) == load(runners) + weight(moved),
    decreases runners.len(),
{
    let after = runners.update(i, moved);
    if i == runners.len() - 1 {
        assert(after.drop_last() =~= runners.drop_last());
    } else {
        lemma_load_update(runners.drop_last(), i, moved);
        assert(after.drop_last() =~= runners.drop_last().update(i, moved));
    }
}

/// A new state for the id of one task changes the number of running
/// processes by that task alone.
pub proof fn lemma_running_changes(
    tasks: Seq<TaskView>,
    handles: Map<u32, HandleState>,
    id: u32,
    state: HandleState,
)
    requires
        distinct_ids(tasks),
    ensures
        running_count(tasks, handles.insert(id, state)) + (if position(tasks, id) is Some
            && is_running(handles, id) {
            1nat
        } else {
            0nat
        }) == running_count(tasks, handles) + (if position(tasks, id) is Some && state
            == HandleState::Running {
            1nat
        } else {
            0nat
        }),
    decreases tasks.len(),
{
    if tasks.len() > 0 {
        let front = tasks.drop_last();
        assert(distinct_ids(front)) by {
            assert forall|i: int, j: int| 0 <= i < j < front.len() implies (#[trigger] front[i]).id
                != (#[trigger] front[j]).id by {
                assert(tasks[i].id != tasks[j].id);
            }
        }
        lemma_running_changes(front, handles, id, state);
        lemma_position(front, id);
        lemma_position(tasks, id);
        if tasks.last().id == id {
            if let Some(p) = position(front, id) {
                assert(front[p] == tasks[p]);
                assert(tasks[p].id != tasks[tasks.len() - 1].id);
            }
        } else {
            if let Some(p) = position(tasks, id) {
                assert(p < front.len());
                assert(front[p] == tasks[p]);
            }
            if let Some(p) = position(front, id) {
                assert(front[p] == tasks[p]);
            }
        }
    }
}

/// Only one task is the first whose id an earlier task has too.
pub proof fn lemma_first_repeat_unique(tasks: Seq<TaskView>, j: int)
    requires
        first_repeat(tasks, j),
    ensures
        repeat_index(tasks) == j,
        !distinct_ids(tasks),
{
    let k = repeat_index(tasks);
    assert(first_repeat(tasks, k));
    let i = choose|i: int| 0 <= i < j && (#[trigger] tasks[i]).id == tasks[j].id;
    assert(tasks[i].id == tasks[j].id);
    if j < k {
        assert(tasks.take(k)[i].id != tasks.take(k)[j].id);
    } else if k < j {
        let h = choose|h: int| 0 <= h < k && (#[trigger] tasks[h]).id == tasks[k].id;
        assert(tasks.take(j)[h].id != tasks.take(j)[k].id);
    }
}

} // verus!
