//! What a run promises to those who drive it.

use crate::engine::error::{FlowErrorView, TaskError, TaskErrorView};
use crate::engine::executor::proofs::{lemma_load_update, lemma_running_changes};
use crate::engine::executor::run::{
    fresh, initial, is_running, load, preflight, refusal, running_count, RunView,
};
use crate::engine::executor::{
    ActionView, EventView, ExitOutcome, PendingView, ProbeOutcome, Runner, SpawnOutcome,
};
use crate::engine::graph::{cyclic, distinct_ids, lemma_position, position};
use crate::engine::state::HandleState;
use crate::engine::task::JobView;
use crate::engine::text::listed;
use crate::model::runer::{FlowView, TaskView};
use vstd::prelude::*;

verus! {

/// At every moment of a run the registry holds an entry for the id `id`
/// exactly if a task with that id has published a handle, and only one task
/// has that id: the registry holds one entry for each task that was started,
/// and none twice.
pub proof fn law_registry_holds_started_tasks(run: RunView, id: u32)
    requires
        run.inv(),
    ensures
        run.handles.contains_key(id) <==> exists|i: int|
            0 <= i < run.tasks.len() && (#[trigger] run.tasks[i]).id == id && run.runners[i]
                == Runner::Published,
        forall|i: int, j: int|
            0 <= i < run.tasks.len() && 0 <= j < run.tasks.len() && (#[trigger] run.tasks[i]).id
                == id && (#[trigger] run.tasks[j]).id == id ==> i == j,
{
    if run.handles.contains_key(id) {
        lemma_position(run.tasks, id);
        let i = position(run.tasks, id)->0;
        assert(run.tasks[i].id == id);
        assert(run.runners[i] == Runner::Published);
    }
    assert forall|i: int, j: int|
        0 <= i < run.tasks.len() && 0 <= j < run.tasks.len() && (#[trigger] run.tasks[i]).id == id
            && (#[trigger] run.tasks[j]).id == id implies i == j by {
        if i < j {
            assert(run.tasks[i].id != run.tasks[j].id);
        } else if j < i {
            assert(run.tasks[j].id != run.tasks[i].id);
        }
    }
}

/// A job is handed to the driver only for a task without a parent, or for
/// one whose parent has ended with success. Since an entry that has ended
/// never changes, the parent's success lies before the start of the child.
pub proof fn law_child_starts_after_parent(run: RunView, i: int)
    requires
        run.inv(),
        0 <= i < run.tasks.len(),
        run.action() matches ActionView::Spawn { task_id, .. } && task_id == run.tasks[i].id,
    ensures
        match run.tasks[i].depends {
            Some(parent_id) => run.handles.contains_key(parent_id) && run.handles[parent_id]
                == HandleState::Succeeded,
            None => true,
        },
{
    let k = run.pending->Spawn_0 as int;
    if i < k {
        assert(run.tasks[i].id != run.tasks[k].id);
    } else if k < i {
        assert(run.tasks[k].id != run.tasks[i].id);
    }
}

/// A flow in which some task is its own ancestor is refused as cyclic,
/// whatever else holds of it. A refused flow has no run, so nothing is ever
/// started for it.
pub proof fn law_cyclic_flow_is_refused(flow: FlowView)
    requires
        cyclic(flow.tasks),
    ensures
        refusal(Some(flow)) == Some(FlowErrorView::CyclicDependency),
{
}

/// The first package dependency whose probe did not find it is the one
/// that is reported as missing, provided that every probe before it found
/// its package.
pub proof fn law_first_missing_package_is_reported(
    deps: Seq<Seq<char>>,
    outcomes: Seq<ProbeOutcome>,
    k: int,
)
    requires
        0 <= k < deps.len(),
        k < outcomes.len(),
        forall|j: int| 0 <= j < k ==> outcomes[j] == ProbeOutcome::Found,
        outcomes[k] == ProbeOutcome::Missing,
    ensures
        preflight(deps, outcomes) == Some(FlowErrorView::MissingDependency(deps[k])),
    decreases k,
{
    if k > 0 {
        assert(outcomes[0] == ProbeOutcome::Found);
        law_first_missing_package_is_reported(deps.skip(1), outcomes.skip(1), k - 1);
    }
}

/// Every package dependency is there exactly if each has a probe that found
/// it.
pub proof fn law_preflight_passes_when_all_found(deps: Seq<Seq<char>>, outcomes: Seq<ProbeOutcome>)
    ensures
        preflight(deps, outcomes) is None <==> deps.len() <= outcomes.len() && forall|j: int|
            0 <= j < deps.len() ==> outcomes[j] == ProbeOutcome::Found,
    decreases deps.len(),
{
    if deps.len() > 0 && outcomes.len() > 0 {
        law_preflight_passes_when_all_found(deps.skip(1), outcomes.skip(1));
        if outcomes[0] == ProbeOutcome::Found {
            if preflight(deps, outcomes) is None {
                assert forall|j: int| 0 <= j < deps.len() implies outcomes[j]
                    == ProbeOutcome::Found by {
                    if j > 0 {
                        assert(outcomes.skip(1)[j - 1] == outcomes[j]);
                    }
                }
            } else if deps.len() <= outcomes.len() {
                let j = choose|j: int|
                    0 <= j < deps.skip(1).len() && outcomes.skip(1)[j] != ProbeOutcome::Found;
                assert(outcomes[j + 1] != ProbeOutcome::Found);
            }
        }
    }
}

/// Where the probes report a package as missing, the run is over with that
/// package reported, and no task has been decided: none was started, none
/// was blocked, and the registry is empty.
pub proof fn law_missing_package_ends_run(run: RunView, outcomes: Seq<ProbeOutcome>)
    requires
        run.inv(),
        run.pending is Probe,
        preflight(run.deps, outcomes) matches Some(FlowErrorView::MissingDependency(_)),
    ensures
        ({
            let next = run.after(EventView::Probed(outcomes));
            &&& next.action() == ActionView::Finish(Err(preflight(run.deps, outcomes)->0))
            &&& next.untouched()
        }),
{
}

/// A run never comes to a halt with work left undone: it asks the caller to
/// wait only while some process is running, and it ends, unless a probe
/// ended it, only when every task has been decided and no process is
/// running.
pub proof fn law_run_does_not_halt(run: RunView)
    requires
        run.inv(),
    ensures
        run.action() is Wait ==> run.some_running(),
        run.action() is Finish && run.abort is None ==> run.decided() && !run.some_running(),
{
}

/// Every answer of the caller brings the end of the run nearer: an event
/// either changes nothing, because it does not answer what the run is
/// waiting for, or it leaves less to be done. A run therefore ends after a
/// number of answers that its flow bounds.
pub proof fn law_each_answer_brings_the_end_nearer(run: RunView, event: EventView)
    requires
        run.inv(),
    ensures
        run.after(event) == run || run.after(event).remaining() < run.remaining(),
{
    let next = run.after(event);
    match (run.pending, event) {
        (PendingView::Probe, EventView::Probed(outcomes)) => {
            run.lemma_untouched_settled();
            if preflight(run.deps, outcomes) is None {
                run.lemma_schedule();
            }
        },
        (PendingView::Spawn(i), EventView::Spawned(outcome)) => {
            let id = run.tasks[i as int].id;
            lemma_position(run.tasks, id);
            match outcome {
                SpawnOutcome::Running => {
                    let middle = run.publish(i as int, HandleState::Running);
                    run.lemma_publish(i as int, HandleState::Running);
                    lemma_load_update(run.runners, i as int, Runner::Published);
                    lemma_running_changes(run.tasks, run.handles, id, HandleState::Running);
                    middle.lemma_schedule();
                },
                SpawnOutcome::Finished => {
                    let middle = run.publish(i as int, HandleState::Succeeded);
                    run.lemma_publish(i as int, HandleState::Succeeded);
                    lemma_load_update(run.runners, i as int, Runner::Published);
                    lemma_running_changes(run.tasks, run.handles, id, HandleState::Succeeded);
                    middle.lemma_schedule();
                },
                SpawnOutcome::Failed(error) => {
                    let middle = run.give_up(i as int, TaskError::of_job(error));
                    run.lemma_spawn_failed(i as int, TaskError::of_job(error));
                    lemma_load_update(run.runners, i as int, Runner::Absent);
                    middle.lemma_schedule();
                },
            }
        },
        (PendingView::Exit, EventView::Exited { task_id, outcome }) => {
            if is_running(run.handles, task_id) {
                let middle = run.exited(task_id, outcome);
                run.lemma_exited(task_id, outcome);
                match outcome {
                    ExitOutcome::Success => {
                        lemma_running_changes(
                            run.tasks,
                            run.handles,
                            task_id,
                            HandleState::Succeeded,
                        );
                    },
                    _ => {
                        lemma_running_changes(run.tasks, run.handles, task_id, HandleState::Failed);
                    },
                }
                middle.lemma_schedule();
            }
        },
        _ => {},
    }
}

/// At its start a run has at most one answer for its probes and three for
/// each task before it.
pub proof fn law_answers_are_bounded(flow: FlowView, jobs: Seq<Result<JobView, TaskErrorView>>)
    requires
        flow.tasks.len() > 0,
        jobs.len() == flow.tasks.len(),
        distinct_ids(flow.tasks),
        !cyclic(flow.tasks),
    ensures
        initial(flow, jobs).remaining() <= 1 + 3 * flow.tasks.len(),
{
    let fresh = fresh(flow, jobs);
    lemma_load_is_bounded(fresh.runners);
    lemma_nothing_runs_at_first(fresh.tasks);
    fresh.lemma_untouched_settled();
    if fresh.deps.len() == 0 {
        fresh.lemma_schedule();
    }
}

/// No runner weighs more than three.
pub proof fn lemma_load_is_bounded(runners: Seq<Runner>)
    ensures
        load(runners) <= 3 * runners.len(),
    decreases runners.len(),
{
    if runners.len() > 0 {
        lemma_load_is_bounded(runners.drop_last());
    }
}

/// With an empty registry no process is running.
pub proof fn lemma_nothing_runs_at_first(tasks: Seq<TaskView>)
    ensures
        running_count(tasks, Map::<u32, HandleState>::empty()) == 0,
    decreases tasks.len(),
{
    if tasks.len() > 0 {
        lemma_nothing_runs_at_first(tasks.drop_last());
    }
}

} // verus!
