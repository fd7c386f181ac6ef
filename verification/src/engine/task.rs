//! The task runner's decisions: whether the parent of a task has finished,
//! and which job a task stands for.

use crate::engine::error::{TaskError, TaskErrorView};
use crate::engine::job::{
    container_error, create_docker_image, image_steps, image_supported, run_args,
    run_docker_container, run_shell_script, shell_run, ImageBuild, ImageBuildView, Invocation,
    InvocationView, ShellRun, ShellRunView,
};
use crate::engine::state::{find_named, named, HandleState, Registry};
use crate::engine::text::copy_pairs;
use crate::model::runer::{
    BlueprintView, Blueprints, EnvBundles, JobType, PairsView, Task, TaskType, TaskView,
};
use vstd::prelude::*;

verus! {

/// What the subprocess driver is asked to do for one task.
#[derive(Debug)]
pub enum Job {
    /// Run the processes of an image build one after the other. The task's
    /// handle is finished as soon as the last of them has ended.
    BuildImage(ImageBuild),
    /// Start a container. The started process is the task's handle.
    RunContainer(Invocation),
    /// Apply the environment, then start the script. The started process is
    /// the task's handle.
    RunShell(ShellRun),
    /// Put each pair into the environment, in order. The task's handle is
    /// finished at once.
    ApplyEnv(Vec<(String, String)>),
}

/// Mathematical value of a [`Job`].
pub enum JobView {
    BuildImage(ImageBuildView),
    RunContainer(InvocationView),
    RunShell(ShellRunView),
    ApplyEnv(PairsView),
}

impl View for Job {
    type V = JobView;

    open spec fn view(&self) -> JobView {
        match self {
            Job::BuildImage(build) => JobView::BuildImage(build@),
            Job::RunContainer(invocation) => JobView::RunContainer(invocation@),
            Job::RunShell(run) => JobView::RunShell(run@),
            Job::ApplyEnv(pairs) => JobView::ApplyEnv(pairs.deep_view()),
        }
    }
}

impl DeepView for Job {
    type V = JobView;

    open spec fn deep_view(&self) -> JobView {
        self@
    }
}

impl Clone for Job {
    fn clone(&self) -> (copy: Job)
        ensures
            copy@ == self@,
    {
        match self {
            Job::BuildImage(build) => Job::BuildImage(build.clone()),
            Job::RunContainer(invocation) => Job::RunContainer(invocation.clone()),
            Job::RunShell(run) => Job::RunShell(run.clone()),
            Job::ApplyEnv(pairs) => Job::ApplyEnv(copy_pairs(pairs)),
        }
    }
}

/// Mathematical value of what the dispatch of a task gives.
pub open spec fn dispatched(result: Result<Job, TaskError>) -> Result<JobView, TaskErrorView> {
    match result {
        Ok(job) => Ok(job@),
        Err(error) => Err(error@),
    }
}

/// The job that a blueprint gives for the job type `job`, or why it gives
/// none: the variant that the job type asks for has to be there, and the
/// driver has to accept it.
pub open spec fn blueprint_job(
    blueprint: BlueprintView,
    job: JobType,
    network: Option<Seq<char>>,
) -> Result<JobView, TaskErrorView> {
    match job {
        JobType::Image => match blueprint.image {
            Some(image) => if image_supported(image) {
                Ok(JobView::BuildImage(ImageBuildView { steps: image_steps(image), done: 0 }))
            } else {
                Err(TaskErrorView::Unsupported)
            },
            None => Err(TaskErrorView::VariantMissing),
        },
        JobType::Container => match blueprint.container {
            Some(container) => match container_error(container) {
                Some(error) => Err(TaskError::of_job(error)),
                None => Ok(
                    JobView::RunContainer(
                        InvocationView {
                            program: "docker"@,
                            args: run_args(container, network),
                            quiet: true,
                        },
                    ),
                ),
            },
            None => Err(TaskErrorView::VariantMissing),
        },
        JobType::Shell => match blueprint.shell {
            Some(shell) => Ok(JobView::RunShell(shell_run(shell))),
            None => Err(TaskErrorView::VariantMissing),
        },
        JobType::SetEnv => Err(TaskErrorView::Unsupported),
    }
}

/// The job that `task` stands for, or why it stands for none.
///
/// A blueprint task with the job `SetEnv` is unsupported; every other
/// blueprint task needs its blueprint, and from it the variant of its job.
/// An environment task has the job `SetEnv` and needs its bundle; with any
/// other job it is invalid. A missing collection holds nothing.
pub open spec fn dispatch(
    task: TaskView,
    blueprints: Seq<(Seq<char>, BlueprintView)>,
    env: Seq<(Seq<char>, PairsView)>,
    network: Option<Seq<char>>,
) -> Result<JobView, TaskErrorView> {
    match task.typ {
        TaskType::Blueprint => if task.job == JobType::SetEnv {
            Err(TaskErrorView::Unsupported)
        } else {
            match named(blueprints, task.name) {
                Some(blueprint) => blueprint_job(blueprint, task.job, network),
                None => Err(TaskErrorView::BlueprintNotFound(task.name)),
            }
        },
        TaskType::Env => if task.job == JobType::SetEnv {
            match named(env, task.name) {
                Some(pairs) => Ok(JobView::ApplyEnv(pairs)),
                None => Err(TaskErrorView::EnvBundleNotFound(task.name)),
            }
        } else {
            Err(TaskErrorView::Invalid)
        },
    }
}

/// An environment task whose bundle is there stands for the job that holds
/// every pair of the bundle, in the order in which they were declared.
pub proof fn law_env_task_applies_its_bundle(
    task: TaskView,
    blueprints: Seq<(Seq<char>, BlueprintView)>,
    env: Seq<(Seq<char>, PairsView)>,
    network: Option<Seq<char>>,
)
    requires
        task.typ == TaskType::Env,
        task.job == JobType::SetEnv,
        named(env, task.name) is Some,
    ensures
        dispatch(task, blueprints, env, network) == Ok::<JobView, TaskErrorView>(
            JobView::ApplyEnv(named(env, task.name)->0),
        ),
{
}

/// Decides which job `task` stands for: the dispatch step of the task
/// runner. Nothing is started here.
pub fn run_task(
    task: &Task,
    blueprints: &Blueprints,
    env: &EnvBundles,
    network: &Option<String>,
) -> (result: Result<Job, TaskError>)
    ensures
        dispatched(result) == dispatch(
            task@,
            blueprints.deep_view(),
            env.deep_view(),
            network.deep_view(),
        ),
{
    match task.typ {
        TaskType::Blueprint => {
            if let JobType::SetEnv = task.job {
                return Err(TaskError::Unsupported);
            }
            let blueprint = match find_named(blueprints, &task.name) {
                Some(blueprint) => blueprint,
                None => {
                    return Err(TaskError::BlueprintNotFound(task.name.clone()));
                },
            };
            match task.job {
                JobType::Image => match &blueprint.image {
                    Some(image) => match create_docker_image(image) {
                        Ok(build) => Ok(Job::BuildImage(build)),
                        Err(error) => Err(TaskError::from_job(error)),
                    },
                    None => Err(TaskError::VariantMissing),
                },
                JobType::Container => match &blueprint.container {
                    Some(container) => match run_docker_container(container, network) {
                        Ok(invocation) => Ok(Job::RunContainer(invocation)),
                        Err(error) => Err(TaskError::from_job(error)),
                    },
                    None => Err(TaskError::VariantMissing),
                },
                JobType::Shell => match &blueprint.shell {
                    Some(shell) => Ok(Job::RunShell(run_shell_script(shell))),
                    None => Err(TaskError::VariantMissing),
                },
                JobType::SetEnv => Err(TaskError::Unsupported),
            }
        },
        TaskType::Env => {
            if let JobType::SetEnv = task.job {
                match find_named(env, &task.name) {
                    Some(pairs) => Ok(Job::ApplyEnv(copy_pairs(pairs))),
                    None => Err(TaskError::EnvBundleNotFound(task.name.clone())),
                }
            } else {
                Err(TaskError::Invalid)
            }
        },
    }
}

/// How far the parent of a waiting task has come.
#[derive(Clone, Copy, Debug, PartialEq, Eq, Structural)]
pub enum ParentWait {
    /// The parent has no entry in the registry.
    Unpublished,
    /// The parent's process has not ended.
    Running,
    /// The parent's process ended with success: the child may start.
    Ready,
    /// The parent's process ended without success: the child never starts.
    Blocked,
}

/// What the registry `handles` says of the parent `parent_id`.
pub open spec fn parent_wait(handles: Map<u32, HandleState>, parent_id: u32) -> ParentWait {
    if !handles.contains_key(parent_id) {
        ParentWait::Unpublished
    } else {
        match handles[parent_id] {
            HandleState::Running => ParentWait::Running,
            HandleState::Succeeded => ParentWait::Ready,
            HandleState::Failed => ParentWait::Blocked,
        }
    }
}

/// Looks the parent of a waiting task up in the registry: one round of the
/// wait for the parent.
pub fn poll_parent(parent_handle_id: u32, handles: &Registry) -> (wait: ParentWait)
    ensures
        wait == parent_wait(handles@, parent_handle_id),
{
    match handles.status(parent_handle_id) {
        None => ParentWait::Unpublished,
        Some(HandleState::Running) => ParentWait::Running,
        Some(HandleState::Succeeded) => ParentWait::Ready,
        Some(HandleState::Failed) => ParentWait::Blocked,
    }
}

} // verus!
