//! The kinds of failure that the engine reports.

use vstd::prelude::*;

verus! {

/// Why the subprocess driver could not carry out a job.
#[derive(Clone, Copy, Debug, PartialEq, Eq, Structural)]
pub enum JobError {
    /// A process could not be started or waited for, or a build step ended
    /// without success.
    Io,
    /// The recipe is malformed: an empty entrypoint or an empty health check
    /// command.
    Invalid,
    /// The recipe asks for something reserved: a command that runs inside a
    /// container.
    Unsupported,
}

/// Why a task did not finish successfully.
#[derive(Debug, PartialEq, Eq)]
pub enum TaskError {
    /// The task names a blueprint that the rune does not hold.
    BlueprintNotFound(String),
    /// The task names an environment bundle that the rune does not hold.
    EnvBundleNotFound(String),
    /// The blueprint lacks the variant that the task's job asks for.
    VariantMissing,
    Invalid,
    Unsupported,
    Io,
    /// The task waited for a parent that did not finish successfully, and was
    /// never started. Holds the parent's id.
    Blocked(u32),
    /// The task's process ended without success.
    ExitFailure,
    /// The terminal status of the task's process could not be determined.
    WaitFailure,
}

/// Mathematical value of a [`TaskError`].
pub enum TaskErrorView {
    BlueprintNotFound(Seq<char>),
    EnvBundleNotFound(Seq<char>),
    VariantMissing,
    Invalid,
    Unsupported,
    Io,
    Blocked(u32),
    ExitFailure,
    WaitFailure,
}

impl View for TaskError {
    type V = TaskErrorView;

    open spec fn view(&self) -> TaskErrorView {
        match self {
            TaskError::BlueprintNotFound(name) => TaskErrorView::BlueprintNotFound(name@),
            TaskError::EnvBundleNotFound(name) => TaskErrorView::EnvBundleNotFound(name@),
            TaskError::VariantMissing => TaskErrorView::VariantMissing,
            TaskError::Invalid => TaskErrorView::Invalid,
            TaskError::Unsupported => TaskErrorView::Unsupported,
            TaskError::Io => TaskErrorView::Io,
            TaskError::Blocked(parent) => TaskErrorView::Blocked(*parent),
            TaskError::ExitFailure => TaskErrorView::ExitFailure,
            TaskError::WaitFailure => TaskErrorView::WaitFailure,
        }
    }
}

impl DeepView for TaskError {
    type V = TaskErrorView;

    open spec fn deep_view(&self) -> TaskErrorView {
        self@
    }
}

impl Clone for TaskError {
    fn clone(&self) -> (copy: TaskError)
        ensures
            copy@ == self@,
    {
        match self {
            TaskError::BlueprintNotFound(name) => TaskError::BlueprintNotFound(name.clone()),
            TaskError::EnvBundleNotFound(name) => TaskError::EnvBundleNotFound(name.clone()),
            TaskError::VariantMissing => TaskError::VariantMissing,
            TaskError::Invalid => TaskError::Invalid,
            TaskError::Unsupported => TaskError::Unsupported,
            TaskError::Io => TaskError::Io,
            TaskError::Blocked(parent) => TaskError::Blocked(*parent),
            TaskError::ExitFailure => TaskError::ExitFailure,
            TaskError::WaitFailure => TaskError::WaitFailure,
        }
    }
}

impl TaskError {
    /// The task-level kind of a driver failure.
    pub open spec fn of_job(error: JobError) -> TaskErrorView {
        match error {
            JobError::Io => TaskErrorView::Io,
            JobError::Invalid => TaskErrorView::Invalid,
            JobError::Unsupported => TaskErrorView::Unsupported,
        }
    }

    /// Turns a driver failure into the failure of the task that asked for
    /// the job.
    pub fn from_job(error: JobError) -> (kind: TaskError)
        ensures
            kind@ == Self::of_job(error),
    {
        match error {
            JobError::Io => TaskError::Io,
            JobError::Invalid => TaskError::Invalid,
            JobError::Unsupported => TaskError::Unsupported,
        }
    }
}

/// The failure of one task of a flow.
#[derive(Debug, PartialEq, Eq)]
pub struct TaskFailure {
    pub task_id: u32,
    pub error: TaskError,
}

/// Mathematical value of a [`TaskFailure`].
pub struct TaskFailureView {
    pub task_id: u32,
    pub error: TaskErrorView,
}

impl View for TaskFailure {
    type V = TaskFailureView;

    open spec fn view(&self) -> TaskFailureView {
        TaskFailureView { task_id: self.task_id, error: self.error@ }
    }
}

impl DeepView for TaskFailure {
    type V = TaskFailureView;

    open spec fn deep_view(&self) -> TaskFailureView {
        self@
    }
}

impl Clone for TaskFailure {
    fn clone(&self) -> (copy: TaskFailure)
        ensures
            copy@ == self@,
    {
        TaskFailure { task_id: self.task_id, error: self.error.clone() }
    }
}

/// A copy of a list of failures.
pub fn copy_failures(failures: &Vec<TaskFailure>) -> (copy: Vec<TaskFailure>)
    ensures
        copy.deep_view() == failures.deep_view(),
{
    let mut copy: Vec<TaskFailure> = Vec::new();
    let mut i: usize = 0;
    while i < failures.len()
        invariant
            i <= failures.len(),
            copy.deep_view() == failures.deep_view().take(i as int),
        decreases failures.len() - i,
    {
        let ghost before = copy.deep_view();
        let failure = failures[i].clone();
        copy.push(failure);
        assert(copy.deep_view() =~= before.push(failure@));
        assert(copy.deep_view() =~= failures.deep_view().take(i + 1));
        i += 1;
    }
    assert(failures.deep_view().take(i as int) =~= failures.deep_view());
    copy
}

/// Why a flow did not run to a successful end.
#[derive(Debug, PartialEq, Eq)]
pub enum FlowError {
    /// The state holds no flow at the index asked for.
    NoSuchFlow,
    /// The flow has no task.
    EmptyFlow,
    /// Two tasks of the flow have the same id. Holds that id.
    Duplicate(u32),
    /// Some task of the flow is, through its chain of parents, its own
    /// ancestor.
    CyclicDependency,
    /// The probe for a package dependency did not succeed. Holds its name.
    MissingDependency(String),
    /// A probe could not be started or waited for.
    Io,
    /// At least one task failed. Holds every failure, in the order in which
    /// they were recorded.
    FlowFailed(Vec<TaskFailure>),
}

/// Mathematical value of a [`FlowError`].
pub enum FlowErrorView {
    NoSuchFlow,
    EmptyFlow,
    Duplicate(u32),
    CyclicDependency,
    MissingDependency(Seq<char>),
    Io,
    FlowFailed(Seq<TaskFailureView>),
}

impl View for FlowError {
    type V = FlowErrorView;

    open spec fn view(&self) -> FlowErrorView {
        match self {
            FlowError::NoSuchFlow => FlowErrorView::NoSuchFlow,
            FlowError::EmptyFlow => FlowErrorView::EmptyFlow,
            FlowError::Duplicate(id) => FlowErrorView::Duplicate(*id),
            FlowError::CyclicDependency => FlowErrorView::CyclicDependency,
            FlowError::MissingDependency(name) => FlowErrorView::MissingDependency(name@),
            FlowError::Io => FlowErrorView::Io,
            FlowError::FlowFailed(failures) => FlowErrorView::FlowFailed(failures.deep_view()),
        }
    }
}

impl DeepView for FlowError {
    type V = FlowErrorView;

    open spec fn deep_view(&self) -> FlowErrorView {
        self@
    }
}

impl Clone for FlowError {
    fn clone(&self) -> (copy: FlowError)
        ensures
            copy@ == self@,
    {
        match self {
            FlowError::NoSuchFlow => FlowError::NoSuchFlow,
            FlowError::EmptyFlow => FlowError::EmptyFlow,
            FlowError::Duplicate(id) => FlowError::Duplicate(*id),
            FlowError::CyclicDependency => FlowError::CyclicDependency,
            FlowError::MissingDependency(name) => FlowError::MissingDependency(name.clone()),
            FlowError::Io => FlowError::Io,
            FlowError::FlowFailed(failures) => FlowError::FlowFailed(copy_failures(failures)),
        }
    }
}

/// Mathematical value of the result of a flow.
pub open spec fn flow_result(result: Result<(), FlowError>) -> Result<(), FlowErrorView> {
    match result {
        Ok(_) => Ok(()),
        Err(error) => Err(error@),
    }
}

} // verus!
