//! The in-memory rune: blueprints, environment bundles and flows.
//!
//! Every type has a view that holds its strings as `Seq<char>` and its
//! vectors as `Seq`. Contracts elsewhere in the crate speak of these views.

use vstd::prelude::*;

verus! {

/// Where a command of a blueprint runs.
#[derive(Debug)]
pub enum ExecutionEnvironment {
    /// On the host, through the shell.
    Local,
    /// Inside a container, optionally named. Reserved: every job that meets
    /// it is refused as unsupported.
    Container(Option<String>),
}

/// Mathematical value of an [`ExecutionEnvironment`].
pub enum ExecutionEnvironmentView {
    Local,
    Container(Option<Seq<char>>),
}

impl View for ExecutionEnvironment {
    type V = ExecutionEnvironmentView;

    open spec fn view(&self) -> ExecutionEnvironmentView {
        match self {
            ExecutionEnvironment::Local => ExecutionEnvironmentView::Local,
            ExecutionEnvironment::Container(name) => ExecutionEnvironmentView::Container(
                name.deep_view(),
            ),
        }
    }
}

impl DeepView for ExecutionEnvironment {
    type V = ExecutionEnvironmentView;

    open spec fn deep_view(&self) -> ExecutionEnvironmentView {
        self@
    }
}

/// A command of a blueprint together with the place where it runs.
pub type Step = (ExecutionEnvironment, String);

/// Mathematical value of a [`Step`].
pub type StepView = (ExecutionEnvironmentView, Seq<char>);

/// Mathematical value of a list of key and value pairs.
pub type PairsView = Seq<(Seq<char>, Seq<char>)>;

/// Recipe of a container image build.
#[derive(Debug)]
pub struct Image {
    /// Path of the build context.
    pub context: String,
    /// Tag that identifies the image.
    pub tag: String,
    /// Options handed to the build engine as they are.
    pub options: Option<Vec<String>>,
    pub build_args: Option<Vec<String>>,
    /// Commands run before the build, in order.
    pub pre: Option<Vec<Step>>,
    /// Commands run after the build, in order.
    pub post: Option<Vec<Step>>,
}

/// Mathematical value of an [`Image`].
pub struct ImageView {
    pub context: Seq<char>,
    pub tag: Seq<char>,
    pub options: Option<Seq<Seq<char>>>,
    pub build_args: Option<Seq<Seq<char>>>,
    pub pre: Option<Seq<StepView>>,
    pub post: Option<Seq<StepView>>,
}

impl View for Image {
    type V = ImageView;

    open spec fn view(&self) -> ImageView {
        ImageView {
            context: self.context@,
            tag: self.tag@,
            options: self.options.deep_view(),
            build_args: self.build_args.deep_view(),
            pre: self.pre.deep_view(),
            post: self.post.deep_view(),
        }
    }
}

impl DeepView for Image {
    type V = ImageView;

    open spec fn deep_view(&self) -> ImageView {
        self@
    }
}

/// Health check of a container.
#[derive(Debug)]
pub struct HealthCheck {
    pub command: Step,
    pub interval: Option<String>,
    pub retries: Option<u32>,
}

/// Mathematical value of a [`HealthCheck`].
pub struct HealthCheckView {
    pub command: StepView,
    pub interval: Option<Seq<char>>,
    pub retries: Option<u32>,
}

impl View for HealthCheck {
    type V = HealthCheckView;

    open spec fn view(&self) -> HealthCheckView {
        HealthCheckView {
            command: self.command.deep_view(),
            interval: self.interval.deep_view(),
            retries: self.retries,
        }
    }
}

impl DeepView for HealthCheck {
    type V = HealthCheckView;

    open spec fn deep_view(&self) -> HealthCheckView {
        self@
    }
}

/// Recipe of a container run.
#[derive(Debug)]
pub struct Container {
    pub name: String,
    /// Reference of the image to run.
    pub image: String,
    pub options: Option<Vec<String>>,
    /// Host port and container port.
    pub ports: Option<(String, String)>,
    pub env: Option<Vec<(String, String)>>,
    /// Host path and container path of each volume.
    pub volumes: Option<Vec<(String, String)>>,
    /// The executable, then its arguments.
    pub entrypoint: Option<Vec<String>>,
    pub hc: Option<HealthCheck>,
}

/// Mathematical value of a [`Container`].
pub struct ContainerView {
    pub name: Seq<char>,
    pub image: Seq<char>,
    pub options: Option<Seq<Seq<char>>>,
    pub ports: Option<(Seq<char>, Seq<char>)>,
    pub env: Option<PairsView>,
    pub volumes: Option<PairsView>,
    pub entrypoint: Option<Seq<Seq<char>>>,
    pub hc: Option<HealthCheckView>,
}

impl View for Container {
    type V = ContainerView;

    open spec fn view(&self) -> ContainerView {
        ContainerView {
            name: self.name@,
            image: self.image@,
            options: self.options.deep_view(),
            ports: self.ports.deep_view(),
            env: self.env.deep_view(),
            volumes: self.volumes.deep_view(),
            entrypoint: self.entrypoint.deep_view(),
            hc: self.hc.deep_view(),
        }
    }
}

impl DeepView for Container {
    type V = ContainerView;

    open spec fn deep_view(&self) -> ContainerView {
        self@
    }
}

/// Recipe of a shell script.
#[derive(Debug)]
pub struct Shell {
    /// Commands run as one shell invocation, each only if the one before it
    /// succeeded.
    pub commands: Vec<String>,
    /// Put into the environment before the script starts.
    pub env: Option<Vec<(String, String)>>,
}

/// Mathematical value of a [`Shell`].
pub struct ShellView {
    pub commands: Seq<Seq<char>>,
    pub env: Option<PairsView>,
}

impl View for Shell {
    type V = ShellView;

    open spec fn view(&self) -> ShellView {
        ShellView { commands: self.commands.deep_view(), env: self.env.deep_view() }
    }
}

impl DeepView for Shell {
    type V = ShellView;

    open spec fn deep_view(&self) -> ShellView {
        self@
    }
}

/// A named recipe. A task uses the one variant that its job asks for.
#[derive(Debug)]
pub struct Blueprint {
    /// Environment bundle private to the blueprint.
    pub _env: Option<Vec<(String, String)>>,
    pub image: Option<Image>,
    pub container: Option<Container>,
    pub shell: Option<Shell>,
}

/// Mathematical value of a [`Blueprint`].
pub struct BlueprintView {
    pub _env: Option<PairsView>,
    pub image: Option<ImageView>,
    pub container: Option<ContainerView>,
    pub shell: Option<ShellView>,
}

impl View for Blueprint {
    type V = BlueprintView;

    open spec fn view(&self) -> BlueprintView {
        BlueprintView {
            _env: self._env.deep_view(),
            image: self.image.deep_view(),
            container: self.container.deep_view(),
            shell: self.shell.deep_view(),
        }
    }
}

impl DeepView for Blueprint {
    type V = BlueprintView;

    open spec fn deep_view(&self) -> BlueprintView {
        self@
    }
}

/// What a task refers to: a blueprint or an environment bundle.
#[derive(Clone, Copy, Debug, PartialEq, Eq, Structural)]
pub enum TaskType {
    Blueprint,
    Env,
}

/// What a task does with the entity it refers to.
#[derive(Clone, Copy, Debug, PartialEq, Eq, Structural)]
pub enum JobType {
    Container,
    Image,
    Shell,
    /// Puts an environment bundle into the environment (`set` in a rune file).
    SetEnv,
}

/// One unit of a flow. `depends` names the id of the task that has to finish
/// successfully before this one starts.
#[derive(Debug)]
pub struct Task {
    pub id: u32,
    pub typ: TaskType,
    /// Name of the blueprint or of the environment bundle.
    pub name: String,
    pub job: JobType,
    pub depends: Option<u32>,
}

/// Mathematical value of a [`Task`].
pub struct TaskView {
    pub id: u32,
    pub typ: TaskType,
    pub name: Seq<char>,
    pub job: JobType,
    pub depends: Option<u32>,
}

impl View for Task {
    type V = TaskView;

    open spec fn view(&self) -> TaskView {
        TaskView {
            id: self.id,
            typ: self.typ,
            name: self.name@,
            job: self.job,
            depends: self.depends,
        }
    }
}

impl DeepView for Task {
    type V = TaskView;

    open spec fn deep_view(&self) -> TaskView {
        self@
    }
}

impl Clone for Task {
    fn clone(&self) -> (copy: Task)
        ensures
            copy@ == self@,
    {
        Task {
            id: self.id,
            typ: self.typ,
            name: self.name.clone(),
            job: self.job,
            depends: self.depends,
        }
    }
}

/// An ordered collection of tasks that run as one unit.
#[derive(Debug)]
pub struct Flow {
    pub name: String,
    pub tasks: Vec<Task>,
    /// Executables that have to be found on the host before any task starts.
    pub pkg_dependencies: Option<Vec<String>>,
}

/// Mathematical value of a [`Flow`].
pub struct FlowView {
    pub name: Seq<char>,
    pub tasks: Seq<TaskView>,
    pub pkg_dependencies: Option<Seq<Seq<char>>>,
}

impl View for Flow {
    type V = FlowView;

    open spec fn view(&self) -> FlowView {
        FlowView {
            name: self.name@,
            tasks: self.tasks.deep_view(),
            pkg_dependencies: self.pkg_dependencies.deep_view(),
        }
    }
}

impl DeepView for Flow {
    type V = FlowView;

    open spec fn deep_view(&self) -> FlowView {
        self@
    }
}

impl Clone for Flow {
    fn clone(&self) -> (copy: Flow)
        ensures
            copy@ == self@,
    {
        let mut tasks: Vec<Task> = Vec::new();
        let mut i: usize = 0;
        while i < self.tasks.len()
            invariant
                i <= self.tasks.len(),
                tasks.deep_view() == self.tasks.deep_view().take(i as int),
            decreases self.tasks.len() - i,
        {
            let ghost before = tasks.deep_view();
            let task = self.tasks[i].clone();
            tasks.push(task);
            assert(tasks.deep_view() =~= before.push(task@));
            assert(tasks.deep_view() =~= self.tasks.deep_view().take(i + 1));
            i += 1;
        }
        assert(self.tasks.deep_view().take(i as int) =~= self.tasks.deep_view());
        let pkg_dependencies = match &self.pkg_dependencies {
            Some(names) => {
                let mut copies: Vec<String> = Vec::new();
                let mut k: usize = 0;
                while k < names.len()
                    invariant
                        k <= names.len(),
                        copies.deep_view() == names.deep_view().take(k as int),
                    decreases names.len() - k,
                {
                    let ghost before = copies.deep_view();
                    let name = names[k].clone();
                    copies.push(name);
                    assert(copies.deep_view() =~= before.push(name@));
                    assert(copies.deep_view() =~= names.deep_view().take(k + 1));
                    k += 1;
                }
                assert(names.deep_view().take(k as int) =~= names.deep_view());
                Some(copies)
            },
            None => None,
        };
        Flow { name: self.name.clone(), tasks, pkg_dependencies }
    }
}

/// Blueprints by name, in the order in which they were declared.
pub type Blueprints = Vec<(String, Blueprint)>;

/// Environment bundles by name, in the order in which they were declared.
pub type EnvBundles = Vec<(String, Vec<(String, String)>)>;

/// The root document. Each of its three fragments may be missing.
#[derive(Debug)]
pub struct Rune {
    pub blueprints: Option<Blueprints>,
    pub env: Option<EnvBundles>,
    pub flows: Option<Vec<Flow>>,
}

/// Mathematical value of a [`Rune`].
pub struct RuneView {
    pub blueprints: Option<Seq<(Seq<char>, BlueprintView)>>,
    pub env: Option<Seq<(Seq<char>, PairsView)>>,
    pub flows: Option<Seq<FlowView>>,
}

impl View for Rune {
    type V = RuneView;

    open spec fn view(&self) -> RuneView {
        RuneView {
            blueprints: self.blueprints.deep_view(),
            env: self.env.deep_view(),
            flows: self.flows.deep_view(),
        }
    }
}

impl DeepView for Rune {
    type V = RuneView;

    open spec fn deep_view(&self) -> RuneView {
        self@
    }
}

} // verus!
