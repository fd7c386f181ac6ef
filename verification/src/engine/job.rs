//! The subprocess driver's plans: which processes a blueprint asks for, with
//! which arguments. Starting them is left to the caller.

use crate::engine::error::JobError;
use crate::engine::text::{
    copy_pairs, decimal, decimal_string, join, joined, listed, owned, push_all, push_string,
    push_text,
};
use crate::model::runer::{
    Container, ContainerView, ExecutionEnvironment, HealthCheck, HealthCheckView, Image, ImageView, PairsView,
    Shell, ShellView, Step, StepView,
};
use vstd::prelude::*;
use vstd::string::*;

verus! {

/// One process to start: a program, its arguments, and whether its standard
/// output is discarded.
#[derive(Debug)]
pub struct Invocation {
    pub program: String,
    pub args: Vec<String>,
    pub quiet: bool,
}

/// Mathematical value of an [`Invocation`].
pub struct InvocationView {
    pub program: Seq<char>,
    pub args: Seq<Seq<char>>,
    pub quiet: bool,
}

impl View for Invocation {
    type V = InvocationView;

    open spec fn view(&self) -> InvocationView {
        InvocationView { program: self.program@, args: self.args.deep_view(), quiet: self.quiet }
    }
}

impl DeepView for Invocation {
    type V = InvocationView;

    open spec fn deep_view(&self) -> InvocationView {
        self@
    }
}

impl Clone for Invocation {
    fn clone(&self) -> (copy: Invocation)
        ensures
            copy@ == self@,
    {
        Invocation {
            program: self.program.clone(),
            args: crate::engine::text::copy_strings(&self.args),
            quiet: self.quiet,
        }
    }
}

/// The shell running `command` as one script.
pub open spec fn shell_invocation(command: Seq<char>, quiet: bool) -> InvocationView {
    InvocationView { program: "sh"@, args: seq!["-c"@, command], quiet }
}

/// Plans a shell that runs `command` as one script.
pub fn shell(command: &str, quiet: bool) -> (invocation: Invocation)
    ensures
        invocation@ == shell_invocation(command@, quiet),
{
    let mut args: Vec<String> = Vec::new();
    assert(args.deep_view() =~= Seq::<Seq<char>>::empty());
    push_text(&mut args, "-c");
    push_text(&mut args, command);
    assert(args.deep_view() =~= seq!["-c"@, command@]);
    Invocation { program: owned("sh"), args, quiet }
}

/// The build engine's way to write one build argument.
pub open spec fn build_arg(value: Seq<char>) -> Seq<char> {
    "--build-arg=\""@ + value + "\""@
}

/// The arguments of the container engine for the build of `image`: the
/// subcommand, the options as they are, the tag, one entry for each build
/// argument, and the context path last.
pub open spec fn build_args(image: ImageView) -> Seq<Seq<char>> {
    seq!["build"@] + listed(image.options) + seq!["-t"@, image.tag] + listed(
        image.build_args,
    ).map_values(|value: Seq<char>| build_arg(value)) + seq![image.context]
}

/// Whether every command of `steps` runs on the host.
pub open spec fn all_local(steps: Seq<StepView>) -> bool {
    forall|i: int| 0 <= i < steps.len() ==> (#[trigger] steps[i]).0 is Local
}

/// The shell invocations of `steps`, one for each command.
pub open spec fn step_invocations(steps: Seq<StepView>) -> Seq<InvocationView> {
    steps.map_values(|step: StepView| shell_invocation(step.1, false))
}

/// Whether the build of `image` can be planned: none of its commands asks
/// for a container to run in.
pub open spec fn image_supported(image: ImageView) -> bool {
    all_local(listed(image.pre)) && all_local(listed(image.post))
}

/// The processes of the build of `image`, in the order in which they run:
/// the commands before the build, the build itself, the commands after it.
pub open spec fn image_steps(image: ImageView) -> Seq<InvocationView> {
    step_invocations(listed(image.pre)) + seq![
        InvocationView { program: "docker"@, args: build_args(image), quiet: false },
    ] + step_invocations(listed(image.post))
}

fn steps_all_local(steps: &Vec<Step>) -> (local: bool)
    ensures
        local == all_local(steps.deep_view()),
{
    let mut i: usize = 0;
    while i < steps.len()
        invariant
            i <= steps.len(),
            all_local(steps.deep_view().take(i as int)),
        decreases steps.len() - i,
    {
        match &steps[i].0 {
            ExecutionEnvironment::Local => {},
            ExecutionEnvironment::Container(_) => {
                assert(!(steps.deep_view()[i as int].0 is Local));
                return false;
            },
        }
        assert(steps.deep_view()[i as int].0 is Local);
        assert forall|k: int| 0 <= k < i + 1 implies (#[trigger] steps.deep_view().take(
            i + 1,
        )[k]).0 is Local by {
            if k < i {
                assert(steps.deep_view().take(i as int)[k].0 is Local);
            }
        }
        i += 1;
    }
    assert(steps.deep_view().take(i as int) =~= steps.deep_view());
    true
}

fn push_steps(plan: &mut Vec<Invocation>, steps: &Vec<Step>)
    ensures
        final(plan).deep_view() == old(plan).deep_view() + step_invocations(steps.deep_view()),
{
    let mut i: usize = 0;
    while i < steps.len()
        invariant
            i <= steps.len(),
            plan.deep_view() == old(plan).deep_view() + step_invocations(
                steps.deep_view().take(i as int),
            ),
        decreases steps.len() - i,
    {
        let ghost before = plan.deep_view();
        let invocation = shell(steps[i].1.as_str(), false);
        plan.push(invocation);
        assert(plan.deep_view() =~= before.push(invocation@));
        assert(plan.deep_view() =~= old(plan).deep_view() + step_invocations(
            steps.deep_view().take(i + 1),
        ));
        i += 1;
    }
    assert(steps.deep_view().take(i as int) =~= steps.deep_view());
}

fn image_build_args(image: &Image) -> (args: Vec<String>)
    ensures
        args.deep_view() == build_args(image@),
{
    let mut args: Vec<String> = Vec::new();
    assert(args.deep_view() =~= Seq::<Seq<char>>::empty());
    push_text(&mut args, "build");
    if let Some(options) = &image.options {
        push_all(&mut args, options);
    }
    push_text(&mut args, "-t");
    push_text(&mut args, image.tag.as_str());
    let ghost head = args.deep_view();
    assert(head =~= seq!["build"@] + listed(image@.options) + seq!["-t"@, image@.tag]);
    if let Some(values) = &image.build_args {
        let mut i: usize = 0;
        while i < values.len()
            invariant
                i <= values.len(),
                args.deep_view() == head + values.deep_view().take(i as int).map_values(
                    |value: Seq<char>| build_arg(value),
                ),
            decreases values.len() - i,
        {
            let mut arg = owned("--build-arg=\"");
            arg.append(values[i].as_str());
            arg.append("\"");
            push_string(&mut args, arg);
            assert(args.deep_view() =~= head + values.deep_view().take(i + 1).map_values(
                |value: Seq<char>| build_arg(value),
            ));
            i += 1;
        }
        assert(values.deep_view().take(i as int) =~= values.deep_view());
    } else {
        assert(args.deep_view() =~= head + listed(image@.build_args).map_values(
            |value: Seq<char>| build_arg(value),
        ));
    }
    push_text(&mut args, image.context.as_str());
    assert(args.deep_view() =~= build_args(image@));
    args
}

/// The build of an image: a list of processes, each started only after the
/// one before it has ended with success.
#[derive(Debug)]
pub struct ImageBuild {
    steps: Vec<Invocation>,
    done: usize,
}

/// Mathematical value of an [`ImageBuild`]: its processes, and how many of
/// them have ended with success.
pub struct ImageBuildView {
    pub steps: Seq<InvocationView>,
    pub done: nat,
}

impl View for ImageBuild {
    type V = ImageBuildView;

    closed spec fn view(&self) -> ImageBuildView {
        ImageBuildView { steps: self.steps.deep_view(), done: self.done as nat }
    }
}

impl DeepView for ImageBuild {
    type V = ImageBuildView;

    open spec fn deep_view(&self) -> ImageBuildView {
        self@
    }
}

impl Clone for ImageBuild {
    fn clone(&self) -> (copy: ImageBuild)
        ensures
            copy@ == self@,
    {
        let mut steps: Vec<Invocation> = Vec::new();
        let mut i: usize = 0;
        while i < self.steps.len()
            invariant
                i <= self.steps.len(),
                steps.deep_view() == self.steps.deep_view().take(i as int),
            decreases self.steps.len() - i,
        {
            let ghost before = steps.deep_view();
            let step = self.steps[i].clone();
            steps.push(step);
            assert(steps.deep_view() =~= before.push(step@));
            assert(steps.deep_view() =~= self.steps.deep_view().take(i + 1));
            i += 1;
        }
        assert(self.steps.deep_view().take(i as int) =~= self.steps.deep_view());
        ImageBuild { steps, done: self.done }
    }
}

impl ImageBuild {
    /// Whether every process of the build has ended with success.
    pub open spec fn finished_spec(&self) -> bool {
        self@.done >= self@.steps.len()
    }

    /// Whether every process of the build has ended with success.
    #[verifier::when_used_as_spec(finished_spec)]
    pub fn finished(&self) -> (finished: bool)
        ensures
            finished == self.finished_spec(),
    {
        self.done >= self.steps.len()
    }

    /// The process to run now; none once the build is finished.
    pub fn current(&self) -> (step: Option<&Invocation>)
        ensures
            self@.done < self@.steps.len() ==> (step matches Some(invocation) && invocation@
                == self@.steps[self@.done as int]),
            self@.done >= self@.steps.len() ==> step is None,
    {
        if self.done < self.steps.len() {
            Some(&self.steps[self.done])
        } else {
            None
        }
    }

    /// Records how the current process ended. With success the build moves
    /// on to the next process. Without it the build stays where it is and
    /// the failure is reported. A finished build stays finished.
    pub fn advance(&mut self, succeeded: bool) -> (result: Result<(), JobError>)
        ensures
            final(self)@.steps == old(self)@.steps,
            old(self).finished_spec() ==> result is Ok && final(self)@ == old(self)@,
            !old(self).finished_spec() && succeeded ==> result is Ok && final(self)@.done == old(
                self
            )@.done + 1,
            !old(self).finished_spec() && !succeeded ==> result == Err::<(), JobError>(
                JobError::Io,
            ) && final(self)@ == old(self)@,
    {
        if self.done >= self.steps.len() {
            Ok(())
        } else if succeeded {
            self.done = self.done + 1;
            Ok(())
        } else {
            Err(JobError::Io)
        }
    }
}

/// Plans the build of an image. The build is refused as unsupported where a
/// command before or after it asks for a container to run in; else it
/// consists of the commands before the build, the build, and the commands
/// after it, none of them run yet.
pub fn create_docker_image(docker_image: &Image) -> (result: Result<ImageBuild, JobError>)
    ensures
        image_supported(docker_image@) ==> (result matches Ok(build) && build@ == (ImageBuildView {
            steps: image_steps(docker_image@),
            done: 0,
        })),
        !image_supported(docker_image@) ==> result matches Err(JobError::Unsupported),
{
    if let Some(pre) = &docker_image.pre {
        if !steps_all_local(pre) {
            return Err(JobError::Unsupported);
        }
    }
    if let Some(post) = &docker_image.post {
        if !steps_all_local(post) {
            return Err(JobError::Unsupported);
        }
    }
    let mut steps: Vec<Invocation> = Vec::new();
    assert(steps.deep_view() =~= Seq::<InvocationView>::empty());
    if let Some(pre) = &docker_image.pre {
        push_steps(&mut steps, pre);
    }
    assert(steps.deep_view() =~= step_invocations(listed(docker_image@.pre)));
    let ghost head = steps.deep_view();
    let build = Invocation {
        program: owned("docker"),
        args: image_build_args(docker_image),
        quiet: false,
    };
    steps.push(build);
    assert(steps.deep_view() =~= head.push(build@));
    let ghost middle = steps.deep_view();
    if let Some(post) = &docker_image.post {
        push_steps(&mut steps, post);
    }
    assert(steps.deep_view() =~= middle + step_invocations(listed(docker_image@.post)));
    assert(steps.deep_view() =~= image_steps(docker_image@));
    Ok(ImageBuild { steps, done: 0 })
}

/// The two halves of a pair with `sep` between them.
pub open spec fn pair_text(pair: (Seq<char>, Seq<char>), sep: Seq<char>) -> Seq<char> {
    pair.0 + sep + pair.1
}

/// For each pair in order: `flag`, then the pair written with `sep`.
pub open spec fn flagged_pairs(flag: Seq<char>, pairs: PairsView, sep: Seq<char>) -> Seq<
    Seq<char>,
>
    decreases pairs.len(),
{
    if pairs.len() == 0 {
        Seq::empty()
    } else {
        flagged_pairs(flag, pairs.drop_last(), sep) + seq![flag, pair_text(pairs.last(), sep)]
    }
}

/// The port mapping of a container run.
pub open spec fn port_args(ports: Option<(Seq<char>, Seq<char>)>) -> Seq<Seq<char>> {
    match ports {
        Some(pair) => seq!["-p"@, pair_text(pair, ":"@)],
        None => Seq::empty(),
    }
}

/// The entrypoint of a container run: the flag, the executable, then the
/// executable's arguments.
pub open spec fn entrypoint_args(entrypoint: Option<Seq<Seq<char>>>) -> Seq<Seq<char>> {
    match entrypoint {
        Some(tokens) => seq!["--entrypoint"@] + tokens,
        None => Seq::empty(),
    }
}

/// The health check of a container run: the command, then the interval and
/// the number of retries where they are given.
pub open spec fn health_args(hc: Option<HealthCheckView>) -> Seq<Seq<char>> {
    match hc {
        Some(check) => seq!["--health-cmd"@, check.command.1] + (match check.interval {
            Some(interval) => seq!["--health-interval"@, interval],
            None => Seq::empty(),
        }) + (match check.retries {
            Some(retries) => seq!["--health-retries"@, decimal(retries as nat)],
            None => Seq::empty(),
        }),
        None => Seq::empty(),
    }
}

/// The network of a container run, where one is asked for.
pub open spec fn network_args(network: Option<Seq<char>>) -> Seq<Seq<char>> {
    match network {
        Some(name) => seq!["--net="@ + name],
        None => Seq::empty(),
    }
}

/// The arguments of the container engine for the run of `container`:
/// detached and named, with its environment, port mapping, volumes,
/// entrypoint and health check, on `network` if one is given, and the image
/// reference last.
pub open spec fn run_args(container: ContainerView, network: Option<Seq<char>>) -> Seq<
    Seq<char>,
> {
    seq!["run"@, "-d"@, "--name"@, container.name] + flagged_pairs(
        "--env"@,
        listed(container.env),
        "="@,
    ) + port_args(container.ports) + flagged_pairs("-v"@, listed(container.volumes), ":"@)
        + entrypoint_args(container.entrypoint) + health_args(container.hc) + network_args(
        network,
    ) + seq![container.image]
}

/// Why the run of `container` cannot be planned, if it cannot: an entrypoint
/// without tokens or a health check without a command is invalid; a health
/// check that runs inside a container is unsupported.
pub open spec fn container_error(container: ContainerView) -> Option<JobError> {
    if container.entrypoint matches Some(tokens) && tokens.len() == 0 {
        Some(JobError::Invalid)
    } else if container.hc matches Some(check) && check.command.1.len() == 0 {
        Some(JobError::Invalid)
    } else if container.hc matches Some(check) && check.command.0 is Container {
        Some(JobError::Unsupported)
    } else {
        None
    }
}

fn push_flagged_pairs(args: &mut Vec<String>, flag: &str, pairs: &Vec<(String, String)>, sep: &str)
    ensures
        final(args).deep_view() == old(args).deep_view() + flagged_pairs(
            flag@,
            pairs.deep_view(),
            sep@,
        ),
{
    let mut i: usize = 0;
    assert(pairs.deep_view().take(0) =~= Seq::empty());
    assert(args.deep_view() =~= old(args).deep_view() + flagged_pairs(
        flag@,
        pairs.deep_view().take(0),
        sep@,
    ));
    while i < pairs.len()
        invariant
            i <= pairs.len(),
            args.deep_view() == old(args).deep_view() + flagged_pairs(
                flag@,
                pairs.deep_view().take(i as int),
                sep@,
            ),
        decreases pairs.len() - i,
    {
        let ghost before = pairs.deep_view().take(i as int);
        let ghost after = pairs.deep_view().take(i + 1);
        proof {
            assert(after.drop_last() =~= before);
            assert(after.last() == pairs[i as int].deep_view());
        }
        push_text(args, flag);
        let mut text = pairs[i].0.clone();
        text.append(sep);
        text.append(pairs[i].1.as_str());
        assert(text@ =~= pair_text(pairs[i as int].deep_view(), sep@));
        push_string(args, text);
        assert(args.deep_view() =~= old(args).deep_view() + flagged_pairs(flag@, after, sep@));
        i += 1;
    }
    assert(pairs.deep_view().take(i as int) =~= pairs.deep_view());
}

fn push_optional_pairs(
    args: &mut Vec<String>,
    flag: &str,
    pairs: &Option<Vec<(String, String)>>,
    sep: &str,
)
    ensures
        final(args).deep_view() == old(args).deep_view() + flagged_pairs(
            flag@,
            listed(pairs.deep_view()),
            sep@,
        ),
{
    match pairs {
        Some(list) => {
            push_flagged_pairs(args, flag, list, sep);
        },
        None => {
            assert(args.deep_view() =~= old(args).deep_view() + flagged_pairs(
                flag@,
                listed(pairs.deep_view()),
                sep@,
            ));
        },
    }
}

fn push_ports(args: &mut Vec<String>, ports: &Option<(String, String)>)
    ensures
        final(args).deep_view() == old(args).deep_view() + port_args(ports.deep_view()),
{
    if let Some(pair) = ports {
        push_text(args, "-p");
        let mut text = pair.0.clone();
        text.append(":");
        text.append(pair.1.as_str());
        assert(text@ =~= pair_text(pair.deep_view(), ":"@));
        push_string(args, text);
    }
    assert(args.deep_view() =~= old(args).deep_view() + port_args(ports.deep_view()));
}

fn push_entrypoint(args: &mut Vec<String>, entrypoint: &Option<Vec<String>>)
    ensures
        final(args).deep_view() == old(args).deep_view() + entrypoint_args(
            entrypoint.deep_view(),
        ),
{
    if let Some(tokens) = entrypoint {
        push_text(args, "--entrypoint");
        push_all(args, tokens);
    }
    assert(args.deep_view() =~= old(args).deep_view() + entrypoint_args(entrypoint.deep_view()));
}

fn push_health(args: &mut Vec<String>, hc: &Option<HealthCheck>)
    ensures
        final(args).deep_view() == old(args).deep_view() + health_args(hc.deep_view()),
{
    if let Some(check) = hc {
        push_text(args, "--health-cmd");
        push_text(args, check.command.1.as_str());
        if let Some(interval) = &check.interval {
            push_text(args, "--health-interval");
            push_text(args, interval.as_str());
        }
        if let Some(retries) = check.retries {
            push_text(args, "--health-retries");
            push_string(args, decimal_string(retries));
        }
    }
    assert(args.deep_view() =~= old(args).deep_view() + health_args(hc.deep_view()));
}

fn push_network(args: &mut Vec<String>, network: &Option<String>)
    ensures
        final(args).deep_view() == old(args).deep_view() + network_args(network.deep_view()),
{
    if let Some(name) = network {
        let mut text = owned("--net=");
        text.append(name.as_str());
        push_string(args, text);
    }
    assert(args.deep_view() =~= old(args).deep_view() + network_args(network.deep_view()));
}

fn container_check(container: &Container) -> (error: Option<JobError>)
    ensures
        error == container_error(container@),
{
    if let Some(tokens) = &container.entrypoint {
        if tokens.len() == 0 {
            return Some(JobError::Invalid);
        }
    }
    if let Some(check) = &container.hc {
        if check.command.1.as_str().is_empty() {
            return Some(JobError::Invalid);
        }
        match &check.command.0 {
            ExecutionEnvironment::Local => {},
            ExecutionEnvironment::Container(_) => {
                return Some(JobError::Unsupported);
            },
        }
    }
    None
}

/// Plans the run of a container. An empty entrypoint or an empty health
/// check command makes the recipe invalid, a health check command that runs
/// inside a container makes it unsupported; every other recipe gives the
/// container engine's invocation, with its output discarded.
pub fn run_docker_container(docker_container: &Container, network: &Option<String>) -> (result:
    Result<Invocation, JobError>)
    ensures
        match container_error(docker_container@) {
            Some(error) => result == Err::<Invocation, JobError>(error),
            None => result matches Ok(invocation) && invocation@ == (InvocationView {
                program: "docker"@,
                args: run_args(docker_container@, network.deep_view()),
                quiet: true,
            }),
        },
{
    if let Some(error) = container_check(docker_container) {
        return Err(error);
    }
    let ghost container = docker_container@;
    let mut args: Vec<String> = Vec::new();
    assert(args.deep_view() =~= Seq::<Seq<char>>::empty());
    push_text(&mut args, "run");
    push_text(&mut args, "-d");
    push_text(&mut args, "--name");
    push_text(&mut args, docker_container.name.as_str());
    assert(args.deep_view() =~= seq!["run"@, "-d"@, "--name"@, container.name]);
    let ghost named = args.deep_view();
    push_optional_pairs(&mut args, "--env", &docker_container.env, "=");
    let ghost with_env = args.deep_view();
    push_ports(&mut args, &docker_container.ports);
    let ghost with_ports = args.deep_view();
    push_optional_pairs(&mut args, "-v", &docker_container.volumes, ":");
    let ghost with_volumes = args.deep_view();
    push_entrypoint(&mut args, &docker_container.entrypoint);
    let ghost with_entrypoint = args.deep_view();
    push_health(&mut args, &docker_container.hc);
    let ghost with_health = args.deep_view();
    push_network(&mut args, network);
    let ghost with_network = args.deep_view();
    push_text(&mut args, docker_container.image.as_str());
    proof {
        assert(with_env == named + flagged_pairs("--env"@, listed(container.env), "="@));
        assert(with_ports == with_env + port_args(container.ports));
        assert(with_volumes == with_ports + flagged_pairs("-v"@, listed(container.volumes), ":"@));
        assert(with_entrypoint == with_volumes + entrypoint_args(container.entrypoint));
        assert(with_health == with_entrypoint + health_args(container.hc));
        assert(with_network == with_health + network_args(network.deep_view()));
        assert(args.deep_view() == with_network.push(container.image));
        assert(args.deep_view() =~= with_network + seq![container.image]);
        assert(args.deep_view() == run_args(container, network.deep_view()));
    }
    Ok(Invocation { program: owned("docker"), args, quiet: true })
}

/// A shell script together with the environment it is started in.
#[derive(Debug)]
pub struct ShellRun {
    /// The pairs to put into the environment before the script starts, in
    /// order.
    pub env: Vec<(String, String)>,
    pub invocation: Invocation,
}

/// Mathematical value of a [`ShellRun`].
pub struct ShellRunView {
    pub env: PairsView,
    pub invocation: InvocationView,
}

impl View for ShellRun {
    type V = ShellRunView;

    open spec fn view(&self) -> ShellRunView {
        ShellRunView { env: self.env.deep_view(), invocation: self.invocation@ }
    }
}

impl DeepView for ShellRun {
    type V = ShellRunView;

    open spec fn deep_view(&self) -> ShellRunView {
        self@
    }
}

impl Clone for ShellRun {
    fn clone(&self) -> (copy: ShellRun)
        ensures
            copy@ == self@,
    {
        ShellRun { env: copy_pairs(&self.env), invocation: self.invocation.clone() }
    }
}

/// The one script that runs the commands of `shell` in order, each only if
/// the one before it succeeded, after the environment of `shell` was applied.
pub open spec fn shell_run(shell: ShellView) -> ShellRunView {
    ShellRunView {
        env: listed(shell.env),
        invocation: shell_invocation(joined(shell.commands, " && "@), false),
    }
}

/// Plans the run of a shell script: the environment to apply, and one shell
/// invocation of the commands joined by `&&`.
pub fn run_shell_script(shell: &Shell) -> (run: ShellRun)
    ensures
        run@ == shell_run(shell@),
{
    let env = match &shell.env {
        Some(pairs) => copy_pairs(pairs),
        None => {
            let empty: Vec<(String, String)> = Vec::new();
            assert(empty.deep_view() =~= Seq::<(Seq<char>, Seq<char>)>::empty());
            empty
        },
    };
    let script = join(&shell.commands, " && ");
    ShellRun { env, invocation: self::shell(script.as_str(), false) }
}

} // verus!
