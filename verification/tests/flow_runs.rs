use runer::engine::error::{FlowError, JobError, TaskError, TaskFailure};
use runer::engine::executor::{
    check_package_dependencies, execute_flow, plan_probes, Action, Event, ExitOutcome, FlowRun,
    ProbeOutcome, Runner, SpawnOutcome,
};
use runer::engine::state::{HandleState, State};
use runer::engine::task::{run_task, Job};
use runer::model::runer::{
    Blueprint, Container, ExecutionEnvironment, Flow, Image, JobType, Rune, Shell, Task, TaskType,
};

/// Stands in for the subprocess driver: it starts nothing and keeps a record
/// of what it was asked to do.
struct FakeDriver {
    missing_packages: Vec<String>,
    failing_tasks: Vec<u32>,
    lost_tasks: Vec<u32>,
    unstartable_tasks: Vec<u32>,
    running: Vec<(u32, Option<String>)>,
    record: Vec<String>,
    stdout: Vec<String>,
    environment: Vec<(String, String)>,
}

impl FakeDriver {
    fn new() -> FakeDriver {
        FakeDriver {
            missing_packages: Vec::new(),
            failing_tasks: Vec::new(),
            lost_tasks: Vec::new(),
            unstartable_tasks: Vec::new(),
            running: Vec::new(),
            record: Vec::new(),
            stdout: Vec::new(),
            environment: Vec::new(),
        }
    }

    fn spawn(&mut self, task_id: u32, job: Job) -> SpawnOutcome {
        if self.unstartable_tasks.contains(&task_id) {
            return SpawnOutcome::Failed(JobError::Io);
        }
        self.record.push(format!("spawn {}", task_id));
        match job {
            Job::ApplyEnv(pairs) => {
                self.environment.extend(pairs);
                SpawnOutcome::Finished
            },
            Job::BuildImage(mut build) => {
                while let Some(step) = build.current() {
                    self.record.push(format!("step {} {}", step.program, step.args.join(" ")));
                    if build.advance(true).is_err() {
                        return SpawnOutcome::Failed(JobError::Io);
                    }
                }
                SpawnOutcome::Finished
            },
            Job::RunShell(run) => {
                self.environment.extend(run.env);
                let script = run.invocation.args[1].clone();
                self.running.push((task_id, script.strip_prefix("echo ").map(str::to_string)));
                SpawnOutcome::Running
            },
            Job::RunContainer(_) => {
                self.running.push((task_id, None));
                SpawnOutcome::Running
            },
        }
    }

    fn wait(&mut self) -> Event {
        let (task_id, output) = self.running.remove(0);
        let outcome = if self.lost_tasks.contains(&task_id) {
            ExitOutcome::Unknown
        } else if self.failing_tasks.contains(&task_id) {
            ExitOutcome::Failure
        } else {
            if let Some(line) = output {
                self.stdout.push(line);
            }
            ExitOutcome::Success
        };
        self.record.push(format!("exit {}", task_id));
        Event::Exited { task_id, outcome }
    }

    fn drive(&mut self, mut run: FlowRun) -> (Result<(), FlowError>, FlowRun) {
        for _ in 0..1000 {
            let event = match run.action() {
                Action::Probe(probes) => {
                    let mut outcomes = Vec::new();
                    for probe in probes {
                        assert_eq!(probe.invocation.program, "sh");
                        assert_eq!(
                            probe.invocation.args,
                            vec!["-c".to_string(), format!("command -v {}", probe.name)]
                        );
                        assert!(probe.invocation.quiet);
                        self.record.push(format!("probe {}", probe.name));
                        if self.missing_packages.contains(&probe.name) {
                            outcomes.push(ProbeOutcome::Missing);
                        } else {
                            outcomes.push(ProbeOutcome::Found);
                        }
                    }
                    Event::Probed(outcomes)
                },
                Action::Spawn { task_id, job } => Event::Spawned(self.spawn(task_id, job)),
                Action::Wait => self.wait(),
                Action::Finish(result) => {
                    assert!(run.finished());
                    return (result, run);
                },
            };
            assert!(!run.finished());
            run = run.apply(event);
        }
        panic!("the run did not end");
    }
}

fn shell_blueprint(commands: &[&str]) -> Blueprint {
    Blueprint {
        _env: None,
        image: None,
        container: None,
        shell: Some(Shell {
            commands: commands.iter().map(|command| command.to_string()).collect(),
            env: None,
        }),
    }
}

fn task(id: u32, name: &str, depends: Option<u32>) -> Task {
    Task { id, typ: TaskType::Blueprint, name: name.to_string(), job: JobType::Shell, depends }
}

fn state_of(blueprints: Vec<(&str, Blueprint)>, tasks: Vec<Task>, packages: Option<Vec<&str>>) -> State {
    State::default().from_rune(Rune {
        blueprints: Some(blueprints.into_iter().map(|(name, b)| (name.to_string(), b)).collect()),
        env: None,
        flows: Some(vec![Flow {
            name: "flow".to_string(),
            tasks,
            pkg_dependencies: packages
                .map(|names| names.into_iter().map(|name| name.to_string()).collect()),
        }]),
    })
}

fn position(record: &[String], entry: &str) -> usize {
    record.iter().position(|line| line == entry).unwrap()
}

#[test]
fn linear_chain_runs_in_order() {
    let state = state_of(
        vec![("a", shell_blueprint(&["echo a"])), ("b", shell_blueprint(&["echo b"]))],
        vec![task(1, "a", None), task(2, "b", Some(1))],
        None,
    );
    let mut driver = FakeDriver::new();
    let (result, run) = driver.drive(execute_flow(0, &state, &None).unwrap());
    assert_eq!(result, Ok(()));
    assert_eq!(driver.stdout, vec!["a".to_string(), "b".to_string()]);
    assert_eq!(driver.record, vec!["spawn 1", "exit 1", "spawn 2", "exit 2"]);
    assert_eq!(run.registry().status(1), Some(HandleState::Succeeded));
    assert_eq!(run.registry().status(2), Some(HandleState::Succeeded));
    assert_eq!(run.runners(), &vec![Runner::Published, Runner::Published]);
    assert!(run.failures().is_empty());
}

#[test]
fn child_declared_before_its_parent_still_starts_after_it() {
    let state = state_of(
        vec![("a", shell_blueprint(&["echo a"])), ("b", shell_blueprint(&["echo b"]))],
        vec![task(2, "b", Some(1)), task(1, "a", None)],
        None,
    );
    let mut driver = FakeDriver::new();
    let (result, _) = driver.drive(execute_flow(0, &state, &None).unwrap());
    assert_eq!(result, Ok(()));
    assert_eq!(driver.record, vec!["spawn 1", "exit 1", "spawn 2", "exit 2"]);
}

#[test]
fn fan_out_starts_every_task_before_it_waits() {
    let state = state_of(
        vec![("a", shell_blueprint(&["echo a"]))],
        vec![task(1, "a", None), task(2, "a", None), task(3, "a", None)],
        None,
    );
    let mut driver = FakeDriver::new();
    let (result, run) = driver.drive(execute_flow(0, &state, &None).unwrap());
    assert_eq!(result, Ok(()));
    assert_eq!(&driver.record[..3], ["spawn 1", "spawn 2", "spawn 3"]);
    assert_eq!(run.registry().len(), 3);
    for id in [1, 2, 3] {
        assert_eq!(run.registry().status(id), Some(HandleState::Succeeded));
    }
}

#[test]
fn parent_failure_blocks_the_child() {
    let state = state_of(
        vec![("a", shell_blueprint(&["false"])), ("b", shell_blueprint(&["echo b"]))],
        vec![task(1, "a", None), task(2, "b", Some(1))],
        None,
    );
    let mut driver = FakeDriver::new();
    driver.failing_tasks.push(1);
    let (result, run) = driver.drive(execute_flow(0, &state, &None).unwrap());
    assert_eq!(
        result,
        Err(FlowError::FlowFailed(vec![
            TaskFailure { task_id: 1, error: TaskError::ExitFailure },
            TaskFailure { task_id: 2, error: TaskError::Blocked(1) },
        ]))
    );
    assert_eq!(driver.record, vec!["spawn 1", "exit 1"]);
    assert!(driver.stdout.is_empty());
    assert_eq!(run.registry().status(1), Some(HandleState::Failed));
    assert_eq!(run.registry().status(2), None);
    assert_eq!(run.registry().len(), 1);
    assert_eq!(run.runners(), &vec![Runner::Published, Runner::Absent]);
}

#[test]
fn block_reaches_the_grandchild() {
    let state = state_of(
        vec![("a", shell_blueprint(&["false"]))],
        vec![task(3, "a", Some(2)), task(2, "a", Some(1)), task(1, "a", None), task(4, "a", None)],
        None,
    );
    let mut driver = FakeDriver::new();
    driver.failing_tasks.push(1);
    let (result, run) = driver.drive(execute_flow(0, &state, &None).unwrap());
    assert_eq!(
        result,
        Err(FlowError::FlowFailed(vec![
            TaskFailure { task_id: 1, error: TaskError::ExitFailure },
            TaskFailure { task_id: 2, error: TaskError::Blocked(1) },
            TaskFailure { task_id: 3, error: TaskError::Blocked(2) },
        ]))
    );
    assert_eq!(driver.record, vec!["spawn 1", "spawn 4", "exit 1", "exit 4"]);
    assert_eq!(
        run.runners(),
        &vec![Runner::Absent, Runner::Absent, Runner::Published, Runner::Published]
    );
}

#[test]
fn missing_blueprint_is_reported() {
    let state = state_of(vec![("a", shell_blueprint(&["echo a"]))], vec![task(1, "zzz", None)], None);
    let flow = &state.flows.as_ref().unwrap()[0];
    assert_eq!(
        run_task(&flow.tasks[0], state.blueprints.as_ref().unwrap(), &Vec::new(), &None)
            .unwrap_err(),
        TaskError::BlueprintNotFound("zzz".to_string())
    );
    let mut driver = FakeDriver::new();
    let (result, run) = driver.drive(execute_flow(0, &state, &None).unwrap());
    assert_eq!(
        result,
        Err(FlowError::FlowFailed(vec![TaskFailure {
            task_id: 1,
            error: TaskError::BlueprintNotFound("zzz".to_string()),
        }]))
    );
    assert!(driver.record.is_empty());
    assert_eq!(run.registry().len(), 0);
}

#[test]
fn missing_package_ends_the_run_before_any_task() {
    let state = state_of(
        vec![("a", shell_blueprint(&["echo a"]))],
        vec![task(1, "a", None)],
        Some(vec!["sh", "definitely-not-a-real-tool", "docker"]),
    );
    let mut driver = FakeDriver::new();
    driver.missing_packages.push("definitely-not-a-real-tool".to_string());
    let (result, run) = driver.drive(execute_flow(0, &state, &None).unwrap());
    assert_eq!(
        result,
        Err(FlowError::MissingDependency("definitely-not-a-real-tool".to_string()))
    );
    assert_eq!(
        driver.record,
        vec!["probe sh", "probe definitely-not-a-real-tool", "probe docker"]
    );
    assert_eq!(run.runners(), &vec![Runner::Waiting]);
    assert_eq!(run.registry().len(), 0);
}

#[test]
fn packages_are_probed_in_order_before_the_tasks() {
    let state = state_of(
        vec![("a", shell_blueprint(&["echo a"]))],
        vec![task(1, "a", None)],
        Some(vec!["sh", "docker"]),
    );
    let mut driver = FakeDriver::new();
    let (result, _) = driver.drive(execute_flow(0, &state, &None).unwrap());
    assert_eq!(result, Ok(()));
    assert_eq!(driver.record, vec!["probe sh", "probe docker", "spawn 1", "exit 1"]);
}

#[test]
fn probe_that_cannot_run_ends_the_run() {
    let state = state_of(
        vec![("a", shell_blueprint(&["echo a"]))],
        vec![task(1, "a", None)],
        Some(vec!["sh"]),
    );
    let run = execute_flow(0, &state, &None).unwrap();
    let run = run.apply(Event::Probed(vec![ProbeOutcome::Io]));
    assert!(matches!(run.action(), Action::Finish(Err(FlowError::Io))));
}

#[test]
fn probes_without_an_outcome_end_the_run() {
    let state = state_of(
        vec![("a", shell_blueprint(&["echo a"]))],
        vec![task(1, "a", None)],
        Some(vec!["sh", "docker"]),
    );
    let run = execute_flow(0, &state, &None).unwrap();
    let run = run.apply(Event::Probed(vec![ProbeOutcome::Found]));
    assert!(matches!(run.action(), Action::Finish(Err(FlowError::Io))));
    assert_eq!(run.runners(), &vec![Runner::Waiting]);
}

#[test]
fn first_package_that_is_missing_is_reported() {
    let deps = vec!["a".to_string(), "b".to_string(), "c".to_string()];
    let found = ProbeOutcome::Found;
    let missing = ProbeOutcome::Missing;
    assert_eq!(check_package_dependencies(&deps, &vec![found, found, found]), Ok(()));
    assert_eq!(check_package_dependencies(&deps, &vec![found, found, found, missing]), Ok(()));
    assert_eq!(check_package_dependencies(&Vec::new(), &Vec::new()), Ok(()));
    assert_eq!(check_package_dependencies(&Vec::new(), &vec![missing]), Ok(()));
    assert_eq!(
        check_package_dependencies(&deps, &vec![found, missing, missing]),
        Err(FlowError::MissingDependency("b".to_string()))
    );
    assert_eq!(
        check_package_dependencies(&deps, &vec![missing, ProbeOutcome::Io, found]),
        Err(FlowError::MissingDependency("a".to_string()))
    );
    assert_eq!(
        check_package_dependencies(&deps, &vec![found, ProbeOutcome::Io, missing]),
        Err(FlowError::Io)
    );
    assert_eq!(check_package_dependencies(&deps, &vec![found, found]), Err(FlowError::Io));
    assert_eq!(check_package_dependencies(&deps, &Vec::new()), Err(FlowError::Io));
}

#[test]
fn probes_look_each_package_up_through_the_shell() {
    let probes = plan_probes(&vec!["docker".to_string(), "nc".to_string()]);
    assert_eq!(probes.len(), 2);
    assert_eq!(probes[0].name, "docker");
    assert_eq!(probes[0].invocation.program, "sh");
    assert_eq!(probes[0].invocation.args, vec!["-c".to_string(), "command -v docker".to_string()]);
    assert!(probes[0].invocation.quiet);
    assert_eq!(probes[1].name, "nc");
    assert_eq!(probes[1].invocation.args, vec!["-c".to_string(), "command -v nc".to_string()]);
    assert!(plan_probes(&Vec::new()).is_empty());
}

#[test]
fn env_task_applies_its_bundle() {
    let state = State::default().from_rune(Rune {
        blueprints: None,
        env: Some(vec![("cfg".to_string(), vec![("K".to_string(), "V".to_string())])]),
        flows: Some(vec![Flow {
            name: "flow".to_string(),
            tasks: vec![Task {
                id: 1,
                typ: TaskType::Env,
                name: "cfg".to_string(),
                job: JobType::SetEnv,
                depends: None,
            }],
            pkg_dependencies: None,
        }]),
    });
    let mut driver = FakeDriver::new();
    let (result, run) = driver.drive(execute_flow(0, &state, &None).unwrap());
    assert_eq!(result, Ok(()));
    assert_eq!(driver.environment, vec![("K".to_string(), "V".to_string())]);
    assert_eq!(run.registry().len(), 1);
    assert_eq!(run.registry().status(1), Some(HandleState::Succeeded));
}

#[test]
fn flows_that_cannot_run_are_refused() {
    let state = state_of(vec![], vec![task(1, "a", None)], None);
    assert_eq!(execute_flow(1, &state, &None).unwrap_err(), FlowError::NoSuchFlow);
    assert_eq!(execute_flow(0, &State::default(), &None).unwrap_err(), FlowError::NoSuchFlow);
    let empty = state_of(vec![], vec![], None);
    assert_eq!(execute_flow(0, &empty, &None).unwrap_err(), FlowError::EmptyFlow);
    let twice = state_of(vec![], vec![task(1, "a", None), task(2, "a", None), task(1, "a", None)], None);
    assert_eq!(execute_flow(0, &twice, &None).unwrap_err(), FlowError::Duplicate(1));
}

#[test]
fn cyclic_flow_is_refused_before_anything_is_asked() {
    let state = state_of(
        vec![("a", shell_blueprint(&["echo a"]))],
        vec![task(1, "a", Some(2)), task(2, "a", Some(1)), task(3, "a", None)],
        Some(vec!["definitely-not-a-real-tool"]),
    );
    assert_eq!(execute_flow(0, &state, &None).unwrap_err(), FlowError::CyclicDependency);
    let both = state_of(vec![], vec![task(1, "a", Some(1)), task(1, "a", None)], None);
    assert_eq!(execute_flow(0, &both, &None).unwrap_err(), FlowError::CyclicDependency);
}

#[test]
fn parent_that_is_no_task_blocks_the_child() {
    let state = state_of(
        vec![("a", shell_blueprint(&["echo a"]))],
        vec![task(1, "a", Some(9)), task(2, "a", None)],
        None,
    );
    let mut driver = FakeDriver::new();
    let (result, _) = driver.drive(execute_flow(0, &state, &None).unwrap());
    assert_eq!(
        result,
        Err(FlowError::FlowFailed(vec![TaskFailure { task_id: 1, error: TaskError::Blocked(9) }]))
    );
    assert_eq!(driver.record, vec!["spawn 2", "exit 2"]);
}

#[test]
fn job_that_cannot_start_is_an_absent_handle() {
    let state = state_of(
        vec![("a", shell_blueprint(&["echo a"]))],
        vec![task(1, "a", None), task(2, "a", Some(1))],
        None,
    );
    let mut driver = FakeDriver::new();
    driver.unstartable_tasks.push(1);
    let (result, run) = driver.drive(execute_flow(0, &state, &None).unwrap());
    assert_eq!(
        result,
        Err(FlowError::FlowFailed(vec![
            TaskFailure { task_id: 1, error: TaskError::Io },
            TaskFailure { task_id: 2, error: TaskError::Blocked(1) },
        ]))
    );
    assert_eq!(run.registry().len(), 0);
    assert_eq!(run.runners(), &vec![Runner::Absent, Runner::Absent]);
}

#[test]
fn process_whose_end_is_lost_is_a_wait_failure() {
    let state = state_of(vec![("a", shell_blueprint(&["echo a"]))], vec![task(7, "a", None)], None);
    let mut driver = FakeDriver::new();
    driver.lost_tasks.push(7);
    let (result, run) = driver.drive(execute_flow(0, &state, &None).unwrap());
    assert_eq!(
        result,
        Err(FlowError::FlowFailed(vec![TaskFailure { task_id: 7, error: TaskError::WaitFailure }]))
    );
    assert_eq!(run.registry().status(7), Some(HandleState::Failed));
}

#[test]
fn event_that_answers_nothing_changes_nothing() {
    let state = state_of(
        vec![("a", shell_blueprint(&["echo a"]))],
        vec![task(1, "a", None)],
        Some(vec!["sh"]),
    );
    let run = execute_flow(0, &state, &None).unwrap();
    let run = run.apply(Event::Spawned(SpawnOutcome::Running));
    let run = run.apply(Event::Exited { task_id: 1, outcome: ExitOutcome::Success });
    assert!(matches!(run.action(), Action::Probe(_)));
    assert_eq!(run.runners(), &vec![Runner::Waiting]);
    let run = run.apply(Event::Probed(vec![ProbeOutcome::Found]));
    assert!(matches!(run.action(), Action::Spawn { task_id: 1, .. }));
    let run = run.apply(Event::Probed(vec![ProbeOutcome::Missing]));
    let run = run.apply(Event::Exited { task_id: 1, outcome: ExitOutcome::Success });
    assert!(matches!(run.action(), Action::Spawn { task_id: 1, .. }));
    assert_eq!(run.runners(), &vec![Runner::Dispatching]);
    let run = run.apply(Event::Spawned(SpawnOutcome::Running));
    assert!(matches!(run.action(), Action::Wait));
    let run = run.apply(Event::Exited { task_id: 5, outcome: ExitOutcome::Success });
    assert!(matches!(run.action(), Action::Wait));
    assert_eq!(run.registry().status(1), Some(HandleState::Running));
    let run = run.apply(Event::Exited { task_id: 1, outcome: ExitOutcome::Success });
    assert!(matches!(run.action(), Action::Finish(Ok(()))));
    let run = run.apply(Event::Exited { task_id: 1, outcome: ExitOutcome::Failure });
    assert!(matches!(run.action(), Action::Finish(Ok(()))));
    assert_eq!(run.registry().status(1), Some(HandleState::Succeeded));
}

#[test]
fn dispatch_follows_type_and_job() {
    let blueprints = vec![
        ("sh".to_string(), shell_blueprint(&["true"])),
        (
            "img".to_string(),
            Blueprint {
                _env: None,
                image: Some(Image {
                    context: ".".to_string(),
                    tag: "t".to_string(),
                    options: None,
                    build_args: None,
                    pre: Some(vec![(ExecutionEnvironment::Container(None), "x".to_string())]),
                    post: None,
                }),
                container: Some(Container {
                    name: "c".to_string(),
                    image: "i".to_string(),
                    options: None,
                    ports: None,
                    env: None,
                    volumes: None,
                    entrypoint: Some(Vec::new()),
                    hc: None,
                }),
                shell: None,
            },
        ),
    ];
    let env = vec![("cfg".to_string(), vec![("K".to_string(), "V".to_string())])];
    let check = |typ: TaskType, name: &str, job: JobType| {
        run_task(
            &Task { id: 1, typ, name: name.to_string(), job, depends: None },
            &blueprints,
            &env,
            &None,
        )
    };
    assert!(matches!(check(TaskType::Blueprint, "sh", JobType::Shell), Ok(Job::RunShell(_))));
    assert_eq!(
        check(TaskType::Blueprint, "sh", JobType::Image).unwrap_err(),
        TaskError::VariantMissing
    );
    assert_eq!(
        check(TaskType::Blueprint, "sh", JobType::Container).unwrap_err(),
        TaskError::VariantMissing
    );
    assert_eq!(
        check(TaskType::Blueprint, "img", JobType::Shell).unwrap_err(),
        TaskError::VariantMissing
    );
    assert_eq!(
        check(TaskType::Blueprint, "img", JobType::Image).unwrap_err(),
        TaskError::Unsupported
    );
    assert_eq!(
        check(TaskType::Blueprint, "img", JobType::Container).unwrap_err(),
        TaskError::Invalid
    );
    assert_eq!(
        check(TaskType::Blueprint, "nowhere", JobType::SetEnv).unwrap_err(),
        TaskError::Unsupported
    );
    assert_eq!(
        check(TaskType::Blueprint, "nowhere", JobType::Shell).unwrap_err(),
        TaskError::BlueprintNotFound("nowhere".to_string())
    );
    assert_eq!(check(TaskType::Env, "cfg", JobType::Shell).unwrap_err(), TaskError::Invalid);
    assert_eq!(
        check(TaskType::Env, "none", JobType::SetEnv).unwrap_err(),
        TaskError::EnvBundleNotFound("none".to_string())
    );
    match check(TaskType::Env, "cfg", JobType::SetEnv) {
        Ok(Job::ApplyEnv(pairs)) => assert_eq!(pairs, vec![("K".to_string(), "V".to_string())]),
        other => panic!("unexpected job {:?}", other),
    }
}

#[test]
fn image_task_runs_its_steps_and_is_finished_at_once() {
    let state = State::default().from_rune(Rune {
        blueprints: Some(vec![(
            "img".to_string(),
            Blueprint {
                _env: None,
                image: Some(Image {
                    context: "ctx".to_string(),
                    tag: "app".to_string(),
                    options: None,
                    build_args: None,
                    pre: Some(vec![(ExecutionEnvironment::Local, "make".to_string())]),
                    post: None,
                }),
                container: None,
                shell: None,
            },
        )]),
        env: None,
        flows: Some(vec![Flow {
            name: "flow".to_string(),
            tasks: vec![
                Task {
                    id: 1,
                    typ: TaskType::Blueprint,
                    name: "img".to_string(),
                    job: JobType::Image,
                    depends: None,
                },
                Task {
                    id: 2,
                    typ: TaskType::Blueprint,
                    name: "img".to_string(),
                    job: JobType::Image,
                    depends: Some(1),
                },
            ],
            pkg_dependencies: None,
        }]),
    });
    let mut driver = FakeDriver::new();
    let (result, run) = driver.drive(execute_flow(0, &state, &None).unwrap());
    assert_eq!(result, Ok(()));
    assert_eq!(position(&driver.record, "spawn 1"), 0);
    assert_eq!(
        driver.record,
        vec![
            "spawn 1",
            "step sh -c make",
            "step docker build -t app ctx",
            "spawn 2",
            "step sh -c make",
            "step docker build -t app ctx",
        ]
    );
    assert_eq!(run.registry().status(2), Some(HandleState::Succeeded));
}
