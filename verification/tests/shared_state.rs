use runer::engine::error::FlowError;
use runer::engine::extractor::{analyze_fragments, is_rune_file, Fragments};
use runer::engine::state::{find_named, HandleState, Registry, State};
use runer::engine::task::{poll_parent, ParentWait};
use runer::model::commandline::{Mode, RunArgs};
use runer::model::runer::{Blueprint, Flow, JobType, Rune, Shell, Task, TaskType};
use runer::start_up::{handle_mod, FrontEnd, StartUp};

fn blueprint(command: &str) -> Blueprint {
    Blueprint {
        _env: None,
        image: None,
        container: None,
        shell: Some(Shell { commands: vec![command.to_string()], env: None }),
    }
}

fn one_task_flow() -> Flow {
    Flow {
        name: "f".to_string(),
        tasks: vec![Task {
            id: 1,
            typ: TaskType::Blueprint,
            name: "a".to_string(),
            job: JobType::Shell,
            depends: None,
        }],
        pkg_dependencies: None,
    }
}

#[test]
fn registry_keeps_the_first_entry_of_a_task() {
    let mut registry = Registry::new();
    assert_eq!(registry.len(), 0);
    assert_eq!(registry.status(3), None);
    assert_eq!(registry.insert(3, HandleState::Running), Ok(()));
    assert_eq!(registry.insert(4, HandleState::Succeeded), Ok(()));
    assert_eq!(registry.insert(3, HandleState::Failed), Err(FlowError::Duplicate(3)));
    assert_eq!(registry.status(3), Some(HandleState::Running));
    assert_eq!(registry.status(4), Some(HandleState::Succeeded));
    assert_eq!(registry.len(), 2);
}

#[test]
fn registry_settles_only_running_entries() {
    let mut registry = Registry::new();
    assert!(!registry.settle(1, true));
    assert_eq!(registry.status(1), None);
    registry.insert(1, HandleState::Running).unwrap();
    registry.insert(2, HandleState::Running).unwrap();
    assert!(registry.settle(1, true));
    assert!(registry.settle(2, false));
    assert_eq!(registry.status(1), Some(HandleState::Succeeded));
    assert_eq!(registry.status(2), Some(HandleState::Failed));
    assert!(!registry.settle(1, false));
    assert!(!registry.settle(2, true));
    assert_eq!(registry.status(1), Some(HandleState::Succeeded));
    assert_eq!(registry.status(2), Some(HandleState::Failed));
}

#[test]
fn parent_wait_follows_the_registry() {
    let mut registry = Registry::new();
    assert_eq!(poll_parent(1, &registry), ParentWait::Unpublished);
    registry.insert(1, HandleState::Running).unwrap();
    assert_eq!(poll_parent(1, &registry), ParentWait::Running);
    registry.settle(1, true);
    assert_eq!(poll_parent(1, &registry), ParentWait::Ready);
    registry.insert(2, HandleState::Failed).unwrap();
    assert_eq!(poll_parent(2, &registry), ParentWait::Blocked);
    assert_eq!(poll_parent(3, &registry), ParentWait::Unpublished);
}

#[test]
fn default_state_is_empty() {
    let state = State::default();
    assert!(state.blueprints.is_none());
    assert!(state.env.is_none());
    assert!(state.flows.is_none());
    assert!(state.handles.is_none());
}

#[test]
fn state_takes_the_fragments_of_the_rune() {
    let rune = Rune {
        blueprints: Some(vec![("a".to_string(), blueprint("echo a"))]),
        env: None,
        flows: Some(vec![one_task_flow()]),
    };
    let state = State::default().from_rune(rune);
    assert_eq!(state.blueprints.as_ref().unwrap().len(), 1);
    assert!(state.env.is_none());
    assert_eq!(state.flows.as_ref().unwrap().len(), 1);
    assert_eq!(state.handles.as_ref().unwrap().len(), 0);
}

#[test]
fn state_without_flows_has_no_registry() {
    let rune = Rune {
        blueprints: None,
        env: Some(vec![("cfg".to_string(), vec![("K".to_string(), "V".to_string())])]),
        flows: None,
    };
    let state = State::default().from_rune(rune);
    assert!(state.blueprints.is_none());
    assert_eq!(state.env.as_ref().unwrap()[0].0, "cfg");
    assert!(state.flows.is_none());
    assert!(state.handles.is_none());
}

#[test]
fn blueprint_names_are_listed_one_on_each_line() {
    let rune = Rune {
        blueprints: Some(vec![
            ("web".to_string(), blueprint("echo web")),
            ("db".to_string(), blueprint("echo db")),
            ("cache".to_string(), blueprint("echo cache")),
        ]),
        env: None,
        flows: None,
    };
    assert_eq!(State::default().from_rune(rune).serialize_blueprints(), "web\ndb\ncache");
    assert_eq!(State::default().serialize_blueprints(), "");
    let single = Rune {
        blueprints: Some(vec![("only".to_string(), blueprint("true"))]),
        env: None,
        flows: None,
    };
    assert_eq!(State::default().from_rune(single).serialize_blueprints(), "only");
}

#[test]
fn find_named_gives_the_first_entry_with_the_name() {
    let entries = vec![
        ("a".to_string(), "first".to_string()),
        ("b".to_string(), "second".to_string()),
        ("a".to_string(), "third".to_string()),
    ];
    assert_eq!(find_named(&entries, &"a".to_string()), Some(&"first".to_string()));
    assert_eq!(find_named(&entries, &"b".to_string()), Some(&"second".to_string()));
    assert_eq!(find_named(&entries, &"c".to_string()), None);
}

#[test]
fn only_names_that_end_in_the_extension_are_rune_files() {
    assert!(is_rune_file(".runer"));
    assert!(is_rune_file("deploy.runer"));
    assert!(is_rune_file("dir/\u{e9}t\u{e9}.runer"));
    assert!(!is_rune_file(""));
    assert!(!is_rune_file("runer"));
    assert!(!is_rune_file("deploy.runer.yaml"));
    assert!(!is_rune_file("deploy.Runer"));
    assert!(!is_rune_file("deploy.rune"));
}

#[test]
fn fragments_are_counted() {
    let rune = Rune {
        blueprints: Some(vec![
            ("a".to_string(), blueprint("echo a")),
            ("b".to_string(), blueprint("echo b")),
        ]),
        env: None,
        flows: Some(Vec::new()),
    };
    assert_eq!(
        analyze_fragments(&rune),
        Fragments { blueprints: Some(2), flows: Some(0), env: None }
    );
}

#[test]
fn run_mode_runs_the_first_flow_of_the_given_file() {
    match handle_mod(Mode::Run(RunArgs { file: Some("x.runer".to_string()) })) {
        StartUp::Run { file, flow_idx } => {
            assert_eq!(file, "x.runer");
            assert_eq!(flow_idx, 0);
        },
        other => panic!("unexpected plan {:?}", other),
    }
}

#[test]
fn run_mode_falls_back_to_the_default_file() {
    match handle_mod(Mode::Run(RunArgs { file: None })) {
        StartUp::Run { file, flow_idx } => {
            assert_eq!(file, ".runer");
            assert_eq!(flow_idx, 0);
        },
        other => panic!("unexpected plan {:?}", other),
    }
}

#[test]
fn the_other_modes_are_reserved() {
    assert!(matches!(handle_mod(Mode::Cli), StartUp::NotImplemented(FrontEnd::Cli)));
    assert!(matches!(handle_mod(Mode::Desktop), StartUp::NotImplemented(FrontEnd::Desktop)));
}

#[test]
fn clone_of_a_flow_holds_the_same_tasks() {
    let mut flow = one_task_flow();
    flow.tasks.push(Task {
        id: 2,
        typ: TaskType::Env,
        name: "cfg".to_string(),
        job: JobType::SetEnv,
        depends: Some(1),
    });
    flow.pkg_dependencies = Some(vec!["sh".to_string(), "docker".to_string()]);
    let copy = flow.clone();
    assert_eq!(copy.name, "f");
    assert_eq!(copy.tasks.len(), 2);
    assert_eq!(copy.tasks[1].id, 2);
    assert_eq!(copy.tasks[1].typ, TaskType::Env);
    assert_eq!(copy.tasks[1].name, "cfg");
    assert_eq!(copy.tasks[1].job, JobType::SetEnv);
    assert_eq!(copy.tasks[1].depends, Some(1));
    assert_eq!(copy.pkg_dependencies, Some(vec!["sh".to_string(), "docker".to_string()]));
    assert_eq!(one_task_flow().clone().pkg_dependencies, None);
}
