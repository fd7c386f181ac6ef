use runer::engine::error::JobError;
use runer::engine::job::{create_docker_image, run_docker_container, run_shell_script, shell};
use runer::engine::text::{decimal_string, join};
use runer::model::runer::{Container, ExecutionEnvironment, HealthCheck, Image, Shell};

fn strings(items: &[&str]) -> Vec<String> {
    items.iter().map(|item| item.to_string()).collect()
}

fn pairs(items: &[(&str, &str)]) -> Vec<(String, String)> {
    items.iter().map(|(key, value)| (key.to_string(), value.to_string())).collect()
}

fn plain_image() -> Image {
    Image {
        context: "./app".to_string(),
        tag: "app:1".to_string(),
        options: None,
        build_args: None,
        pre: None,
        post: None,
    }
}

fn plain_container() -> Container {
    Container {
        name: "db".to_string(),
        image: "postgres:16".to_string(),
        options: None,
        ports: None,
        env: None,
        volumes: None,
        entrypoint: None,
        hc: None,
    }
}

#[test]
fn decimal_of_zero_and_of_the_largest_number() {
    assert_eq!(decimal_string(0), "0");
    assert_eq!(decimal_string(7), "7");
    assert_eq!(decimal_string(10), "10");
    assert_eq!(decimal_string(4096), "4096");
    assert_eq!(decimal_string(u32::MAX), "4294967295");
}

#[test]
fn join_puts_the_separator_between_neighbours_only() {
    assert_eq!(join(&strings(&[]), " && "), "");
    assert_eq!(join(&strings(&["a"]), " && "), "a");
    assert_eq!(join(&strings(&["a", "b", "c"]), " && "), "a && b && c");
    assert_eq!(join(&strings(&["", ""]), ","), ",");
}

#[test]
fn shell_invocation_hands_the_command_to_sh() {
    let invocation = shell("echo hi", true);
    assert_eq!(invocation.program, "sh");
    assert_eq!(invocation.args, strings(&["-c", "echo hi"]));
    assert!(invocation.quiet);
}

#[test]
fn image_build_without_extras_is_one_process() {
    let build = create_docker_image(&plain_image()).unwrap();
    assert!(!build.finished());
    let step = build.current().unwrap();
    assert_eq!(step.program, "docker");
    assert_eq!(step.args, strings(&["build", "-t", "app:1", "./app"]));
    assert!(!step.quiet);
}

#[test]
fn image_build_orders_options_tag_build_args_and_context() {
    let mut image = plain_image();
    image.options = Some(strings(&["--no-cache", "--pull"]));
    image.build_args = Some(strings(&["A=1", "B=2"]));
    let build = create_docker_image(&image).unwrap();
    assert_eq!(
        build.current().unwrap().args,
        strings(&[
            "build",
            "--no-cache",
            "--pull",
            "-t",
            "app:1",
            "--build-arg=\"A=1\"",
            "--build-arg=\"B=2\"",
            "./app",
        ])
    );
}

#[test]
fn image_build_runs_pre_then_build_then_post() {
    let mut image = plain_image();
    image.pre = Some(vec![
        (ExecutionEnvironment::Local, "make gen".to_string()),
        (ExecutionEnvironment::Local, "make lint".to_string()),
    ]);
    image.post = Some(vec![(ExecutionEnvironment::Local, "make clean".to_string())]);
    let mut build = create_docker_image(&image).unwrap();
    let mut seen: Vec<(String, Vec<String>)> = Vec::new();
    while let Some(step) = build.current() {
        seen.push((step.program.clone(), step.args.clone()));
        assert_eq!(build.advance(true), Ok(()));
    }
    assert!(build.finished());
    assert_eq!(
        seen,
        vec![
            ("sh".to_string(), strings(&["-c", "make gen"])),
            ("sh".to_string(), strings(&["-c", "make lint"])),
            ("docker".to_string(), strings(&["build", "-t", "app:1", "./app"])),
            ("sh".to_string(), strings(&["-c", "make clean"])),
        ]
    );
}

#[test]
fn image_build_stops_at_the_step_that_failed() {
    let mut image = plain_image();
    image.pre = Some(vec![(ExecutionEnvironment::Local, "false".to_string())]);
    let mut build = create_docker_image(&image).unwrap();
    assert_eq!(build.advance(false), Err(JobError::Io));
    assert_eq!(build.current().unwrap().args, strings(&["-c", "false"]));
    assert!(!build.finished());
    assert_eq!(build.advance(true), Ok(()));
    assert_eq!(build.current().unwrap().program, "docker");
    assert_eq!(build.advance(true), Ok(()));
    assert!(build.finished());
    assert!(build.current().is_none());
    assert_eq!(build.advance(false), Ok(()));
    assert!(build.finished());
}

#[test]
fn image_build_with_a_container_step_is_unsupported() {
    let mut image = plain_image();
    image.pre = Some(vec![
        (ExecutionEnvironment::Local, "true".to_string()),
        (ExecutionEnvironment::Container(Some("builder".to_string())), "true".to_string()),
    ]);
    assert_eq!(create_docker_image(&image).unwrap_err(), JobError::Unsupported);
    let mut image = plain_image();
    image.post = Some(vec![(ExecutionEnvironment::Container(None), "true".to_string())]);
    assert_eq!(create_docker_image(&image).unwrap_err(), JobError::Unsupported);
}

#[test]
fn container_run_without_extras() {
    let invocation = run_docker_container(&plain_container(), &None).unwrap();
    assert_eq!(invocation.program, "docker");
    assert_eq!(invocation.args, strings(&["run", "-d", "--name", "db", "postgres:16"]));
    assert!(invocation.quiet);
}

#[test]
fn container_run_with_everything() {
    let mut container = plain_container();
    container.options = Some(strings(&["--rm"]));
    container.env = Some(pairs(&[("USER", "me"), ("PASS", "pw")]));
    container.ports = Some(("5432".to_string(), "5433".to_string()));
    container.volumes = Some(pairs(&[("/data", "/var/lib"), ("/etc/x", "/etc/y")]));
    container.entrypoint = Some(strings(&["postgres", "-c", "fsync=off"]));
    container.hc = Some(HealthCheck {
        command: (ExecutionEnvironment::Local, "pg_isready".to_string()),
        interval: Some("5s".to_string()),
        retries: Some(12),
    });
    let invocation = run_docker_container(&container, &Some("backend".to_string())).unwrap();
    assert_eq!(
        invocation.args,
        strings(&[
            "run",
            "-d",
            "--name",
            "db",
            "--env",
            "USER=me",
            "--env",
            "PASS=pw",
            "-p",
            "5432:5433",
            "-v",
            "/data:/var/lib",
            "-v",
            "/etc/x:/etc/y",
            "--entrypoint",
            "postgres",
            "-c",
            "fsync=off",
            "--health-cmd",
            "pg_isready",
            "--health-interval",
            "5s",
            "--health-retries",
            "12",
            "--net=backend",
            "postgres:16",
        ])
    );
}

#[test]
fn container_health_check_without_interval_and_retries() {
    let mut container = plain_container();
    container.hc = Some(HealthCheck {
        command: (ExecutionEnvironment::Local, "true".to_string()),
        interval: None,
        retries: Some(0),
    });
    let invocation = run_docker_container(&container, &None).unwrap();
    assert_eq!(
        invocation.args,
        strings(&[
            "run",
            "-d",
            "--name",
            "db",
            "--health-cmd",
            "true",
            "--health-retries",
            "0",
            "postgres:16",
        ])
    );
}

#[test]
fn container_with_an_empty_entrypoint_is_invalid() {
    let mut container = plain_container();
    container.entrypoint = Some(Vec::new());
    assert_eq!(run_docker_container(&container, &None).unwrap_err(), JobError::Invalid);
}

#[test]
fn container_with_an_empty_health_command_is_invalid() {
    let mut container = plain_container();
    container.hc = Some(HealthCheck {
        command: (ExecutionEnvironment::Container(None), String::new()),
        interval: None,
        retries: None,
    });
    assert_eq!(run_docker_container(&container, &None).unwrap_err(), JobError::Invalid);
}

#[test]
fn container_health_command_inside_a_container_is_unsupported() {
    let mut container = plain_container();
    container.hc = Some(HealthCheck {
        command: (ExecutionEnvironment::Container(Some("db".to_string())), "true".to_string()),
        interval: None,
        retries: None,
    });
    assert_eq!(run_docker_container(&container, &None).unwrap_err(), JobError::Unsupported);
    container.entrypoint = Some(Vec::new());
    assert_eq!(run_docker_container(&container, &None).unwrap_err(), JobError::Invalid);
}

#[test]
fn shell_script_joins_the_commands_and_carries_the_environment() {
    let script = Shell {
        commands: strings(&["cd /tmp", "ls", "echo done"]),
        env: Some(pairs(&[("A", "1")])),
    };
    let run = run_shell_script(&script);
    assert_eq!(run.env, pairs(&[("A", "1")]));
    assert_eq!(run.invocation.program, "sh");
    assert_eq!(run.invocation.args, strings(&["-c", "cd /tmp && ls && echo done"]));
    assert!(!run.invocation.quiet);
}

#[test]
fn shell_script_without_environment_and_commands() {
    let run = run_shell_script(&Shell { commands: Vec::new(), env: None });
    assert!(run.env.is_empty());
    assert_eq!(run.invocation.args, strings(&["-c", ""]));
}
