use runer::engine::graph::{find_repeat, find_task, has_cycle, parent_of};
use runer::model::runer::{JobType, Task, TaskType};

fn task(id: u32, depends: Option<u32>) -> Task {
    Task { id, typ: TaskType::Blueprint, name: format!("t{}", id), job: JobType::Shell, depends }
}

#[test]
fn find_task_gives_the_first_task_with_the_id() {
    let tasks = vec![task(4, None), task(9, None), task(4, None)];
    assert_eq!(find_task(&tasks, 4), Some(0));
    assert_eq!(find_task(&tasks, 9), Some(1));
    assert_eq!(find_task(&tasks, 5), None);
    assert_eq!(find_task(&Vec::new(), 5), None);
}

#[test]
fn parent_of_follows_depends() {
    let tasks = vec![task(1, Some(3)), task(2, None), task(3, Some(8))];
    assert_eq!(parent_of(&tasks, 0), Some(2));
    assert_eq!(parent_of(&tasks, 1), None);
    assert_eq!(parent_of(&tasks, 2), None);
}

#[test]
fn chains_and_forests_have_no_cycle() {
    assert!(!has_cycle(&Vec::new()));
    assert!(!has_cycle(&vec![task(1, None)]));
    assert!(!has_cycle(&vec![task(1, None), task(2, Some(1)), task(3, Some(2))]));
    assert!(!has_cycle(&vec![task(3, Some(2)), task(2, Some(1)), task(1, None)]));
    assert!(!has_cycle(&vec![task(1, None), task(2, Some(1)), task(3, Some(1)), task(4, None)]));
}

#[test]
fn a_parent_that_is_no_task_ends_the_chain() {
    assert!(!has_cycle(&vec![task(1, Some(7)), task(2, Some(1))]));
}

#[test]
fn a_task_that_depends_on_itself_is_a_cycle() {
    assert!(has_cycle(&vec![task(1, Some(1))]));
    assert!(has_cycle(&vec![task(1, None), task(2, Some(2))]));
}

#[test]
fn two_tasks_that_depend_on_each_other_are_a_cycle() {
    assert!(has_cycle(&vec![task(1, Some(2)), task(2, Some(1))]));
}

#[test]
fn a_cycle_that_a_chain_leads_into_is_found() {
    assert!(has_cycle(&vec![task(1, Some(2)), task(2, Some(3)), task(3, Some(4)), task(4, Some(2))]));
}

#[test]
fn find_repeat_gives_the_first_task_whose_id_was_seen() {
    assert_eq!(find_repeat(&vec![task(1, None), task(2, None), task(3, None)]), None);
    assert_eq!(find_repeat(&Vec::new()), None);
    assert_eq!(
        find_repeat(&vec![task(1, None), task(2, None), task(2, None), task(1, None)]),
        Some(2)
    );
    assert_eq!(find_repeat(&vec![task(5, None), task(6, None), task(5, None)]), Some(2));
}
