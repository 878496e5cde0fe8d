use todo_tracker::models::{Priority, Task};
use todo_tracker::store::{Action, AppState, TaskError};

fn add(state: &mut AppState, description: &str) -> Task {
    state.add(description.to_string(), Vec::new(), None, Priority::Low)
}

fn ids(tasks: &[Task]) -> Vec<u32> {
    tasks.iter().map(|t| t.id).collect()
}

fn descriptions(tasks: &[Task]) -> Vec<String> {
    tasks.iter().map(|t| t.description.clone()).collect()
}

#[test]
fn add_done_archive_undo_scenario() {
    let mut state = AppState::new();
    let t = add(&mut state, "buy milk");
    assert_eq!(t.id, 1);
    assert_eq!(state.tasks.len(), 1);
    assert_eq!(state.tasks[0].id, 1);
    assert_eq!(state.tasks[0].description, "buy milk");
    assert_eq!(state.tasks[0].priority, Priority::Low);
    assert!(!state.tasks[0].completed);

    assert_eq!(state.mark_done(1), Ok(()));
    assert!(state.tasks[0].completed);

    assert_eq!(state.archive(), 1);
    assert!(state.tasks.is_empty());
    assert_eq!(state.archived.len(), 1);
    assert_eq!(state.archived[0].id, 1);
    assert_eq!(state.archived[0].description, "buy milk");

    assert!(matches!(state.undo(), Ok(Action::Archive(1))));
    assert_eq!(state.tasks.len(), 1);
    assert_eq!(state.tasks[0].id, 1);
    assert_eq!(state.tasks[0].description, "buy milk");
    assert!(state.archived.is_empty());
}

#[test]
fn delete_renumbers_and_undo_appends_scenario() {
    let mut state = AppState::new();
    add(&mut state, "A");
    add(&mut state, "B");
    let removed = state.delete(1).unwrap();
    assert_eq!(removed.description, "A");
    assert_eq!(state.tasks.len(), 1);
    assert_eq!(state.tasks[0].description, "B");
    assert_eq!(state.tasks[0].id, 1);

    assert!(matches!(state.undo(), Ok(Action::Delete(_))));
    assert_eq!(descriptions(&state.tasks), vec!["B", "A"]);
    assert_eq!(ids(&state.tasks), vec![1, 2]);
}

#[test]
fn ids_stay_dense_over_operations() {
    let mut state = AppState::new();
    for d in ["a", "b", "c", "d", "e"] {
        add(&mut state, d);
        assert_eq!(ids(&state.tasks), (1..=state.tasks.len() as u32).collect::<Vec<_>>());
    }
    state.delete(2).unwrap();
    assert_eq!(ids(&state.tasks), vec![1, 2, 3, 4]);
    assert_eq!(descriptions(&state.tasks), vec!["a", "c", "d", "e"]);
    state.mark_done(1).unwrap();
    state.mark_done(3).unwrap();
    assert_eq!(state.archive(), 2);
    assert_eq!(ids(&state.tasks), vec![1, 2]);
    assert_eq!(ids(&state.archived), vec![1, 2]);
    add(&mut state, "f");
    state.mark_done(3).unwrap();
    assert_eq!(state.archive(), 1);
    assert_eq!(ids(&state.tasks), vec![1, 2]);
    assert_eq!(ids(&state.archived), vec![1, 2, 3]);
}

#[test]
fn archive_moves_completed_in_order() {
    let mut state = AppState::new();
    for d in ["a", "b", "c", "d"] {
        add(&mut state, d);
    }
    state.mark_done(1).unwrap();
    state.archive();
    state.mark_done(3).unwrap();
    state.mark_done(1).unwrap();
    assert_eq!(state.archive(), 2);
    assert!(state.tasks.iter().all(|t| !t.completed));
    assert_eq!(descriptions(&state.tasks), vec!["c"]);
    assert_eq!(descriptions(&state.archived), vec!["a", "b", "d"]);
}

#[test]
fn archive_with_nothing_completed_moves_nothing() {
    let mut state = AppState::new();
    add(&mut state, "a");
    assert_eq!(state.archive(), 0);
    assert_eq!(state.tasks.len(), 1);
    assert!(state.archived.is_empty());
}

#[test]
fn undo_archive_brings_back_only_what_it_moved() {
    let mut state = AppState::new();
    for d in ["a", "b", "c"] {
        add(&mut state, d);
    }
    state.mark_done(1).unwrap();
    state.archive();
    state.mark_done(2).unwrap();
    state.archive();
    assert_eq!(descriptions(&state.archived), vec!["a", "c"]);
    assert!(state.undo().is_ok());
    assert_eq!(descriptions(&state.tasks), vec!["b", "c"]);
    assert_eq!(ids(&state.tasks), vec![1, 2]);
    assert_eq!(descriptions(&state.archived), vec!["a"]);
}

#[test]
fn undo_add_restores_list() {
    let mut state = AppState::new();
    add(&mut state, "a");
    add(&mut state, "b");
    let before = descriptions(&state.tasks);
    let t = state.add(
        "c".to_string(),
        vec!["x".to_string()],
        Some(5),
        Priority::High,
    );
    assert_eq!(t.id, 3);
    match state.undo() {
        Ok(Action::Add(u)) => assert_eq!(u.description, "c"),
        _ => panic!("expected the addition to be undone"),
    }
    assert_eq!(descriptions(&state.tasks), before);
    assert_eq!(ids(&state.tasks), vec![1, 2]);
}

#[test]
fn undo_delete_restores_content() {
    let mut state = AppState::new();
    add(&mut state, "a");
    state.add("b".to_string(), vec!["t".to_string()], Some(100), Priority::Medium);
    add(&mut state, "c");
    state.delete(2).unwrap();
    state.undo().unwrap();
    let last = state.tasks.last().unwrap();
    assert_eq!(last.id, 3);
    assert_eq!(last.description, "b");
    assert_eq!(last.tags, vec!["t".to_string()]);
    assert_eq!(last.due_date, Some(100));
    assert_eq!(last.priority, Priority::Medium);
}

#[test]
fn undo_done_clears_flag() {
    let mut state = AppState::new();
    add(&mut state, "a");
    state.mark_done(1).unwrap();
    assert!(matches!(state.undo(), Ok(Action::Done(1))));
    assert!(!state.tasks[0].completed);
}

#[test]
fn undo_twice_has_nothing_to_undo() {
    let mut state = AppState::new();
    assert!(matches!(state.undo(), Err(TaskError::NothingToUndo)));
    add(&mut state, "a");
    assert!(state.undo().is_ok());
    assert!(matches!(state.undo(), Err(TaskError::NothingToUndo)));
}

#[test]
fn unknown_ids_are_not_found() {
    let mut state = AppState::new();
    add(&mut state, "a");
    assert_eq!(state.mark_done(0), Err(TaskError::NotFound));
    assert_eq!(state.mark_done(2), Err(TaskError::NotFound));
    assert!(matches!(state.delete(2), Err(TaskError::NotFound)));
    assert_eq!(state.tasks.len(), 1);
    assert!(!state.tasks[0].completed);
    assert!(matches!(state.undo(), Ok(Action::Add(_))));
}

#[test]
fn loaded_lists_are_renumbered() {
    let t = |id: u32, d: &str| Task::new(id, d.to_string(), Vec::new(), None, Priority::Low);
    let state = AppState::from_lists(vec![t(7, "a"), t(7, "b")], vec![t(3, "c")]);
    assert_eq!(ids(&state.tasks), vec![1, 2]);
    assert_eq!(ids(&state.archived), vec![1]);
}

#[test]
fn empty_description_is_accepted() {
    let mut state = AppState::new();
    let t = add(&mut state, "");
    assert_eq!(t.id, 1);
    assert_eq!(state.tasks[0].description, "");
}
