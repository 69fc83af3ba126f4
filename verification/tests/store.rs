use todo_list::{ErrorKind, Task, TaskStore};

fn snapshot(store: &TaskStore) -> Vec<(u64, String, bool)> {
    store.tasks().iter().map(|t| (t.id, t.task.clone(), t.done_status)).collect()
}

#[test]
fn new_store_is_empty_and_starts_at_one() {
    let store = TaskStore::new();
    assert!(store.is_empty());
    assert_eq!(store.len(), 0);
    assert_eq!(store.next_id(), 1);
    assert!(store.has_free_id());
    assert!(store.tasks().is_empty());
}

#[test]
fn adds_return_one_two_three() {
    let mut store = TaskStore::new();
    for expected in 1..=50u64 {
        assert_eq!(store.add_new_task("t"), expected);
        assert_eq!(store.next_id(), expected + 1);
        assert_eq!(store.len() as u64, expected);
    }
}

#[test]
fn length_is_adds_less_removals_that_hit() {
    let mut store = TaskStore::new();
    let mut adds = 0usize;
    let mut hits = 0usize;
    for round in 0..20u64 {
        store.add_new_task("x");
        adds += 1;
        store.add_new_task("y");
        adds += 1;
        for id in [round + 1, round + 1, 1000 + round] {
            if store.contains(id) {
                hits += 1;
            }
            store.remove_task(id);
        }
        assert_eq!(store.len(), adds - hits);
    }
    assert_eq!(adds, 40);
    assert_eq!(hits, 20);
    assert_eq!(store.next_id(), 41);
}

#[test]
fn added_task_is_last_and_not_done() {
    let mut store = TaskStore::new();
    store.add_new_task("first");
    store.mark_done(1).unwrap();
    let id = store.add_new_task("second thing");
    assert_eq!(id, 2);
    assert_eq!(
        snapshot(&store),
        vec![(1, "first".to_string(), true), (2, "second thing".to_string(), false)]
    );
}

#[test]
fn remove_of_an_absent_id_changes_nothing() {
    let mut store = TaskStore::new();
    store.remove_task(1);
    assert!(store.is_empty());
    assert_eq!(store.next_id(), 1);
    store.add_new_task("a");
    store.add_new_task("b");
    let before = snapshot(&store);
    store.remove_task(3);
    store.remove_task(0);
    store.remove_task(u64::MAX);
    assert_eq!(snapshot(&store), before);
    assert_eq!(store.next_id(), 3);
}

#[test]
fn remove_takes_out_one_task_and_keeps_the_order() {
    let mut store = TaskStore::new();
    for name in ["a", "b", "c", "d"] {
        store.add_new_task(name);
    }
    store.remove_task(2);
    assert_eq!(
        snapshot(&store),
        vec![
            (1, "a".to_string(), false),
            (3, "c".to_string(), false),
            (4, "d".to_string(), false)
        ]
    );
    store.remove_task(2);
    assert_eq!(store.len(), 3);
    store.remove_task(1);
    store.remove_task(4);
    assert_eq!(snapshot(&store), vec![(3, "c".to_string(), false)]);
    assert_eq!(store.next_id(), 5);
}

#[test]
fn get_task_finds_by_id() {
    let mut store = TaskStore::new();
    store.add_new_task("a");
    store.add_new_task("b");
    let task = store.get_task(2).unwrap();
    assert_eq!((task.id, task.task.as_str(), task.done_status), (2, "b", false));
    assert_eq!(store.get_task(3).unwrap_err(), ErrorKind::NotFound);
    assert_eq!(store.get_task(0).unwrap_err(), ErrorKind::NotFound);
    assert!(store.contains(1));
    assert!(!store.contains(3));
    store.remove_task(1);
    assert_eq!(store.get_task(1).unwrap_err(), ErrorKind::NotFound);
    assert_eq!(store.get_task(2).unwrap().task, "b");
}

#[test]
fn mark_done_shows_in_get_task() {
    let mut store = TaskStore::new();
    store.add_new_task("a");
    store.add_new_task("b");
    assert_eq!(store.mark_done(2), Ok(()));
    assert!(store.get_task(2).unwrap().done_status);
    assert!(!store.get_task(1).unwrap().done_status);
    assert_eq!(store.get_task(2).unwrap().task, "b");
    assert_eq!(store.mark_done(2), Ok(()));
    assert!(store.get_task(2).unwrap().done_status);
}

#[test]
fn mark_done_of_an_absent_id_is_not_found() {
    let mut store = TaskStore::new();
    assert_eq!(store.mark_done(1), Err(ErrorKind::NotFound));
    store.add_new_task("a");
    let before = snapshot(&store);
    assert_eq!(store.mark_done(2), Err(ErrorKind::NotFound));
    assert_eq!(snapshot(&store), before);
}

#[test]
fn update_description_replaces_one_description() {
    let mut store = TaskStore::new();
    for name in ["a", "b", "c"] {
        store.add_new_task(name);
    }
    store.mark_done(3).unwrap();
    assert_eq!(store.update_description(3, "new text".to_string()), Ok(()));
    assert_eq!(
        snapshot(&store),
        vec![
            (1, "a".to_string(), false),
            (2, "b".to_string(), false),
            (3, "new text".to_string(), true)
        ]
    );
    assert_eq!(store.next_id(), 4);
}

#[test]
fn update_description_of_an_absent_id_is_not_found() {
    let mut store = TaskStore::new();
    store.add_new_task("a");
    let before = snapshot(&store);
    assert_eq!(store.update_description(9, "z".to_string()), Err(ErrorKind::NotFound));
    assert_eq!(snapshot(&store), before);
}

#[test]
fn task_update_status_sets_done() {
    let mut task = Task { task: "a".to_string(), done_status: false, id: 7 };
    task.update_status();
    assert!(task.done_status);
    assert_eq!(task.id, 7);
    assert_eq!(task.task, "a");
    task.update_status();
    assert!(task.done_status);
}

#[test]
fn task_update_task_sets_the_description() {
    let mut task = Task { task: "a".to_string(), done_status: true, id: 7 };
    task.update_task("b c".to_string());
    assert_eq!(task.task, "b c");
    assert!(task.done_status);
    assert_eq!(task.id, 7);
}
