use todo_list::display::{display_help, HELP_TEXT};
use todo_list::{is_runnable, run, try_run, ErrorKind, Outcome, ParseFailure, TaskStore};

fn completed(text: &str) -> Outcome {
    Outcome::Completed { text: text.to_string() }
}

fn rejected(kind: ErrorKind, text: &str) -> Outcome {
    Outcome::Rejected { kind, text: text.to_string() }
}

fn snapshot(store: &TaskStore) -> Vec<(u64, String, bool)> {
    store.tasks().iter().map(|t| (t.id, t.task.clone(), t.done_status)).collect()
}

#[test]
fn scenario_add_done_update_delete_show() {
    let mut store = TaskStore::new();

    let out = run(vec!["add", "buy milk"], &mut store);
    assert_eq!(
        out,
        completed(
            "buy milk added to the todo list: \nYour todo list:\nid: 1, name: buy milk, done: false\n"
        )
    );
    assert_eq!(snapshot(&store), vec![(1, "buy milk".to_string(), false)]);

    let out = run(vec!["done", "1"], &mut store);
    assert_eq!(out, completed(""));
    assert_eq!(snapshot(&store), vec![(1, "buy milk".to_string(), true)]);

    let out = run(vec!["update", "1", "buy oat milk"], &mut store);
    assert_eq!(out, completed(""));
    assert_eq!(snapshot(&store), vec![(1, "buy oat milk".to_string(), true)]);

    let out = run(vec!["delete", "1"], &mut store);
    assert_eq!(out, completed("Empty todo list\n"));
    assert!(store.is_empty());

    let out = run(vec!["show"], &mut store);
    assert_eq!(out, completed("Empty todo list\n"));
}

#[test]
fn scenario_delete_with_a_word_for_an_id() {
    let mut store = TaskStore::new();
    run(vec!["add", "a"], &mut store);
    run(vec!["add", "b"], &mut store);
    let before = snapshot(&store);
    let next = store.next_id();

    let out = run(vec!["delete", "abc"], &mut store);
    assert_eq!(
        out,
        rejected(
            ErrorKind::ParseFailure(ParseFailure::InvalidDigit),
            "invalid digit found in string\n"
        )
    );
    assert_eq!(snapshot(&store), before);
    assert_eq!(store.next_id(), next);
}

#[test]
fn scenario_done_on_empty_store() {
    let mut store = TaskStore::new();
    let out = run(vec!["done", "99"], &mut store);
    assert_eq!(out, rejected(ErrorKind::NotFound, "task id not found in list\n"));
    assert!(store.is_empty());
    assert_eq!(store.next_id(), 1);
}

#[test]
fn scenario_unknown_command_is_help() {
    let mut store = TaskStore::new();
    run(vec!["add", "a"], &mut store);
    let before = snapshot(&store);
    let unknown = run(vec!["foobar"], &mut store);
    let help = run(vec!["help"], &mut store);
    assert_eq!(unknown, help);
    assert_eq!(snapshot(&store), before);
    let with_arguments = run(vec!["foobar", "1", "x"], &mut store);
    assert_eq!(with_arguments, help);
    assert_eq!(run(vec![""], &mut store), help);
    assert_eq!(run(vec!["ADD", "x"], &mut store), help);
    assert_eq!(snapshot(&store), before);
}

#[test]
fn help_text_is_the_usage_notes() {
    let mut store = TaskStore::new();
    let mut expected = String::from(HELP_TEXT);
    expected.push('\n');
    assert_eq!(run(vec!["help"], &mut store), completed(&expected));
    assert_eq!(display_help(), expected);
    assert!(HELP_TEXT.starts_with("\n        Welcome to the todo_list application. \n"));
    assert!(HELP_TEXT.ends_with(
        "            task_string: String representing the task provided by the user. "
    ));
    for usage in [
        "Command usage: >add task_string\n",
        "Command usage: >show\n",
        "Command usage: >delete task_id\n",
        "Command usage: >update task_id new_task_string \n",
        "Command usage: >done task_id \n",
        "Command usage: >exit\n",
        "Command usage: >help \n",
    ] {
        assert!(HELP_TEXT.contains(usage), "{}", usage);
    }
    assert_eq!(HELP_TEXT.lines().count(), 31);
}

#[test]
fn add_without_text_prompts_and_changes_nothing() {
    let mut store = TaskStore::new();
    let out = run(vec!["add"], &mut store);
    assert_eq!(
        out,
        rejected(ErrorKind::ArgumentMissing, "please provide a new name for the task\n")
    );
    assert!(store.is_empty());
    assert_eq!(store.next_id(), 1);
}

#[test]
fn add_shows_the_whole_list() {
    let mut store = TaskStore::new();
    run(vec!["add", "one"], &mut store);
    run(vec!["done", "1"], &mut store);
    let out = run(vec!["add", "two"], &mut store);
    assert_eq!(
        out,
        completed(
            "two added to the todo list: \nYour todo list:\nid: 1, name: one, done: true\nid: 2, name: two, done: false\n"
        )
    );
}

#[test]
fn show_lists_in_insertion_order() {
    let mut store = TaskStore::new();
    for name in ["c", "a", "b"] {
        run(vec!["add", name], &mut store);
    }
    let before = snapshot(&store);
    let out = run(vec!["show"], &mut store);
    assert_eq!(
        out,
        completed(
            "Your todo list:\nid: 1, name: c, done: false\nid: 2, name: a, done: false\nid: 3, name: b, done: false\n"
        )
    );
    assert_eq!(snapshot(&store), before);
}

#[test]
fn delete_shows_what_is_left() {
    let mut store = TaskStore::new();
    for name in ["a", "b", "c"] {
        run(vec!["add", name], &mut store);
    }
    let out = run(vec!["delete", "2"], &mut store);
    assert_eq!(
        out,
        completed("Your todo list:\nid: 1, name: a, done: false\nid: 3, name: c, done: false\n")
    );
    let out = run(vec!["delete", "+3"], &mut store);
    assert_eq!(out, completed("Your todo list:\nid: 1, name: a, done: false\n"));
}

#[test]
fn delete_of_an_absent_id_is_no_error() {
    let mut store = TaskStore::new();
    run(vec!["add", "a"], &mut store);
    let before = snapshot(&store);
    let out = run(vec!["delete", "7"], &mut store);
    assert_eq!(out, completed("Your todo list:\nid: 1, name: a, done: false\n"));
    assert_eq!(snapshot(&store), before);
}

#[test]
fn delete_reports_each_parse_failure() {
    let mut store = TaskStore::new();
    run(vec!["add", "a"], &mut store);
    let before = snapshot(&store);
    assert_eq!(
        run(vec!["delete", ""], &mut store),
        rejected(
            ErrorKind::ParseFailure(ParseFailure::Empty),
            "cannot parse integer from empty string\n"
        )
    );
    assert_eq!(
        run(vec!["delete", "-1"], &mut store),
        rejected(
            ErrorKind::ParseFailure(ParseFailure::InvalidDigit),
            "invalid digit found in string\n"
        )
    );
    assert_eq!(
        run(vec!["delete", "18446744073709551616"], &mut store),
        rejected(
            ErrorKind::ParseFailure(ParseFailure::PosOverflow),
            "number too large to fit in target type\n"
        )
    );
    assert_eq!(snapshot(&store), before);
}

#[test]
fn update_checks_id_then_lookup_then_text() {
    let mut store = TaskStore::new();
    run(vec!["add", "a"], &mut store);
    let before = snapshot(&store);

    assert_eq!(
        run(vec!["update", "abc", "x"], &mut store),
        rejected(
            ErrorKind::ParseFailure(ParseFailure::InvalidDigit),
            "invalid digit found in string"
        )
    );
    assert_eq!(
        run(vec!["update", "abc"], &mut store),
        rejected(
            ErrorKind::ParseFailure(ParseFailure::InvalidDigit),
            "invalid digit found in string"
        )
    );
    assert_eq!(
        run(vec!["update", "5", "x"], &mut store),
        rejected(ErrorKind::NotFound, "task not found in todo list\n")
    );
    assert_eq!(
        run(vec!["update", "5"], &mut store),
        rejected(ErrorKind::NotFound, "task not found in todo list\n")
    );
    assert_eq!(
        run(vec!["update", "1"], &mut store),
        rejected(ErrorKind::ArgumentMissing, "no new task provided\n")
    );
    assert_eq!(snapshot(&store), before);

    assert_eq!(run(vec!["update", "1", "b"], &mut store), completed(""));
    assert_eq!(snapshot(&store), vec![(1, "b".to_string(), false)]);
}

#[test]
fn update_changes_one_task_only() {
    let mut store = TaskStore::new();
    for name in ["a", "b", "c"] {
        run(vec!["add", name], &mut store);
    }
    run(vec!["done", "2"], &mut store);
    run(vec!["update", "2", "z"], &mut store);
    assert_eq!(
        snapshot(&store),
        vec![
            (1, "a".to_string(), false),
            (2, "z".to_string(), true),
            (3, "c".to_string(), false)
        ]
    );
}

#[test]
fn done_reports_a_parse_failure_on_a_line() {
    let mut store = TaskStore::new();
    assert_eq!(
        run(vec!["done", "1x"], &mut store),
        rejected(
            ErrorKind::ParseFailure(ParseFailure::InvalidDigit),
            "invalid digit found in string\n"
        )
    );
}

#[test]
fn done_twice_stays_done() {
    let mut store = TaskStore::new();
    run(vec!["add", "a"], &mut store);
    assert_eq!(run(vec!["done", "1"], &mut store), completed(""));
    assert_eq!(run(vec!["done", "1"], &mut store), completed(""));
    assert_eq!(snapshot(&store), vec![(1, "a".to_string(), true)]);
}

#[test]
fn no_command_undoes_done() {
    let mut store = TaskStore::new();
    run(vec!["add", "a"], &mut store);
    run(vec!["done", "1"], &mut store);
    let commands: Vec<Vec<&str>> = vec![
        vec!["add", "b"],
        vec!["show"],
        vec!["update", "1", "c"],
        vec!["update", "2", "d"],
        vec!["done", "2"],
        vec!["done", "1"],
        vec!["delete", "2"],
        vec!["delete", "x"],
        vec!["help"],
        vec!["exit"],
        vec!["nothing"],
    ];
    for command in commands {
        run(command, &mut store);
        assert!(store.get_task(1).unwrap().done_status);
    }
}

#[test]
fn exit_asks_the_caller_to_stop() {
    let mut store = TaskStore::new();
    run(vec!["add", "a"], &mut store);
    let before = snapshot(&store);
    assert_eq!(run(vec!["exit"], &mut store), Outcome::Exit);
    assert_eq!(run(vec!["exit", "now"], &mut store), Outcome::Exit);
    assert_eq!(snapshot(&store), before);
}

#[test]
fn ids_are_not_reused_after_delete() {
    let mut store = TaskStore::new();
    run(vec!["add", "a"], &mut store);
    run(vec!["delete", "1"], &mut store);
    let out = run(vec!["add", "b"], &mut store);
    assert_eq!(
        out,
        completed("b added to the todo list: \nYour todo list:\nid: 2, name: b, done: false\n")
    );
}

#[test]
fn runnable_command_lines() {
    let store = TaskStore::new();
    assert!(!is_runnable(&vec![], &store));
    assert!(is_runnable(&vec!["delete"], &store));
    assert!(is_runnable(&vec!["update"], &store));
    assert!(is_runnable(&vec!["done"], &store));
    assert!(is_runnable(&vec!["delete", "x"], &store));
    assert!(is_runnable(&vec!["update", "1"], &store));
    assert!(is_runnable(&vec!["done", ""], &store));
    assert!(is_runnable(&vec!["add"], &store));
    assert!(is_runnable(&vec!["add", "a"], &store));
    assert!(is_runnable(&vec!["show"], &store));
    assert!(is_runnable(&vec!["exit"], &store));
    assert!(is_runnable(&vec!["help"], &store));
    assert!(is_runnable(&vec!["whatever"], &store));
}

#[test]
fn try_run_runs_what_can_be_run() {
    let mut store = TaskStore::new();
    assert_eq!(
        try_run(vec!["add", "a"], &mut store),
        Some(completed(
            "a added to the todo list: \nYour todo list:\nid: 1, name: a, done: false\n"
        ))
    );
    assert_eq!(try_run(vec!["done", "1"], &mut store), Some(completed("")));
    assert_eq!(try_run(vec!["exit"], &mut store), Some(Outcome::Exit));
    assert_eq!(snapshot(&store), vec![(1, "a".to_string(), true)]);
}

#[test]
fn try_run_refuses_what_cannot_be_run() {
    let mut store = TaskStore::new();
    store.add_new_task("a");
    let before = snapshot(&store);
    assert_eq!(try_run(vec![], &mut store), None);
    assert_eq!(snapshot(&store), before);
    assert_eq!(store.next_id(), 2);
}

#[test]
fn commands_without_an_id_prompt_and_change_nothing() {
    let mut store = TaskStore::new();
    store.add_new_task("a");
    store.add_new_task("b");
    store.mark_done(2).unwrap();
    let before = snapshot(&store);
    for command in ["delete", "update", "done"] {
        assert_eq!(
            run(vec![command], &mut store),
            rejected(ErrorKind::ArgumentMissing, "please provide the id of the task\n")
        );
        assert_eq!(
            try_run(vec![command], &mut store),
            Some(rejected(ErrorKind::ArgumentMissing, "please provide the id of the task\n"))
        );
        assert_eq!(snapshot(&store), before);
        assert_eq!(store.next_id(), 3);
    }
}

#[test]
fn commands_without_an_id_on_an_empty_store() {
    let mut store = TaskStore::new();
    for command in ["delete", "update", "done"] {
        assert_eq!(
            run(vec![command], &mut store),
            rejected(ErrorKind::ArgumentMissing, "please provide the id of the task\n")
        );
        assert!(store.is_empty());
        assert_eq!(store.next_id(), 1);
    }
}

#[test]
fn length_follows_adds_and_deletes_that_hit() {
    let mut store = TaskStore::new();
    let lines: Vec<(Vec<&str>, usize)> = vec![
        (vec!["add", "a"], 1),
        (vec!["add"], 1),
        (vec!["add", "b"], 2),
        (vec!["delete", "7"], 2),
        (vec!["delete"], 2),
        (vec!["done", "1"], 2),
        (vec!["update", "2", "c"], 2),
        (vec!["delete", "x"], 2),
        (vec!["delete", "1"], 1),
        (vec!["delete", "1"], 1),
        (vec!["show"], 1),
        (vec!["help"], 1),
        (vec!["add", "d"], 2),
        (vec!["delete", "2"], 1),
        (vec!["delete", "3"], 0),
    ];
    for (line, expected) in lines {
        run(line, &mut store);
        assert_eq!(store.len(), expected);
    }
    assert_eq!(store.next_id(), 4);
}
