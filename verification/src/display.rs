//! The text that the todo list shows: the list itself and the usage notes.

use vstd::prelude::*;
use vstd::string::StringExecFns;
use crate::store::models;
use crate::task::{Task, TaskModel};
use crate::text::{decimal, render_u64};

verus! {

/// The usage notes, without the line break that ends them when shown.
pub const HELP_TEXT: &'static str =
    "
        Welcome to the todo_list application. 
        structure of query: 
            command [arguments] 

        supported commands: 
            add - Adds a new task to the todo list. Please input your task as a string in the 2nd argument. The task string should NOT be space separated. 
            Command usage: >add task_string

            show - Displays the todo list 
            Command usage: >show

            delete - Deletes a task from the todo list, please provide the task_id as the 2nd argument. 
            Command usage: >delete task_id

            update - Updates the name of a task. Please input the task id as the 2nd argument followed by the new task string as the 3rd argument. 
            Command usage: >update task_id new_task_string 

            done - Updates the task as done. Please input the task id as the 2nd argument.     
            Command usage: >done task_id 

            exit - Exits the program. 
            Command usage: >exit

            help - Displays instructions on how to use this tool. 
            Command usage: >help 
        
        arguments: 
            task_id: Unique id assigned to each task. 

            task_string: String representing the task provided by the user. ";

/// What is shown for `help` and for any word that is no command.
pub open spec fn help_text() -> Seq<char> {
    HELP_TEXT@ + "\n"@
}

/// How the status of a task is written.
pub open spec fn status_text(done: bool) -> Seq<char> {
    if done {
        "true"@
    } else {
        "false"@
    }
}

/// The line that shows one task, with its line break.
pub open spec fn task_line(task: TaskModel) -> Seq<char> {
    "id: "@ + decimal(task.id) + ", name: "@ + task.description + ", done: "@ + status_text(
        task.done,
    ) + "\n"@
}

/// The lines of the tasks, one after the other in insertion order.
pub open spec fn task_lines(tasks: Seq<TaskModel>) -> Seq<char>
    decreases tasks.len(),
{
    if tasks.len() == 0 {
        Seq::empty()
    } else {
        task_lines(tasks.drop_last()) + task_line(tasks.last())
    }
}

/// What is shown for a list: a note where it is empty, else a heading and
/// one line for each task.
pub open spec fn listing(tasks: Seq<TaskModel>) -> Seq<char> {
    if tasks.len() == 0 {
        "Empty todo list\n"@
    } else {
        "Your todo list:\n"@ + task_lines(tasks)
    }
}

/// Writes the line that shows one task at the end of `text`.
fn push_task_line(text: &mut String, item: &Task)
    ensures
        final(text)@ == old(text)@ + task_line(item@),
{
    let number = render_u64(item.id);
    text.append("id: ");
    text.append(number.as_str());
    text.append(", name: ");
    text.append(item.task.as_str());
    text.append(", done: ");
    text.append(
        if item.done_status {
            "true"
        } else {
            "false"
        },
    );
    text.append("\n");
    assert(text@ =~= old(text)@ + task_line(item@));
}

/// The text that shows the list.
pub fn display_todo(todo_list: &Vec<Task>) -> (text: String)
    ensures
        text@ == listing(models(todo_list@)),
{
    if todo_list.len() < 1 {
        return String::from_str("Empty todo list\n");
    }
    let ghost all = models(todo_list@);
    let mut text = String::from_str("Your todo list:\n");
    let mut i: usize = 0;
    assert(text@ =~= "Your todo list:\n"@ + task_lines(all.take(0)));
    while i < todo_list.len()
        invariant
            i <= todo_list@.len(),
            all == models(todo_list@),
            text@ == "Your todo list:\n"@ + task_lines(all.take(i as int)),
        decreases todo_list@.len() - i,
    {
        push_task_line(&mut text, &todo_list[i]);
        proof {
            let upto = all.take(i + 1);
            assert(upto.drop_last() =~= all.take(i as int));
            assert(upto.last() == todo_list@[i as int]@);
            assert(text@ =~= "Your todo list:\n"@ + task_lines(upto));
        }
        i = i + 1;
    }
    assert(all.take(i as int) =~= all);
    text
}

/// The usage notes as they are shown.
pub fn display_help() -> (text: String)
    ensures
        text@ == help_text(),
{
    let mut text = String::from_str(HELP_TEXT);
    text.append("\n");
    text
}

} // verus!
