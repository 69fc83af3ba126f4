//! One todo item and its mathematical model.

use vstd::prelude::*;

verus! {

/// What a task is, as plain mathematical values.
pub struct TaskModel {
    pub id: nat,
    pub description: Seq<char>,
    pub done: bool,
}

impl TaskModel {
    /// A task as it is right after creation: not done.
    pub open spec fn fresh(id: nat, description: Seq<char>) -> TaskModel {
        TaskModel { id, description, done: false }
    }

    /// The same task, marked done.
    pub open spec fn completed(self) -> TaskModel {
        TaskModel { done: true, ..self }
    }

    /// The same task under a new description.
    pub open spec fn renamed(self, description: Seq<char>) -> TaskModel {
        TaskModel { description, ..self }
    }
}

/// One todo item.
#[derive(Debug)]
pub struct Task {
    pub task: String,
    pub done_status: bool,
    pub id: u64,
}

impl View for Task {
    type V = TaskModel;

    open spec fn view(&self) -> TaskModel {
        TaskModel { id: self.id as nat, description: self.task@, done: self.done_status }
    }
}

impl Task {
    /// Marks the task done. There is no way back.
    pub fn update_status(&mut self)
        ensures
            final(self)@ == old(self)@.completed(),
    {
        self.done_status = true;
    }

    /// Replaces the description and leaves id and status alone.
    pub fn update_task(&mut self, new_name: String)
        ensures
            final(self)@ == old(self)@.renamed(new_name@),
    {
        self.task = new_name;
    }
}

} // verus!
