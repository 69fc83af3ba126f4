//! The task store: the tasks in insertion order, and the counter that hands
//! out their ids.

use vstd::prelude::*;
use crate::error::ErrorKind;
use crate::model::StoreModel;
use crate::task::{Task, TaskModel};

verus! {

/// The models of a run of tasks, in the same order.
pub open spec fn models(tasks: Seq<Task>) -> Seq<TaskModel> {
    tasks.map_values(|t: Task| t@)
}

/// The tasks of one todo list and the counter for their ids.
///
/// The counter starts at 1 and only ever goes up, so an id that was handed
/// out once is never handed out again, also after its task is gone.
pub struct TaskStore {
    tasks: Vec<Task>,
    next_id: u64,
}

impl View for TaskStore {
    type V = StoreModel;

    closed spec fn view(&self) -> StoreModel {
        StoreModel { tasks: models(self.tasks@), next_id: self.next_id as nat }
    }
}

impl TaskStore {
    /// The invariant of the store: ids are distinct and were all handed out
    /// by the counter.
    pub open spec fn wf(&self) -> bool {
        self@.wf()
    }

    /// An empty store whose first task will get id 1.
    pub fn new() -> (store: TaskStore)
        ensures
            store.wf(),
            store@ == StoreModel::empty(),
    {
        let store = TaskStore { tasks: Vec::new(), next_id: 1 };
        assert(models(store.tasks@) =~= Seq::<TaskModel>::empty());
        store
    }

    /// The tasks in insertion order.
    pub fn tasks(&self) -> (tasks: &Vec<Task>)
        ensures
            models(tasks@) == self@.tasks,
    {
        &self.tasks
    }

    /// How many tasks the store holds.
    pub fn len(&self) -> (n: usize)
        ensures
            n == self@.tasks.len(),
    {
        self.tasks.len()
    }

    /// Whether the store holds no task.
    pub fn is_empty(&self) -> (empty: bool)
        ensures
            empty == (self@.tasks.len() == 0),
    {
        self.tasks.len() == 0
    }

    /// The id that the next new task will get.
    pub fn next_id(&self) -> (id: u64)
        ensures
            id == self@.next_id,
    {
        self.next_id
    }

    /// Whether another task can be added: the counter has not reached the
    /// largest 64-bit number.
    pub fn has_free_id(&self) -> (free: bool)
        ensures
            free == self@.has_free_id(),
    {
        self.next_id < u64::MAX
    }

    /// The first place at which a task has the id.
    fn position(&self, task_id: u64) -> (at: Option<usize>)
        ensures
            match at {
                Some(i) => i < self.tasks@.len() && self@.is_first(i as int, task_id as nat),
                None => !self@.contains_id(task_id as nat),
            },
    {
        let mut i: usize = 0;
        while i < self.tasks.len()
            invariant
                i <= self.tasks@.len(),
                forall|j: int| 0 <= j < i ==> (#[trigger] self@.tasks[j]).id != task_id as nat,
            decreases self.tasks@.len() - i,
        {
            if self.tasks[i].id == task_id {
                return Some(i);
            }
            i = i + 1;
        }
        None
    }

    /// Whether some task has the id.
    pub fn contains(&self, task_id: u64) -> (found: bool)
        ensures
            found == self@.contains_id(task_id as nat),
    {
        match self.position(task_id) {
            Some(i) => {
                proof {
                    self@.lemma_position(i as int, task_id as nat);
                }
                true
            },
            None => false,
        }
    }

    /// Adds a task that is not done, under the next id, at the end of the
    /// list, and returns that id.
    pub fn add_new_task(&mut self, task_string: &str) -> (id: u64)
        requires
            old(self).wf(),
            old(self)@.has_free_id(),
        ensures
            final(self).wf(),
            final(self)@ == old(self)@.add(task_string@),
            final(self)@.tasks.len() == old(self)@.tasks.len() + 1,
            id == old(self)@.next_id,
    {
        let id_no = self.next_id;
        let task = Task { task: task_string.to_owned(), done_status: false, id: id_no };
        self.next_id = id_no + 1;
        self.tasks.push(task);
        proof {
            assert(models(self.tasks@) =~= models(old(self).tasks@).push(
                TaskModel::fresh(id_no as nat, task_string@),
            ));
            old(self)@.lemma_add_wf(task_string@);
        }
        id_no
    }

    /// Takes the task with the id out of the store. With no such task the
    /// store stays as it is.
    pub fn remove_task(&mut self, id_no: u64)
        requires
            old(self).wf(),
        ensures
            final(self).wf(),
            final(self)@ == old(self)@.remove(id_no as nat),
    {
        proof {
            old(self)@.lemma_remove_wf(id_no as nat);
        }
        match self.position(id_no) {
            Some(i) => {
                proof {
                    self@.lemma_position(i as int, id_no as nat);
                    self@.lemma_remove_present(id_no as nat);
                }
                let _ = self.tasks.remove(i);
                assert(models(self.tasks@) =~= models(old(self).tasks@).remove(i as int));
            },
            None => {
                proof {
                    self@.lemma_remove_absent(id_no as nat);
                }
            },
        }
    }

    /// Looks a task up by its id.
    pub fn get_task(&self, task_id: u64) -> (found: Result<&Task, ErrorKind>)
        ensures
            match found {
                Ok(task) => self@.find(task_id as nat) == Some(task@),
                Err(e) => e == ErrorKind::NotFound && self@.find(task_id as nat) is None,
            },
    {
        match self.position(task_id) {
            Some(i) => {
                proof {
                    self@.lemma_position(i as int, task_id as nat);
                }
                Ok(&self.tasks[i])
            },
            None => Err(ErrorKind::NotFound),
        }
    }

    /// Marks the task with the id done. With no such task the store stays as
    /// it is and the answer is `NotFound`.
    pub fn mark_done(&mut self, task_id: u64) -> (outcome: Result<(), ErrorKind>)
        requires
            old(self).wf(),
        ensures
            final(self).wf(),
            final(self)@ == old(self)@.mark_done(task_id as nat),
            outcome is Ok <==> old(self)@.contains_id(task_id as nat),
            outcome is Err ==> outcome == Err::<(), ErrorKind>(ErrorKind::NotFound),
    {
        proof {
            old(self)@.lemma_mark_done_wf(task_id as nat);
        }
        match self.position(task_id) {
            Some(i) => {
                proof {
                    self@.lemma_position(i as int, task_id as nat);
                }
                self.tasks[i].update_status();
                assert(models(self.tasks@) =~= models(old(self).tasks@).update(
                    i as int,
                    old(self).tasks@[i as int]@.completed(),
                ));
                Ok(())
            },
            None => Err(ErrorKind::NotFound),
        }
    }

    /// Gives the task with the id a new description. With no such task the
    /// store stays as it is and the answer is `NotFound`.
    pub fn update_description(&mut self, task_id: u64, new_name: String) -> (outcome: Result<
        (),
        ErrorKind,
    >)
        requires
            old(self).wf(),
        ensures
            final(self).wf(),
            final(self)@ == old(self)@.update_description(task_id as nat, new_name@),
            outcome is Ok <==> old(self)@.contains_id(task_id as nat),
            outcome is Err ==> outcome == Err::<(), ErrorKind>(ErrorKind::NotFound),
    {
        proof {
            old(self)@.lemma_update_description_wf(task_id as nat, new_name@);
        }
        match self.position(task_id) {
            Some(i) => {
                proof {
                    self@.lemma_position(i as int, task_id as nat);
                }
                self.tasks[i].update_task(new_name);
                assert(models(self.tasks@) =~= models(old(self).tasks@).update(
                    i as int,
                    old(self).tasks@[i as int]@.renamed(new_name@),
                ));
                Ok(())
            },
            None => Err(ErrorKind::NotFound),
        }
    }
}

} // verus!
