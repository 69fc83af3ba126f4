//! The store as a mathematical value: the tasks in insertion order and the
//! id that the next new task will get.

use vstd::prelude::*;
use crate::task::TaskModel;

verus! {

/// Holds of every task but those with the given id.
pub open spec fn other_than(id: nat) -> spec_fn(TaskModel) -> bool {
    |t: TaskModel| t.id != id
}

/// The tasks in insertion order, and the id that the next new task gets.
pub struct StoreModel {
    pub tasks: Seq<TaskModel>,
    pub next_id: nat,
}

impl StoreModel {
    /// The store before anything was added: ids start at 1.
    pub open spec fn empty() -> StoreModel {
        StoreModel { tasks: Seq::empty(), next_id: 1 }
    }

    /// No two tasks share an id, and every id in use was handed out before:
    /// it lies between 1 and the next id.
    pub open spec fn wf(self) -> bool {
        &&& self.next_id >= 1
        &&& forall|i: int|
            0 <= i < self.tasks.len() ==> 1 <= (#[trigger] self.tasks[i]).id < self.next_id
        &&& forall|i: int, j: int|
            0 <= i < j < self.tasks.len() ==> (#[trigger] self.tasks[i]).id != (
            #[trigger] self.tasks[j]).id
    }

    /// Whether the counter can still hand out an id that fits in 64 bits.
    pub open spec fn has_free_id(self) -> bool {
        self.next_id < u64::MAX
    }

    /// Some task has the id.
    pub open spec fn contains_id(self, id: nat) -> bool {
        exists|i: int| 0 <= i < self.tasks.len() && (#[trigger] self.tasks[i]).id == id
    }

    /// `i` is the first place in insertion order at which a task has the id.
    pub open spec fn is_first(self, i: int, id: nat) -> bool {
        &&& 0 <= i < self.tasks.len()
        &&& self.tasks[i].id == id
        &&& forall|j: int| 0 <= j < i ==> (#[trigger] self.tasks[j]).id != id
    }

    /// The first place at which a task has the id, where there is one.
    pub open spec fn position(self, id: nat) -> int {
        choose|i: int| self.is_first(i, id)
    }

    /// The task with the id, if the store holds one.
    pub open spec fn find(self, id: nat) -> Option<TaskModel> {
        if self.contains_id(id) {
            Some(self.tasks[self.position(id)])
        } else {
            None
        }
    }

    /// A new task goes to the end and takes the next id; the counter moves
    /// on by one.
    pub open spec fn add(self, description: Seq<char>) -> StoreModel {
        StoreModel {
            tasks: self.tasks.push(TaskModel::fresh(self.next_id, description)),
            next_id: self.next_id + 1,
        }
    }

    /// Every task with the id leaves; the others keep their order. The
    /// counter stays where it is.
    pub open spec fn remove(self, id: nat) -> StoreModel {
        StoreModel { tasks: self.tasks.filter(other_than(id)), next_id: self.next_id }
    }

    /// The task with the id becomes done; a store without it stays as it is.
    pub open spec fn mark_done(self, id: nat) -> StoreModel {
        if self.contains_id(id) {
            let at = self.position(id);
            StoreModel { tasks: self.tasks.update(at, self.tasks[at].completed()), ..self }
        } else {
            self
        }
    }

    /// The task with the id gets the new description; a store without it
    /// stays as it is.
    pub open spec fn update_description(self, id: nat, description: Seq<char>) -> StoreModel {
        if self.contains_id(id) {
            let at = self.position(id);
            StoreModel { tasks: self.tasks.update(at, self.tasks[at].renamed(description)), ..self }
        } else {
            self
        }
    }

    /// A place that is first for an id is the position of that id.
    pub proof fn lemma_position(self, i: int, id: nat)
        requires
            self.is_first(i, id),
        ensures
            self.contains_id(id),
            self.position(id) == i,
            self.find(id) == Some(self.tasks[i]),
    {
        let at = self.position(id);
        assert(self.is_first(at, id));
        if at < i {
            assert(self.tasks[at].id != id);
        }
        if i < at {
            assert(self.tasks[i].id != id);
        }
    }

    /// In a well-formed store the one place that holds an id is its position.
    pub proof fn lemma_position_unique(self, i: int, id: nat)
        requires
            self.wf(),
            0 <= i < self.tasks.len(),
            self.tasks[i].id == id,
        ensures
            self.is_first(i, id),
            self.contains_id(id),
            self.position(id) == i,
            self.find(id) == Some(self.tasks[i]),
    {
        assert forall|j: int| 0 <= j < i implies (#[trigger] self.tasks[j]).id != id by {
            assert(self.tasks[j].id != self.tasks[i].id);
        }
        self.lemma_position(i, id);
    }

    /// Adding keeps the store well-formed.
    pub proof fn lemma_add_wf(self, description: Seq<char>)
        requires
            self.wf(),
        ensures
            self.add(description).wf(),
    {
    }

    /// Removing keeps the store well-formed.
    pub proof fn lemma_remove_wf(self, id: nat)
        requires
            self.wf(),
        ensures
            self.remove(id).wf(),
    {
        if self.contains_id(id) {
            self.lemma_remove_present(id);
            let at = self.position(id);
            let left = self.remove(id).tasks;
            assert forall|k: int| 0 <= k < left.len() implies 1 <= (#[trigger] left[k]).id
                < self.next_id by {
                assert(left[k] == self.tasks[if k < at { k } else { k + 1 }]);
            }
            assert forall|k: int, l: int| 0 <= k < l < left.len() implies (#[trigger] left[k]).id
                != (#[trigger] left[l]).id by {
                let from_k = if k < at { k } else { k + 1 };
                let from_l = if l < at { l } else { l + 1 };
                assert(left[k] == self.tasks[from_k]);
                assert(left[l] == self.tasks[from_l]);
                assert(self.tasks[from_k].id != self.tasks[from_l].id);
            }
        } else {
            self.lemma_remove_absent(id);
        }
    }

    /// Marking done keeps the store well-formed.
    pub proof fn lemma_mark_done_wf(self, id: nat)
        requires
            self.wf(),
        ensures
            self.mark_done(id).wf(),
    {
        if self.contains_id(id) {
            let i = choose|i: int| 0 <= i < self.tasks.len() && (#[trigger] self.tasks[i]).id == id;
            self.lemma_position_unique(i, id);
        }
    }

    /// A new description keeps the store well-formed.
    pub proof fn lemma_update_description_wf(self, id: nat, description: Seq<char>)
        requires
            self.wf(),
        ensures
            self.update_description(id, description).wf(),
    {
        if self.contains_id(id) {
            let i = choose|i: int| 0 <= i < self.tasks.len() && (#[trigger] self.tasks[i]).id == id;
            self.lemma_position_unique(i, id);
        }
    }

    /// Removing an id that no task has changes nothing.
    pub proof fn lemma_remove_absent(self, id: nat)
        requires
            !self.contains_id(id),
        ensures
            self.remove(id) == self,
    {
        lemma_filter_keeps(self.tasks, id);
    }

    /// In a well-formed store, removing an id that is there takes out the
    /// one task at its position.
    pub proof fn lemma_remove_present(self, id: nat)
        requires
            self.wf(),
            self.contains_id(id),
        ensures
            self.is_first(self.position(id), id),
            self.remove(id).tasks == self.tasks.remove(self.position(id)),
    {
        let i = choose|i: int| 0 <= i < self.tasks.len() && (#[trigger] self.tasks[i]).id == id;
        self.lemma_position_unique(i, id);
        assert forall|j: int| 0 <= j < self.tasks.len() && j != i implies (
        #[trigger] self.tasks[j]).id != id by {
            if j < i {
                assert(self.tasks[j].id != self.tasks[i].id);
            } else {
                assert(self.tasks[i].id != self.tasks[j].id);
            }
        }
        lemma_filter_drops_one(self.tasks, i, id);
    }
}

/// Filtering by an id that no task has keeps the whole sequence.
pub proof fn lemma_filter_keeps(tasks: Seq<TaskModel>, id: nat)
    requires
        forall|j: int| 0 <= j < tasks.len() ==> (#[trigger] tasks[j]).id != id,
    ensures
        tasks.filter(other_than(id)) == tasks,
    decreases tasks.len(),
{
    reveal(Seq::filter);
    if tasks.len() > 0 {
        let front = tasks.drop_last();
        assert forall|j: int| 0 <= j < front.len() implies (#[trigger] front[j]).id != id by {
            assert(front[j] == tasks[j]);
        }
        lemma_filter_keeps(front, id);
        assert(other_than(id)(tasks.last()));
        assert(front.push(tasks.last()) =~= tasks);
    }
}

/// Filtering by an id that exactly one task has takes out that task.
pub proof fn lemma_filter_drops_one(tasks: Seq<TaskModel>, i: int, id: nat)
    requires
        0 <= i < tasks.len(),
        tasks[i].id == id,
        forall|j: int| 0 <= j < tasks.len() && j != i ==> (#[trigger] tasks[j]).id != id,
    ensures
        tasks.filter(other_than(id)) == tasks.remove(i),
{
    let keep = other_than(id);
    let before = tasks.take(i);
    let one = seq![tasks[i]];
    let after = tasks.skip(i + 1);
    assert(tasks =~= before + one + after);
    assert forall|j: int| 0 <= j < before.len() implies (#[trigger] before[j]).id != id by {
        assert(before[j] == tasks[j]);
    }
    assert forall|j: int| 0 <= j < after.len() implies (#[trigger] after[j]).id != id by {
        assert(after[j] == tasks[j + i + 1]);
    }
    lemma_filter_keeps(before, id);
    lemma_filter_keeps(after, id);
    assert(one.filter(keep) =~= Seq::<TaskModel>::empty()) by {
        reveal_with_fuel(Seq::filter, 2);
        assert(one.drop_last() =~= Seq::<TaskModel>::empty());
        assert(one.drop_last().filter(keep) =~= Seq::<TaskModel>::empty());
        assert(!keep(one.last()));
    }
    Seq::filter_distributes_over_add(before, one, keep);
    Seq::filter_distributes_over_add(before + one, after, keep);
    assert(tasks.filter(keep) =~= tasks.remove(i));
}

} // verus!
