//! What holds of the store whatever is done with it.
//!
//! The first part says what each operation does to the lookup of every id.
//! The second part follows a store through a whole history of operations,
//! from the empty store on. The third part is about command lines, and the
//! last about ids as they are written and read.

use vstd::prelude::*;
use crate::dispatch::{effect, Command};
use crate::error::ErrorKind;
use crate::id::{digit_value, id_of, read_digits, ParseFailure};
use crate::model::{other_than, StoreModel};
use crate::task::TaskModel;
use crate::text::{decimal, digit_char};

verus! {

/// In a well-formed store a task is found under its own id.
pub proof fn lemma_find_at(store: StoreModel, i: int)
    requires
        store.wf(),
        0 <= i < store.tasks.len(),
    ensures
        store.find(store.tasks[i].id) == Some(store.tasks[i]),
{
    store.lemma_position_unique(i, store.tasks[i].id);
}

/// A task that is found sits somewhere in the list, under the id asked for.
pub proof fn lemma_found_is_member(store: StoreModel, id: nat)
    requires
        store.find(id) is Some,
    ensures
        0 <= store.position(id) < store.tasks.len(),
        store.tasks[store.position(id)] == store.find(id)->0,
        store.find(id)->0.id == id,
        store.is_first(store.position(id), id),
{
    lemma_first_exists(store, store.tasks.len() as int, id);
}

/// Where some task among the first `n` has the id, one of them is the first
/// to have it.
proof fn lemma_first_exists(store: StoreModel, n: int, id: nat)
    requires
        0 <= n <= store.tasks.len(),
        exists|i: int| 0 <= i < n && (#[trigger] store.tasks[i]).id == id,
    ensures
        exists|i: int| store.is_first(i, id),
    decreases n,
{
    if exists|i: int| 0 <= i < n - 1 && (#[trigger] store.tasks[i]).id == id {
        lemma_first_exists(store, n - 1, id);
    } else {
        assert(store.tasks[n - 1].id == id);
        assert(store.is_first(n - 1, id));
    }
}

/// After `add`, the new id finds the new task, which is not done, and every
/// other id finds what it found before.
pub proof fn lemma_find_after_add(store: StoreModel, description: Seq<char>, id: nat)
    requires
        store.wf(),
    ensures
        store.add(description).find(id) == if id == store.next_id {
            Some(TaskModel::fresh(store.next_id, description))
        } else {
            store.find(id)
        },
{
    let after = store.add(description);
    store.lemma_add_wf(description);
    if id == store.next_id {
        lemma_find_at(after, store.tasks.len() as int);
    } else if store.contains_id(id) {
        let i = choose|i: int| 0 <= i < store.tasks.len() && (#[trigger] store.tasks[i]).id == id;
        lemma_find_at(store, i);
        assert(after.tasks[i] == store.tasks[i]);
        lemma_find_at(after, i);
    } else {
        if after.contains_id(id) {
            let i = choose|i: int|
                0 <= i < after.tasks.len() && (#[trigger] after.tasks[i]).id == id;
            assert(i < store.tasks.len());
            assert(store.tasks[i].id == id);
        }
    }
}

/// `add` makes the list one longer: the tasks that were there stay as they
/// were and where they were, and the new one follows them.
pub proof fn lemma_add_lengthens(store: StoreModel, description: Seq<char>)
    ensures
        store.add(description).tasks.len() == store.tasks.len() + 1,
        store.add(description).tasks.drop_last() == store.tasks,
        store.add(description).tasks.last() == TaskModel::fresh(store.next_id, description),
        store.add(description).next_id == store.next_id + 1,
{
    assert(store.add(description).tasks.drop_last() =~= store.tasks);
}

/// After `remove`, the removed id finds nothing and every other id finds
/// what it found before.
pub proof fn lemma_find_after_remove(store: StoreModel, removed: nat, id: nat)
    requires
        store.wf(),
    ensures
        store.remove(removed).find(id) == if id == removed {
            None
        } else {
            store.find(id)
        },
{
    let after = store.remove(removed);
    store.lemma_remove_wf(removed);
    if !store.contains_id(removed) {
        store.lemma_remove_absent(removed);
    } else {
        store.lemma_remove_present(removed);
        let at = store.position(removed);
        assert forall|k: int| 0 <= k < after.tasks.len() implies #[trigger] after.tasks[k]
            == store.tasks[if k < at { k } else { k + 1 }] by {}
        if id == removed {
            if after.contains_id(id) {
                let k = choose|k: int|
                    0 <= k < after.tasks.len() && (#[trigger] after.tasks[k]).id == id;
                let from = if k < at { k } else { k + 1 };
                assert(after.tasks[k] == store.tasks[from]);
                store.lemma_position_unique(from, id);
            }
        } else if store.contains_id(id) {
            let i = choose|i: int|
                0 <= i < store.tasks.len() && (#[trigger] store.tasks[i]).id == id;
            lemma_find_at(store, i);
            let k = if i < at { i } else { i - 1 };
            assert(after.tasks[k] == store.tasks[i]);
            lemma_find_at(after, k);
        } else {
            if after.contains_id(id) {
                let k = choose|k: int|
                    0 <= k < after.tasks.len() && (#[trigger] after.tasks[k]).id == id;
                let from = if k < at { k } else { k + 1 };
                assert(after.tasks[k] == store.tasks[from]);
                assert(store.tasks[from].id == id);
            }
        }
    }
}

/// Removing an id a second time changes nothing more.
pub proof fn lemma_remove_twice(store: StoreModel, id: nat)
    requires
        store.wf(),
    ensures
        store.remove(id).remove(id) == store.remove(id),
{
    store.lemma_remove_wf(id);
    lemma_find_after_remove(store, id, id);
    store.remove(id).lemma_remove_absent(id);
}

/// After `mark_done` on an id that is there, that id finds its task as it
/// was but done, every other id finds what it found before, and the list
/// is as long as it was.
pub proof fn lemma_find_after_mark_done(store: StoreModel, marked: nat, id: nat)
    requires
        store.wf(),
    ensures
        store.mark_done(marked).tasks.len() == store.tasks.len(),
        store.mark_done(marked).find(id) == if id == marked && store.find(marked) is Some {
            Some(store.find(marked)->0.completed())
        } else {
            store.find(id)
        },
{
    let after = store.mark_done(marked);
    store.lemma_mark_done_wf(marked);
    if store.contains_id(marked) {
        lemma_found_is_member(store, marked);
        let at = store.position(marked);
        if id == marked {
            lemma_find_at(after, at);
        } else if store.contains_id(id) {
            let i = choose|i: int|
                0 <= i < store.tasks.len() && (#[trigger] store.tasks[i]).id == id;
            lemma_find_at(store, i);
            assert(after.tasks[i] == store.tasks[i]);
            lemma_find_at(after, i);
        } else {
            if after.contains_id(id) {
                let k = choose|k: int|
                    0 <= k < after.tasks.len() && (#[trigger] after.tasks[k]).id == id;
                assert(store.tasks[k].id == id);
            }
        }
    }
}

/// After `update_description` on an id that is there, that id finds its
/// task with the new description and nothing else changed, every other id
/// finds what it found before, and the list is as long as it was.
pub proof fn lemma_find_after_update_description(
    store: StoreModel,
    updated: nat,
    description: Seq<char>,
    id: nat,
)
    requires
        store.wf(),
    ensures
        store.update_description(updated, description).tasks.len() == store.tasks.len(),
        store.update_description(updated, description).find(id) == if id == updated && store.find(
            updated,
        ) is Some {
            Some(store.find(updated)->0.renamed(description))
        } else {
            store.find(id)
        },
{
    let after = store.update_description(updated, description);
    store.lemma_update_description_wf(updated, description);
    if store.contains_id(updated) {
        lemma_found_is_member(store, updated);
        let at = store.position(updated);
        if id == updated {
            lemma_find_at(after, at);
        } else if store.contains_id(id) {
            let i = choose|i: int|
                0 <= i < store.tasks.len() && (#[trigger] store.tasks[i]).id == id;
            lemma_find_at(store, i);
            assert(after.tasks[i] == store.tasks[i]);
            lemma_find_at(after, i);
        } else {
            if after.contains_id(id) {
                let k = choose|k: int|
                    0 <= k < after.tasks.len() && (#[trigger] after.tasks[k]).id == id;
                assert(store.tasks[k].id == id);
            }
        }
    }
}

/// `update_description` touches one place of the list and only the
/// description there.
pub proof fn lemma_update_description_is_local(
    store: StoreModel,
    updated: nat,
    description: Seq<char>,
    i: int,
)
    requires
        store.wf(),
        0 <= i < store.tasks.len(),
    ensures
        store.update_description(updated, description).tasks.len() == store.tasks.len(),
        store.update_description(updated, description).tasks[i] == if store.tasks[i].id
            == updated {
            store.tasks[i].renamed(description)
        } else {
            store.tasks[i]
        },
{
    if store.contains_id(updated) {
        lemma_found_is_member(store, updated);
        if store.tasks[i].id == updated {
            store.lemma_position_unique(i, updated);
        }
    }
}

/// One operation on the store.
pub enum Op {
    Add(Seq<char>),
    Remove(nat),
    MarkDone(nat),
    UpdateDescription(nat, Seq<char>),
}

/// The store after one operation.
pub open spec fn step(store: StoreModel, op: Op) -> StoreModel {
    match op {
        Op::Add(description) => store.add(description),
        Op::Remove(id) => store.remove(id),
        Op::MarkDone(id) => store.mark_done(id),
        Op::UpdateDescription(id, description) => store.update_description(id, description),
    }
}

/// The store after a history of operations on the empty store.
pub open spec fn replay(ops: Seq<Op>) -> StoreModel
    decreases ops.len(),
{
    if ops.len() == 0 {
        StoreModel::empty()
    } else {
        step(replay(ops.drop_last()), ops.last())
    }
}

/// How many operations of a history are an `add`.
pub open spec fn adds(ops: Seq<Op>) -> nat
    decreases ops.len(),
{
    if ops.len() == 0 {
        0
    } else {
        adds(ops.drop_last()) + if ops.last() is Add {
            1nat
        } else {
            0nat
        }
    }
}

/// How many operations of a history are a `remove` of an id that was in the
/// store at that time.
pub open spec fn removals(ops: Seq<Op>) -> nat
    decreases ops.len(),
{
    if ops.len() == 0 {
        0
    } else {
        removals(ops.drop_last()) + match ops.last() {
            Op::Remove(id) => if replay(ops.drop_last()).contains_id(id) {
                1nat
            } else {
                0nat
            },
            _ => 0nat,
        }
    }
}

/// The id that the operation at place `i` of a history gets if it is an
/// `add`: the counter of the store that it meets.
pub open spec fn id_given(ops: Seq<Op>, i: int) -> nat
    recommends
        0 <= i < ops.len(),
{
    replay(ops.take(i)).next_id
}

/// Every operation keeps a well-formed store well-formed.
pub proof fn lemma_step_wf(store: StoreModel, op: Op)
    requires
        store.wf(),
    ensures
        step(store, op).wf(),
{
    match op {
        Op::Add(description) => store.lemma_add_wf(description),
        Op::Remove(id) => store.lemma_remove_wf(id),
        Op::MarkDone(id) => store.lemma_mark_done_wf(id),
        Op::UpdateDescription(id, description) => store.lemma_update_description_wf(
            id,
            description,
        ),
    }
}

/// No operation makes a done task not done: a task that is done and still
/// there after one operation is still done.
pub proof fn lemma_done_is_permanent(store: StoreModel, op: Op, id: nat)
    requires
        store.wf(),
        store.find(id) is Some,
        store.find(id)->0.done,
        step(store, op).find(id) is Some,
    ensures
        step(store, op).find(id)->0.done,
{
    lemma_found_is_member(store, id);
    match op {
        Op::Add(description) => {
            lemma_find_after_add(store, description, id);
            assert(id < store.next_id);
        },
        Op::Remove(removed) => lemma_find_after_remove(store, removed, id),
        Op::MarkDone(marked) => lemma_find_after_mark_done(store, marked, id),
        Op::UpdateDescription(updated, description) => lemma_find_after_update_description(
            store,
            updated,
            description,
            id,
        ),
    }
}

/// After any history the store is well-formed, its counter stands at one
/// more than the number of adds, and it holds as many tasks as were added
/// less those that a remove took out.
pub proof fn lemma_history(ops: Seq<Op>)
    ensures
        replay(ops).wf(),
        replay(ops).next_id == 1 + adds(ops),
        replay(ops).tasks.len() == adds(ops) - removals(ops),
    decreases ops.len(),
{
    if ops.len() > 0 {
        let before = replay(ops.drop_last());
        lemma_history(ops.drop_last());
        lemma_step_wf(before, ops.last());
        match ops.last() {
            Op::Add(description) => {},
            Op::Remove(id) => {
                if before.contains_id(id) {
                    before.lemma_remove_present(id);
                    before.tasks.remove_ensures(before.position(id));
                } else {
                    before.lemma_remove_absent(id);
                }
            },
            Op::MarkDone(id) => lemma_find_after_mark_done(before, id, id),
            Op::UpdateDescription(id, description) => lemma_find_after_update_description(
                before,
                id,
                description,
                id,
            ),
        }
    }
}

/// A longer start of a history holds at least as many adds.
pub proof fn lemma_adds_grow(ops: Seq<Op>, i: int, j: int)
    requires
        0 <= i <= j <= ops.len(),
    ensures
        adds(ops.take(i)) <= adds(ops.take(j)),
    decreases j - i,
{
    if i < j {
        lemma_adds_grow(ops, i, j - 1);
        assert(ops.take(j).drop_last() == ops.take(j - 1));
    }
}

/// The adds of a history get the ids 1, 2, 3 and so on: the add at place
/// `i` gets one more than the number of adds before it.
pub proof fn lemma_ids_count_up(ops: Seq<Op>, i: int)
    requires
        0 <= i < ops.len(),
        ops[i] is Add,
    ensures
        id_given(ops, i) == adds(ops.take(i)) + 1,
        step(replay(ops.take(i)), ops[i]).find(id_given(ops, i)) == Some(
            TaskModel::fresh(id_given(ops, i), ops[i]->Add_0),
        ),
{
    lemma_history(ops.take(i));
    lemma_find_after_add(replay(ops.take(i)), ops[i]->Add_0, id_given(ops, i));
}

/// Of two adds in one history the later one gets the larger id.
pub proof fn lemma_ids_increase(ops: Seq<Op>, i: int, j: int)
    requires
        0 <= i < j < ops.len(),
        ops[i] is Add,
        ops[j] is Add,
    ensures
        id_given(ops, i) < id_given(ops, j),
{
    lemma_history(ops.take(i));
    lemma_history(ops.take(j));
    lemma_adds_grow(ops, i + 1, j);
    assert(ops.take(i + 1).drop_last() == ops.take(i));
    assert(ops.take(i + 1).last() == ops[i]);
}

/// A command that is refused leaves the store as it was, and every command
/// leaves a well-formed store well-formed.
pub proof fn lemma_effect_keeps_store(words: Seq<Seq<char>>, store: StoreModel)
    requires
        store.wf(),
        words.len() >= 1,
    ensures
        effect(words, store).store.wf(),
        effect(words, store).outcome is Rejected ==> effect(words, store).store == store,
        effect(words, store).outcome is Exit ==> effect(words, store).store == store,
{
    match Command::of_word(words[0]) {
        Command::Add => {
            if words.len() >= 2 {
                store.lemma_add_wf(words[1]);
            }
        },
        Command::Delete => {
            if words.len() >= 2 {
                if let Ok(id) = id_of(words[1]) {
                    store.lemma_remove_wf(id);
                }
            }
        },
        Command::Update => {
            if words.len() >= 3 {
                if let Ok(id) = id_of(words[1]) {
                    store.lemma_update_description_wf(id, words[2]);
                }
            }
        },
        Command::Done => {
            if words.len() >= 2 {
                if let Ok(id) = id_of(words[1]) {
                    store.lemma_mark_done_wf(id);
                }
            }
        },
        _ => {},
    }
}

/// A command that needs a word after it and stands alone is refused as
/// `ArgumentMissing` and leaves the store as it was: `add` without a text,
/// and `delete`, `update` and `done` without an id.
pub proof fn lemma_missing_argument_is_refused(words: Seq<Seq<char>>, store: StoreModel)
    requires
        words.len() == 1,
        !(Command::of_word(words[0]) is Show),
        !(Command::of_word(words[0]) is Exit),
        !(Command::of_word(words[0]) is Help),
    ensures
        effect(words, store).store == store,
        effect(words, store).outcome is Rejected,
        effect(words, store).outcome->Rejected_kind == ErrorKind::ArgumentMissing,
{
}

/// No command makes a done task not done: a task that is done and still
/// there after a command is still done.
pub proof fn lemma_effect_keeps_done(words: Seq<Seq<char>>, store: StoreModel, id: nat)
    requires
        store.wf(),
        words.len() >= 1,
        store.find(id) is Some,
        store.find(id)->0.done,
        effect(words, store).store.find(id) is Some,
    ensures
        effect(words, store).store.find(id)->0.done,
{
    match Command::of_word(words[0]) {
        Command::Add => {
            if words.len() >= 2 {
                lemma_done_is_permanent(store, Op::Add(words[1]), id);
            }
        },
        Command::Delete => {
            if words.len() >= 2 {
                if let Ok(removed) = id_of(words[1]) {
                    lemma_done_is_permanent(store, Op::Remove(removed), id);
                }
            }
        },
        Command::Update => {
            if words.len() >= 3 {
                if let Ok(updated) = id_of(words[1]) {
                    lemma_done_is_permanent(store, Op::UpdateDescription(updated, words[2]), id);
                }
            }
        },
        Command::Done => {
            if words.len() >= 2 {
                if let Ok(marked) = id_of(words[1]) {
                    lemma_done_is_permanent(store, Op::MarkDone(marked), id);
                }
            }
        },
        _ => {},
    }
}

/// The command line is an `add` with a text: it adds a task.
pub open spec fn line_adds(words: Seq<Seq<char>>) -> bool {
    words.len() >= 2 && Command::of_word(words[0]) is Add
}

/// The command line is a `delete` whose word for the id names a task of the
/// store: it takes a task out.
pub open spec fn line_deletes(words: Seq<Seq<char>>, store: StoreModel) -> bool {
    &&& words.len() >= 2
    &&& Command::of_word(words[0]) is Delete
    &&& id_of(words[1]) is Ok
    &&& store.contains_id(id_of(words[1])->Ok_0)
}

/// The store after a run of command lines on the empty store.
pub open spec fn replay_lines(lines: Seq<Seq<Seq<char>>>) -> StoreModel
    decreases lines.len(),
{
    if lines.len() == 0 {
        StoreModel::empty()
    } else {
        effect(lines.last(), replay_lines(lines.drop_last())).store
    }
}

/// How many lines of a run add a task.
pub open spec fn lines_adding(lines: Seq<Seq<Seq<char>>>) -> nat
    decreases lines.len(),
{
    if lines.len() == 0 {
        0
    } else {
        lines_adding(lines.drop_last()) + if line_adds(lines.last()) {
            1nat
        } else {
            0nat
        }
    }
}

/// How many lines of a run take a task out of the store that they meet.
pub open spec fn lines_deleting(lines: Seq<Seq<Seq<char>>>) -> nat
    decreases lines.len(),
{
    if lines.len() == 0 {
        0
    } else {
        lines_deleting(lines.drop_last()) + if line_deletes(
            lines.last(),
            replay_lines(lines.drop_last()),
        ) {
            1nat
        } else {
            0nat
        }
    }
}

/// One command changes the length of the list by what it adds or takes out:
/// one more after an `add` with a text, one less after a `delete` that
/// hits, and the same after everything else. Only an `add` with a text
/// moves the counter, by one.
pub proof fn lemma_effect_counts(words: Seq<Seq<char>>, store: StoreModel)
    requires
        store.wf(),
        words.len() >= 1,
    ensures
        effect(words, store).store.tasks.len() == store.tasks.len() + if line_adds(words) {
            1int
        } else if line_deletes(words, store) {
            -1int
        } else {
            0int
        },
        effect(words, store).store.next_id == store.next_id + if line_adds(words) {
            1nat
        } else {
            0nat
        },
{
    match Command::of_word(words[0]) {
        Command::Delete => {
            if words.len() >= 2 {
                if let Ok(id) = id_of(words[1]) {
                    if store.contains_id(id) {
                        store.lemma_remove_present(id);
                        store.tasks.remove_ensures(store.position(id));
                    } else {
                        store.lemma_remove_absent(id);
                    }
                }
            }
        },
        Command::Update => {
            if words.len() >= 3 {
                if let Ok(id) = id_of(words[1]) {
                    lemma_find_after_update_description(store, id, words[2], id);
                }
            }
        },
        Command::Done => {
            if words.len() >= 2 {
                if let Ok(id) = id_of(words[1]) {
                    lemma_find_after_mark_done(store, id, id);
                }
            }
        },
        _ => {},
    }
}

/// After any run of command lines on the empty store, the store is
/// well-formed, its counter stands at one more than the number of lines
/// that added a task, and it holds as many tasks as were added less those
/// that a `delete` took out.
pub proof fn lemma_line_history(lines: Seq<Seq<Seq<char>>>)
    requires
        forall|i: int| 0 <= i < lines.len() ==> (#[trigger] lines[i]).len() >= 1,
    ensures
        replay_lines(lines).wf(),
        replay_lines(lines).next_id == 1 + lines_adding(lines),
        replay_lines(lines).tasks.len() == lines_adding(lines) - lines_deleting(lines),
    decreases lines.len(),
{
    if lines.len() > 0 {
        let earlier = lines.drop_last();
        assert forall|i: int| 0 <= i < earlier.len() implies (#[trigger] earlier[i]).len()
            >= 1 by {
            assert(earlier[i] == lines[i]);
        }
        lemma_line_history(earlier);
        lemma_effect_keeps_store(lines.last(), replay_lines(earlier));
        lemma_effect_counts(lines.last(), replay_lines(earlier));
    }
}

/// A word that names no command does what `help` does, whatever follows it.
pub proof fn lemma_unknown_word_is_help(
    words: Seq<Seq<char>>,
    store: StoreModel,
    help_words: Seq<Seq<char>>,
)
    requires
        words.len() >= 1,
        help_words.len() >= 1,
        help_words[0] == "help"@,
        Command::of_word(words[0]) is Help,
    ensures
        effect(words, store) == effect(help_words, store),
{
    reveal_strlit("help");
    reveal_strlit("add");
    reveal_strlit("show");
    reveal_strlit("delete");
    reveal_strlit("update");
    reveal_strlit("done");
    reveal_strlit("exit");
    let help = "help"@;
    assert(help[0] == 'h');
    assert(help.len() == 4);
    assert("add"@[0] == 'a');
    assert("show"@[0] == 's');
    assert("delete"@[0] == 'd');
    assert("update"@[0] == 'u');
    assert("done"@[0] == 'd');
    assert("exit"@[0] == 'e');
}

/// Reading one more digit after a run of characters: the value read so far
/// times ten plus the digit, unless reading failed before or the number
/// grows too large.
pub proof fn lemma_read_one_more(digits: Seq<char>, so_far: nat, c: char)
    requires
        digit_value(c) is Some,
    ensures
        read_digits(digits.push(c), so_far) == match read_digits(digits, so_far) {
            Ok(v) => if v * 10 + digit_value(c)->0 > u64::MAX {
                Err(ParseFailure::PosOverflow)
            } else {
                Ok(v * 10 + digit_value(c)->0)
            },
            Err(e) => Err(e),
        },
    decreases digits.len(),
{
    reveal_with_fuel(read_digits, 2);
    let longer = digits.push(c);
    if digits.len() == 0 {
        assert(longer.drop_first().len() == 0);
    } else {
        assert(longer[0] == digits[0]);
        assert(longer.drop_first() == digits.drop_first().push(c));
        if let Some(d) = digit_value(digits[0]) {
            if so_far * 10 + d <= u64::MAX {
                lemma_read_one_more(digits.drop_first(), so_far * 10 + d, c);
            }
        }
    }
}

/// A number in decimal starts with a digit.
pub proof fn lemma_decimal_starts_with_digit(n: nat)
    ensures
        decimal(n).len() >= 1,
        digit_value(decimal(n)[0]) is Some,
    decreases n,
{
    if n >= 10 {
        lemma_decimal_starts_with_digit(n / 10);
    }
}

/// An id as the list shows it is read back as the same id.
pub proof fn lemma_decimal_reads_back(n: nat)
    requires
        n <= u64::MAX,
    ensures
        id_of(decimal(n)) == Ok::<nat, ParseFailure>(n),
{
    lemma_decimal_starts_with_digit(n);
    lemma_digits_read_back(n);
}

/// The digits of a number, read from zero on, give the number.
proof fn lemma_digits_read_back(n: nat)
    requires
        n <= u64::MAX,
    ensures
        read_digits(decimal(n), 0) == Ok::<nat, ParseFailure>(n),
    decreases n,
{
    if n < 10 {
        reveal_with_fuel(read_digits, 2);
        assert(decimal(n).drop_first().len() == 0);
    } else {
        lemma_digits_read_back(n / 10);
        lemma_read_one_more(decimal(n / 10), 0, digit_char(n % 10));
    }
}

} // verus!
