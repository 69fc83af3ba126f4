//! The command dispatcher: one command line in, one change of the store and
//! one outcome out.
//!
//! The first word picks the command and the words after it are its
//! arguments. Nothing is printed here and the process is never ended here:
//! the outcome holds the text to show, or says that the caller should exit.

use vstd::prelude::*;
use vstd::string::StringExecFns;
use crate::display::{display_help, display_todo, help_text, listing};
use crate::error::ErrorKind;
use crate::id::{id_of, parse_id};
use crate::model::StoreModel;
use crate::store::TaskStore;
use crate::text::str_eq;

verus! {

/// The commands. Every word that names no other command means `Help`.
#[derive(Clone, Copy, Debug, PartialEq, Eq)]
pub enum Command {
    Add,
    Show,
    Delete,
    Update,
    Done,
    Exit,
    Help,
}

impl Command {
    /// The command that a word stands for.
    pub open spec fn of_word(word: Seq<char>) -> Command {
        if word == "add"@ {
            Command::Add
        } else if word == "show"@ {
            Command::Show
        } else if word == "delete"@ {
            Command::Delete
        } else if word == "update"@ {
            Command::Update
        } else if word == "done"@ {
            Command::Done
        } else if word == "exit"@ {
            Command::Exit
        } else {
            Command::Help
        }
    }

    /// The command that a word stands for.
    pub fn from_word(word: &str) -> (command: Command)
        ensures
            command == Command::of_word(word@),
    {
        if str_eq(word, "add") {
            Command::Add
        } else if str_eq(word, "show") {
            Command::Show
        } else if str_eq(word, "delete") {
            Command::Delete
        } else if str_eq(word, "update") {
            Command::Update
        } else if str_eq(word, "done") {
            Command::Done
        } else if str_eq(word, "exit") {
            Command::Exit
        } else {
            Command::Help
        }
    }
}

/// What came of a command.
#[derive(Debug, PartialEq, Eq)]
pub enum Outcome {
    /// The command ran. `text` is what to show for it, possibly nothing.
    Completed { text: String },
    /// The command was refused and the store is as it was. `text` is what to
    /// show for it.
    Rejected { kind: ErrorKind, text: String },
    /// The caller should end the process with status 0.
    Exit,
}

/// An outcome with its texts as sequences of characters.
pub enum OutcomeModel {
    Completed { text: Seq<char> },
    Rejected { kind: ErrorKind, text: Seq<char> },
    Exit,
}

impl View for Outcome {
    type V = OutcomeModel;

    open spec fn view(&self) -> OutcomeModel {
        match self {
            Outcome::Completed { text } => OutcomeModel::Completed { text: text@ },
            Outcome::Rejected { kind, text } => OutcomeModel::Rejected { kind: *kind, text: text@ },
            Outcome::Exit => OutcomeModel::Exit,
        }
    }
}

/// What a command does: the store after it, and its outcome.
pub struct Effect {
    pub store: StoreModel,
    pub outcome: OutcomeModel,
}

impl Effect {
    /// The command ran, left `store` behind and shows `text`.
    pub open spec fn completed(store: StoreModel, text: Seq<char>) -> Effect {
        Effect { store, outcome: OutcomeModel::Completed { text } }
    }

    /// The command was refused: `store` is the store as it was.
    pub open spec fn rejected(store: StoreModel, kind: ErrorKind, text: Seq<char>) -> Effect {
        Effect { store, outcome: OutcomeModel::Rejected { kind, text } }
    }
}

/// The words of a command line as sequences of characters.
pub open spec fn words_of(args: Seq<&str>) -> Seq<Seq<char>> {
    args.map_values(|word: &str| word@)
}

/// A command line can be run on a store when it has a command word, and
/// when a task that it would add can still get an id.
pub open spec fn runnable(words: Seq<Seq<char>>, store: StoreModel) -> bool {
    &&& words.len() >= 1
    &&& Command::of_word(words[0]) is Add && words.len() >= 2 ==> store.has_free_id()
}

/// What a command that reads an id does when no word for the id follows it:
/// it is refused with a prompt.
pub open spec fn id_missing(store: StoreModel) -> Effect {
    Effect::rejected(store, ErrorKind::ArgumentMissing, "please provide the id of the task\n"@)
}

/// `add <text>`: the new task goes in, and a note and the list are shown.
/// Without the text nothing happens but a prompt.
pub open spec fn effect_of_add(words: Seq<Seq<char>>, store: StoreModel) -> Effect {
    if words.len() >= 2 {
        let after = store.add(words[1]);
        Effect::completed(
            after,
            words[1] + " added to the todo list: \n"@ + listing(after.tasks),
        )
    } else {
        Effect::rejected(
            store,
            ErrorKind::ArgumentMissing,
            "please provide a new name for the task\n"@,
        )
    }
}

/// `delete <id>`: the task leaves, if it is there, and the list is shown.
pub open spec fn effect_of_delete(words: Seq<Seq<char>>, store: StoreModel) -> Effect {
    if words.len() < 2 {
        id_missing(store)
    } else {
        match id_of(words[1]) {
            Ok(id) => {
                let after = store.remove(id);
                Effect::completed(after, listing(after.tasks))
            },
            Err(e) => Effect::rejected(
                store,
                ErrorKind::ParseFailure(e),
                e.message_text() + "\n"@,
            ),
        }
    }
}

/// `update <id> <text>`: the task gets the new description and nothing is
/// shown. The id is read first, then looked up, and only then is the text
/// asked for.
pub open spec fn effect_of_update(words: Seq<Seq<char>>, store: StoreModel) -> Effect {
    if words.len() < 2 {
        id_missing(store)
    } else {
        match id_of(words[1]) {
            Ok(id) => if !store.contains_id(id) {
                Effect::rejected(store, ErrorKind::NotFound, "task not found in todo list\n"@)
            } else if words.len() < 3 {
                Effect::rejected(store, ErrorKind::ArgumentMissing, "no new task provided\n"@)
            } else {
                Effect::completed(store.update_description(id, words[2]), Seq::empty())
            },
            Err(e) => Effect::rejected(store, ErrorKind::ParseFailure(e), e.message_text()),
        }
    }
}

/// `done <id>`: the task becomes done and nothing is shown.
pub open spec fn effect_of_done(words: Seq<Seq<char>>, store: StoreModel) -> Effect {
    if words.len() < 2 {
        id_missing(store)
    } else {
        match id_of(words[1]) {
            Ok(id) => if !store.contains_id(id) {
                Effect::rejected(store, ErrorKind::NotFound, "task id not found in list\n"@)
            } else {
                Effect::completed(store.mark_done(id), Seq::empty())
            },
            Err(e) => Effect::rejected(
                store,
                ErrorKind::ParseFailure(e),
                e.message_text() + "\n"@,
            ),
        }
    }
}

/// What a command line does to a store.
pub open spec fn effect(words: Seq<Seq<char>>, store: StoreModel) -> Effect
    recommends
        words.len() >= 1,
{
    match Command::of_word(words[0]) {
        Command::Add => effect_of_add(words, store),
        Command::Show => Effect::completed(store, listing(store.tasks)),
        Command::Delete => effect_of_delete(words, store),
        Command::Update => effect_of_update(words, store),
        Command::Done => effect_of_done(words, store),
        Command::Exit => Effect { store, outcome: OutcomeModel::Exit },
        Command::Help => Effect::completed(store, help_text()),
    }
}

/// Tells whether a command line can be run on the store.
pub fn is_runnable(args: &Vec<&str>, todo_list: &TaskStore) -> (ok: bool)
    ensures
        ok == runnable(words_of(args@), todo_list@),
{
    if args.len() < 1 {
        return false;
    }
    match Command::from_word(args[0]) {
        Command::Add => args.len() < 2 || todo_list.has_free_id(),
        _ => true,
    }
}

/// The refusal of a command that was given no word for the id.
fn refuse_missing_id() -> (outcome: Outcome)
    ensures
        forall|store: StoreModel| outcome@ == #[trigger] id_missing(store).outcome,
{
    refuse(ErrorKind::ArgumentMissing, "please provide the id of the task\n")
}

/// A refusal with its text.
fn refuse(kind: ErrorKind, text: &str) -> (outcome: Outcome)
    ensures
        outcome@ == (OutcomeModel::Rejected { kind, text: text@ }),
{
    Outcome::Rejected { kind, text: String::from_str(text) }
}

/// Carries out `add`.
fn run_add(args: &Vec<&str>, todo_list: &mut TaskStore) -> (outcome: Outcome)
    requires
        old(todo_list).wf(),
        args@.len() >= 2 ==> old(todo_list)@.has_free_id(),
    ensures
        final(todo_list).wf(),
        final(todo_list)@ == effect_of_add(words_of(args@), old(todo_list)@).store,
        outcome@ == effect_of_add(words_of(args@), old(todo_list)@).outcome,
{
    if args.len() >= 2 {
        let new_task = args[1];
        todo_list.add_new_task(new_task);
        let mut text = String::from_str(new_task);
        text.append(" added to the todo list: \n");
        let list = display_todo(todo_list.tasks());
        text.append(list.as_str());
        Outcome::Completed { text }
    } else {
        refuse(ErrorKind::ArgumentMissing, "please provide a new name for the task\n")
    }
}

/// Carries out `delete`.
fn run_delete(args: &Vec<&str>, todo_list: &mut TaskStore) -> (outcome: Outcome)
    requires
        old(todo_list).wf(),
    ensures
        final(todo_list).wf(),
        final(todo_list)@ == effect_of_delete(words_of(args@), old(todo_list)@).store,
        outcome@ == effect_of_delete(words_of(args@), old(todo_list)@).outcome,
{
    if args.len() < 2 {
        return refuse_missing_id();
    }
    match parse_id(args[1]) {
        Ok(value) => {
            todo_list.remove_task(value);
            Outcome::Completed { text: display_todo(todo_list.tasks()) }
        },
        Err(e) => {
            let mut text = String::from_str(e.message());
            text.append("\n");
            Outcome::Rejected { kind: ErrorKind::ParseFailure(e), text }
        },
    }
}

/// Carries out `update`.
fn run_update(args: &Vec<&str>, todo_list: &mut TaskStore) -> (outcome: Outcome)
    requires
        old(todo_list).wf(),
    ensures
        final(todo_list).wf(),
        final(todo_list)@ == effect_of_update(words_of(args@), old(todo_list)@).store,
        outcome@ == effect_of_update(words_of(args@), old(todo_list)@).outcome,
{
    if args.len() < 2 {
        return refuse_missing_id();
    }
    match parse_id(args[1]) {
        Ok(value) => {
            if !todo_list.contains(value) {
                refuse(ErrorKind::NotFound, "task not found in todo list\n")
            } else if args.len() < 3 {
                refuse(ErrorKind::ArgumentMissing, "no new task provided\n")
            } else {
                let _ = todo_list.update_description(value, args[2].to_owned());
                Outcome::Completed { text: String::new() }
            }
        },
        Err(e) => refuse(ErrorKind::ParseFailure(e), e.message()),
    }
}

/// Carries out `done`.
fn run_done(args: &Vec<&str>, todo_list: &mut TaskStore) -> (outcome: Outcome)
    requires
        old(todo_list).wf(),
    ensures
        final(todo_list).wf(),
        final(todo_list)@ == effect_of_done(words_of(args@), old(todo_list)@).store,
        outcome@ == effect_of_done(words_of(args@), old(todo_list)@).outcome,
{
    if args.len() < 2 {
        return refuse_missing_id();
    }
    match parse_id(args[1]) {
        Ok(value) => {
            match todo_list.mark_done(value) {
                Ok(()) => Outcome::Completed { text: String::new() },
                Err(kind) => refuse(kind, "task id not found in list\n"),
            }
        },
        Err(e) => {
            let mut text = String::from_str(e.message());
            text.append("\n");
            Outcome::Rejected { kind: ErrorKind::ParseFailure(e), text }
        },
    }
}

/// Reads the command from the first word and carries it out on the store.
pub fn parse_arguments(args: Vec<&str>, todo_list: &mut TaskStore) -> (outcome: Outcome)
    requires
        old(todo_list).wf(),
        runnable(words_of(args@), old(todo_list)@),
    ensures
        final(todo_list).wf(),
        final(todo_list)@ == effect(words_of(args@), old(todo_list)@).store,
        outcome@ == effect(words_of(args@), old(todo_list)@).outcome,
        outcome is Rejected ==> final(todo_list)@ == old(todo_list)@,
{
    match Command::from_word(args[0]) {
        Command::Add => run_add(&args, todo_list),
        Command::Show => Outcome::Completed { text: display_todo(todo_list.tasks()) },
        Command::Delete => run_delete(&args, todo_list),
        Command::Update => run_update(&args, todo_list),
        Command::Done => run_done(&args, todo_list),
        Command::Exit => Outcome::Exit,
        Command::Help => Outcome::Completed { text: display_help() },
    }
}

/// Runs one command line on the store.
pub fn run(args: Vec<&str>, todo: &mut TaskStore) -> (outcome: Outcome)
    requires
        old(todo).wf(),
        runnable(words_of(args@), old(todo)@),
    ensures
        final(todo).wf(),
        final(todo)@ == effect(words_of(args@), old(todo)@).store,
        outcome@ == effect(words_of(args@), old(todo)@).outcome,
        outcome is Rejected ==> final(todo)@ == old(todo)@,
{
    parse_arguments(args, todo)
}

/// Runs one command line on the store where it can be run, and says so
/// where it cannot: then nothing happens.
pub fn try_run(args: Vec<&str>, todo: &mut TaskStore) -> (outcome: Option<Outcome>)
    requires
        old(todo).wf(),
    ensures
        final(todo).wf(),
        outcome is Some <==> runnable(words_of(args@), old(todo)@),
        match outcome {
            Some(done) => {
                &&& final(todo)@ == effect(words_of(args@), old(todo)@).store
                &&& done@ == effect(words_of(args@), old(todo)@).outcome
            },
            None => final(todo)@ == old(todo)@,
        },
{
    if is_runnable(&args, todo) {
        Some(run(args, todo))
    } else {
        None
    }
}

} // verus!
