//! A task list: the tasks still to do and the tasks done, each in order.

use vstd::prelude::*;

verus! {

/// The texts of a sequence of tasks, in the same order.
pub open spec fn texts(tasks: Seq<String>) -> Seq<Seq<char>> {
    tasks.map_values(|task: String| task@)
}

/// What a task list holds: two sequences of task texts.
pub struct ListView {
    pub pending: Seq<Seq<char>>,
    pub completed: Seq<Seq<char>>,
}

impl ListView {
    /// The list without any task.
    pub open spec fn empty() -> ListView {
        ListView { pending: Seq::empty(), completed: Seq::empty() }
    }

    /// The list with `task` added behind the pending tasks.
    pub open spec fn add(self, task: Seq<char>) -> ListView {
        ListView { pending: self.pending.push(task), completed: self.completed }
    }

    /// The list without the pending task at `index`; the tasks behind it move up.
    pub open spec fn delete(self, index: int) -> ListView
        recommends
            0 <= index < self.pending.len(),
    {
        ListView { pending: self.pending.remove(index), completed: self.completed }
    }

    /// The list with the pending task at `index` moved behind the completed tasks.
    pub open spec fn cross_off(self, index: int) -> ListView
        recommends
            0 <= index < self.pending.len(),
    {
        ListView {
            pending: self.pending.remove(index),
            completed: self.completed.push(self.pending[index]),
        }
    }
}

/// Pending and completed tasks of one list.
pub struct TodoList {
    pub pending_tasks: Vec<String>,
    pub completed_tasks: Vec<String>,
}

impl View for TodoList {
    type V = ListView;

    open spec fn view(&self) -> ListView {
        ListView { pending: texts(self.pending_tasks@), completed: texts(self.completed_tasks@) }
    }
}

impl TodoList {
    /// A list without tasks.
    pub fn new() -> (list: TodoList)
        ensures
            list@ == ListView::empty(),
    {
        let list = TodoList { pending_tasks: Vec::new(), completed_tasks: Vec::new() };
        assert(list@.pending =~= Seq::empty());
        assert(list@.completed =~= Seq::empty());
        list
    }
}

/// Adding a task behind a sequence of tasks adds its text behind their texts.
pub proof fn lemma_texts_push(tasks: Seq<String>, task: String)
    ensures
        texts(tasks.push(task)) == texts(tasks).push(task@),
{
    assert(texts(tasks.push(task)) =~= texts(tasks).push(task@));
}

/// Removing a task from a sequence of tasks removes its text from their texts.
pub proof fn lemma_texts_remove(tasks: Seq<String>, index: int)
    requires
        0 <= index < tasks.len(),
    ensures
        texts(tasks.remove(index)) == texts(tasks).remove(index),
{
    assert(texts(tasks.remove(index)) =~= texts(tasks).remove(index));
}

} // verus!
