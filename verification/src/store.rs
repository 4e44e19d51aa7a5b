//! The task store: named task lists, each name held once, and the operations
//! that add lists and add, delete and cross off tasks.

use crate::list::{lemma_texts_push, lemma_texts_remove, texts, ListView, TodoList};
use vstd::prelude::*;
use vstd::seq_lib::lemma_seq_contains_after_push;

verus! {

/// What a store holds: the list under each name.
pub type StoreView = Map<Seq<char>, ListView>;

/// Why an operation on a task left the store as it was.
#[derive(Clone, Copy, Debug, PartialEq, Eq, Structural)]
pub enum StoreError {
    /// The store holds no list of that name.
    ListNotFound,
    /// The list has no pending task at that index.
    IndexOutOfBounds,
}

/// Why a numbered choice selected nothing.
#[derive(Clone, Copy, Debug, PartialEq, Eq, Structural)]
pub enum SelectError {
    /// The store holds no list to choose from.
    NoLists,
    /// The store holds no list of that name.
    ListNotFound,
    /// The list has no pending task to choose from.
    NoPendingTasks,
    /// The number is zero or greater than the number of entries shown.
    InvalidNumber,
}

/// The views of a sequence of lists, in the same order.
pub open spec fn list_views(lists: Seq<TodoList>) -> Seq<ListView> {
    lists.map_values(|list: TodoList| list@)
}

/// The store that holds, under each of `names`, the list at the same position in `lists`.
pub open spec fn store_of(names: Seq<Seq<char>>, lists: Seq<ListView>) -> StoreView
    recommends
        names.len() == lists.len(),
        names.no_duplicates(),
{
    Map::new(|name: Seq<char>| names.contains(name), |name: Seq<char>| lists[names.index_of(name)])
}

/// Whether an operation on the list `list` applies.
pub open spec fn list_outcome(store: StoreView, list: Seq<char>) -> Result<(), StoreError> {
    if store.contains_key(list) {
        Ok(())
    } else {
        Err(StoreError::ListNotFound)
    }
}

/// Whether a task operation on the pending task at `index` of the list `list` applies.
pub open spec fn task_outcome(store: StoreView, list: Seq<char>, index: int) -> Result<
    (),
    StoreError,
> {
    if !store.contains_key(list) {
        Err(StoreError::ListNotFound)
    } else if !(0 <= index < store[list].pending.len()) {
        Err(StoreError::IndexOutOfBounds)
    } else {
        Ok(())
    }
}

/// The store after a list `name` was added: `name` now names an empty list.
pub open spec fn added_list(store: StoreView, name: Seq<char>) -> StoreView {
    store.insert(name, ListView::empty())
}

/// The store after `task` was added to the list `list`; the same store if it holds no such list.
pub open spec fn added_task(store: StoreView, list: Seq<char>, task: Seq<char>) -> StoreView {
    if store.contains_key(list) {
        store.insert(list, store[list].add(task))
    } else {
        store
    }
}

/// The store after the pending task at `index` of the list `list` was deleted;
/// the same store if there is no such list or no such task.
pub open spec fn deleted_task(store: StoreView, list: Seq<char>, index: int) -> StoreView {
    if task_outcome(store, list, index) is Ok {
        store.insert(list, store[list].delete(index))
    } else {
        store
    }
}

/// The store after the pending task at `index` of the list `list` was crossed off;
/// the same store if there is no such list or no such task.
pub open spec fn crossed_off_task(store: StoreView, list: Seq<char>, index: int) -> StoreView {
    if task_outcome(store, list, index) is Ok {
        store.insert(list, store[list].cross_off(index))
    } else {
        store
    }
}

/// The names after a list `name` was added: a new name comes last, a known one stays in place.
pub open spec fn added_name(names: Seq<Seq<char>>, name: Seq<char>) -> Seq<Seq<char>> {
    if names.contains(name) {
        names
    } else {
        names.push(name)
    }
}

/// The entry that the number `choice` selects among `count` entries numbered from one:
/// its index, or why there is none (`nothing` where there are no entries at all).
pub open spec fn picked(count: nat, choice: usize, nothing: SelectError) -> Result<
    usize,
    SelectError,
> {
    if count == 0 {
        Err(nothing)
    } else if choice == 0 || choice > count {
        Err(SelectError::InvalidNumber)
    } else {
        Ok((choice - 1) as usize)
    }
}

/// Adding a task never adds or removes a list, and where the store holds no
/// list of that name it changes nothing at all.
pub proof fn lemma_add_task_keeps_lists(store: StoreView, list: Seq<char>, task: Seq<char>)
    ensures
        added_task(store, list, task).dom() == store.dom(),
        !store.contains_key(list) ==> added_task(store, list, task) == store,
{
    assert(added_task(store, list, task).dom() =~= store.dom());
}

/// Deleting at an index at or behind the number of pending tasks changes nothing:
/// the pending and the completed tasks of the list stay as they were.
pub proof fn lemma_delete_out_of_bounds(store: StoreView, list: Seq<char>, index: int)
    requires
        store.contains_key(list),
        index >= store[list].pending.len(),
    ensures
        task_outcome(store, list, index) matches Err(StoreError::IndexOutOfBounds),
        deleted_task(store, list, index) == store,
        deleted_task(store, list, index)[list].pending == store[list].pending,
        deleted_task(store, list, index)[list].completed == store[list].completed,
{
}

/// Crossing off a pending task removes it from the pending tasks, keeps the
/// order of the others, and puts it last among the completed tasks.
pub proof fn lemma_cross_off_moves(store: StoreView, list: Seq<char>, index: int)
    requires
        store.contains_key(list),
        0 <= index < store[list].pending.len(),
    ensures
        crossed_off_task(store, list, index)[list].pending == store[list].pending.remove(index),
        crossed_off_task(store, list, index)[list].completed == store[list].completed.push(
            store[list].pending[index],
        ),
        crossed_off_task(store, list, index)[list].pending.len() == store[list].pending.len() - 1,
{
    store[list].pending.remove_ensures(index);
}

/// Adding a list under a name resets that list to empty, whatever the store
/// held under the name: a task added after a first `add_list` is gone after
/// a second one.
pub proof fn lemma_add_list_resets(store: StoreView, name: Seq<char>, task: Seq<char>)
    ensures
        added_list(store, name)[name] == ListView::empty(),
        added_task(added_list(store, name), name, task)[name].pending == seq![task],
        added_list(added_task(added_list(store, name), name, task), name) == added_list(
            store,
            name,
        ),
{
    assert(added_task(added_list(store, name), name, task)[name].pending =~= seq![task]);
    assert(added_list(added_task(added_list(store, name), name, task), name) =~= added_list(
        store,
        name,
    ));
}

/// An operation that failed fails again in the same way and again changes nothing.
pub proof fn lemma_failure_repeats(store: StoreView, list: Seq<char>, index: int)
    requires
        task_outcome(store, list, index) is Err,
    ensures
        task_outcome(deleted_task(store, list, index), list, index) == task_outcome(
            store,
            list,
            index,
        ),
        task_outcome(crossed_off_task(store, list, index), list, index) == task_outcome(
            store,
            list,
            index,
        ),
        deleted_task(deleted_task(store, list, index), list, index) == store,
        crossed_off_task(crossed_off_task(store, list, index), list, index) == store,
{
}

/// In a sequence without duplicates, an element is found at its own position.
proof fn lemma_index_of(names: Seq<Seq<char>>, i: int)
    requires
        names.no_duplicates(),
        0 <= i < names.len(),
    ensures
        names.contains(names[i]),
        names.index_of(names[i]) == i,
{
    let j = names.index_of(names[i]);
    assert(0 <= j < names.len() && names[j] == names[i]);
}

/// Replacing the list at position `i` replaces what the store holds under the name at `i`.
proof fn lemma_store_update(names: Seq<Seq<char>>, lists: Seq<ListView>, i: int, list: ListView)
    requires
        names.no_duplicates(),
        names.len() == lists.len(),
        0 <= i < names.len(),
    ensures
        store_of(names, lists.update(i, list)) == store_of(names, lists).insert(names[i], list),
        store_of(names, lists).contains_key(names[i]),
        store_of(names, lists)[names[i]] == lists[i],
{
    lemma_index_of(names, i);
    assert forall|name: Seq<char>| names.contains(name) implies #[trigger] store_of(
        names,
        lists.update(i, list),
    )[name] == store_of(names, lists).insert(names[i], list)[name] by {
        let j = names.index_of(name);
        assert(0 <= j < names.len() && names[j] == name);
    }
    assert(store_of(names, lists.update(i, list)) =~= store_of(names, lists).insert(
        names[i],
        list,
    ));
}

/// Adding a new name and its list at the end adds the list to the store under that name.
proof fn lemma_store_push(
    names: Seq<Seq<char>>,
    lists: Seq<ListView>,
    name: Seq<char>,
    list: ListView,
)
    requires
        names.no_duplicates(),
        names.len() == lists.len(),
        !names.contains(name),
    ensures
        names.push(name).no_duplicates(),
        store_of(names.push(name), lists.push(list)) == store_of(names, lists).insert(name, list),
{
    let longer = names.push(name);
    assert forall|i: int, j: int|
        0 <= i < longer.len() && 0 <= j < longer.len() && i != j implies longer[i] != longer[j] by {
        if i < names.len() {
            assert(names.contains(names[i]));
        }
        if j < names.len() {
            assert(names.contains(names[j]));
        }
    }
    assert forall|other: Seq<char>| longer.contains(other) <==> (name == other || names.contains(
        other,
    )) by {
        lemma_seq_contains_after_push(names, name, other);
    }
    assert forall|other: Seq<char>| longer.contains(other) implies #[trigger] store_of(
        longer,
        lists.push(list),
    )[other] == store_of(names, lists).insert(name, list)[other] by {
        let k = longer.index_of(other);
        assert(0 <= k < longer.len() && longer[k] == other);
        if k < names.len() {
            assert(names[k] == other);
            lemma_index_of(names, k);
        }
    }
    assert(store_of(longer, lists.push(list)) =~= store_of(names, lists).insert(name, list));
}

/// Named task lists. No name is held twice; the names keep the order in which they came.
pub struct TodoManager {
    names: Vec<String>,
    lists: Vec<TodoList>,
}

impl View for TodoManager {
    type V = StoreView;

    closed spec fn view(&self) -> StoreView {
        store_of(texts(self.names@), list_views(self.lists@))
    }
}

impl TodoManager {
    #[verifier::type_invariant]
    spec fn inv(&self) -> bool {
        &&& self.names@.len() == self.lists@.len()
        &&& texts(self.names@).no_duplicates()
    }

    /// The names of the lists, in the order in which they are shown.
    pub closed spec fn names(&self) -> Seq<Seq<char>> {
        texts(self.names@)
    }

    /// The store holds a list under exactly the names that it shows.
    pub proof fn lemma_names_shown(&self)
        ensures
            forall|name: Seq<char>| self@.contains_key(name) <==> self.names().contains(name),
    {
    }

    /// The store holds the list at position `i` under the name at `i`.
    proof fn lemma_held(&self, i: int)
        requires
            self.inv(),
            0 <= i < self.names().len(),
        ensures
            self@.contains_key(self.names()[i]),
            self@[self.names()[i]] == self.lists@[i]@,
    {
        lemma_store_update(self.names(), list_views(self.lists@), i, self.lists@[i]@);
    }

    /// A store whose list at position `i` alone differs from `before` holds that
    /// list under the name at `i` and is otherwise the store of `before`.
    proof fn lemma_replaced(&self, before: Seq<TodoList>, i: int)
        requires
            self.names().no_duplicates(),
            self.names().len() == before.len(),
            0 <= i < before.len(),
            self.lists@ == before.update(i, self.lists@[i]),
        ensures
            self@ == store_of(self.names(), list_views(before)).insert(
                self.names()[i],
                self.lists@[i]@,
            ),
            store_of(self.names(), list_views(before)).contains_key(self.names()[i]),
            store_of(self.names(), list_views(before))[self.names()[i]] == before[i]@,
    {
        lemma_store_update(self.names(), list_views(before), i, self.lists@[i]@);
        assert(list_views(before.update(i, self.lists@[i])) =~= list_views(before).update(
            i,
            self.lists@[i]@,
        ));
    }

    /// A store without lists.
    pub fn new() -> (store: TodoManager)
        ensures
            store@ == StoreView::empty(),
            store.names() == Seq::<Seq<char>>::empty(),
    {
        let store = TodoManager { names: Vec::new(), lists: Vec::new() };
        assert(store.names() =~= Seq::<Seq<char>>::empty());
        assert(store@ =~= StoreView::empty());
        store
    }

    /// The position of the list `name`, if the store holds it.
    fn position(&self, name: &str) -> (found: Option<usize>)
        ensures
            match found {
                Some(i) => i < self.names().len() && self.names()[i as int] == name@
                    && self.names().index_of(name@) == i,
                None => !self.names().contains(name@),
            },
            self.names().len() == self.lists@.len(),
            self.names().no_duplicates(),
    {
        proof {
            use_type_invariant(self);
        }
        let wanted = name.to_owned();
        let mut i: usize = 0;
        while i < self.names.len()
            invariant
                i <= self.names@.len(),
                wanted@ == name@,
                self.names().len() == self.lists@.len(),
                self.names().no_duplicates(),
                forall|j: int| 0 <= j < i ==> self.names()[j] != name@,
            decreases self.names@.len() - i,
        {
            if self.names[i] == wanted {
                proof {
                    lemma_index_of(self.names(), i as int);
                }
                return Some(i);
            }
            i += 1;
        }
        assert(!self.names().contains(name@)) by {
            if self.names().contains(name@) {
                let j = self.names().index_of(name@);
                assert(0 <= j < self.names().len() && self.names()[j] == name@);
            }
        }
        None
    }

    /// Puts `list` under `name`, in place of the list that the store held under that name, if any.
    pub fn insert_list(&mut self, name: String, list: TodoList)
        ensures
            final(self)@ == old(self)@.insert(name@, list@),
            final(self).names() == added_name(old(self).names(), name@),
    {
        match self.position(name.as_str()) {
            Some(i) => {
                proof {
                    use_type_invariant(&*self);
                    lemma_store_update(self.names(), list_views(self.lists@), i as int, list@);
                    assert(list_views(self.lists@.update(i as int, list)) =~= list_views(
                        self.lists@,
                    ).update(i as int, list@));
                }
                self.lists[i] = list;
            },
            None => {
                proof {
                    use_type_invariant(&*self);
                    lemma_store_push(self.names(), list_views(self.lists@), name@, list@);
                    lemma_texts_push(self.names@, name);
                    assert(list_views(self.lists@.push(list)) =~= list_views(self.lists@).push(
                        list@,
                    ));
                }
                let mut store = TodoManager::new();
                core::mem::swap(self, &mut store);
                let TodoManager { mut names, mut lists } = store;
                names.push(name);
                lists.push(list);
                *self = TodoManager { names, lists };
            },
        }
    }

    /// Adds an empty list under `title`. A list that the store held under that
    /// name is replaced, with all its tasks.
    pub fn add_list(&mut self, title: String)
        ensures
            final(self)@ == added_list(old(self)@, title@),
            final(self).names() == added_name(old(self).names(), title@),
    {
        self.insert_list(title, TodoList::new());
    }

    /// Adds `task` behind the pending tasks of the list `list`. Where the store
    /// holds no such list, nothing changes and no list is made.
    pub fn add_task(&mut self, list: &str, task: String) -> (done: Result<(), StoreError>)
        ensures
            done == list_outcome(old(self)@, list@),
            final(self)@ == added_task(old(self)@, list@, task@),
            !old(self)@.contains_key(list@) ==> final(self)@ == old(self)@,
            final(self).names() == old(self).names(),
    {
        match self.position(list) {
            Some(i) => {
                let ghost before = self.lists@;
                self.lists[i].pending_tasks.push(task);
                proof {
                    self.lemma_replaced(before, i as int);
                    lemma_texts_push(before[i as int].pending_tasks@, task);
                }
                Ok(())
            },
            None => Err(StoreError::ListNotFound),
        }
    }

    /// Deletes the pending task at `task_index` of the list `list`; the tasks behind
    /// it move up. Where there is no such list or no such task, nothing changes.
    pub fn delete_task(&mut self, list: &str, task_index: usize) -> (done: Result<(), StoreError>)
        ensures
            done == task_outcome(old(self)@, list@, task_index as int),
            final(self)@ == deleted_task(old(self)@, list@, task_index as int),
            done is Err ==> final(self)@ == old(self)@,
            final(self).names() == old(self).names(),
    {
        match self.position(list) {
            Some(i) => {
                let ghost before = self.lists@;
                proof {
                    self.lemma_held(i as int);
                }
                if task_index < self.lists[i].pending_tasks.len() {
                    self.lists[i].pending_tasks.remove(task_index);
                    proof {
                        self.lemma_replaced(before, i as int);
                        lemma_texts_remove(before[i as int].pending_tasks@, task_index as int);
                    }
                    Ok(())
                } else {
                    Err(StoreError::IndexOutOfBounds)
                }
            },
            None => Err(StoreError::ListNotFound),
        }
    }

    /// Crosses off the pending task at `task_index` of the list `list`: the task
    /// leaves the pending tasks and comes last among the completed ones. Where
    /// there is no such list or no such task, nothing changes.
    pub fn cross_off_task(&mut self, list: &str, task_index: usize) -> (done: Result<
        (),
        StoreError,
    >)
        ensures
            done == task_outcome(old(self)@, list@, task_index as int),
            final(self)@ == crossed_off_task(old(self)@, list@, task_index as int),
            done is Err ==> final(self)@ == old(self)@,
            final(self).names() == old(self).names(),
    {
        match self.position(list) {
            Some(i) => {
                let ghost before = self.lists@;
                proof {
                    self.lemma_held(i as int);
                }
                if task_index < self.lists[i].pending_tasks.len() {
                    let entry = &mut self.lists[i];
                    let task = entry.pending_tasks.remove(task_index);
                    entry.completed_tasks.push(task);
                    proof {
                        self.lemma_replaced(before, i as int);
                        lemma_texts_remove(before[i as int].pending_tasks@, task_index as int);
                        lemma_texts_push(before[i as int].completed_tasks@, task);
                    }
                    Ok(())
                } else {
                    Err(StoreError::IndexOutOfBounds)
                }
            },
            None => Err(StoreError::ListNotFound),
        }
    }

    /// The pending and the completed tasks of the list `list`, each in order.
    pub fn view_list(&self, list: &str) -> (found: Result<
        (&Vec<String>, &Vec<String>),
        StoreError,
    >)
        ensures
            match found {
                Ok((pending, completed)) => self@.contains_key(list@) && texts(pending@)
                    == self@[list@].pending && texts(completed@) == self@[list@].completed,
                Err(error) => !self@.contains_key(list@) && error == StoreError::ListNotFound,
            },
    {
        match self.position(list) {
            Some(i) => {
                proof {
                    self.lemma_held(i as int);
                }
                Ok((&self.lists[i].pending_tasks, &self.lists[i].completed_tasks))
            },
            None => Err(StoreError::ListNotFound),
        }
    }

    /// The number of lists.
    pub fn len(&self) -> (count: usize)
        ensures
            count == self.names().len(),
    {
        self.names.len()
    }

    /// The name and the list at position `index` in the order in which the
    /// names are shown; `None` behind the last.
    pub fn entry(&self, index: usize) -> (found: Option<(&String, &TodoList)>)
        ensures
            match found {
                Some((name, list)) => index < self.names().len()
                    && name@ == self.names()[index as int] && self@.contains_key(name@)
                    && self@[name@] == list@,
                None => index >= self.names().len(),
            },
    {
        proof {
            use_type_invariant(self);
        }
        if index < self.names.len() {
            proof {
                self.lemma_held(index as int);
            }
            Some((&self.names[index], &self.lists[index]))
        } else {
            None
        }
    }

    /// The names of the lists, in the order in which they are shown. No name comes twice.
    pub fn list_names(&self) -> (names: Vec<String>)
        ensures
            texts(names@) == self.names(),
            self.names().no_duplicates(),
            forall|name: Seq<char>| self@.contains_key(name) <==> self.names().contains(name),
    {
        proof {
            use_type_invariant(self);
        }
        let mut names: Vec<String> = Vec::new();
        let mut i: usize = 0;
        while i < self.names.len()
            invariant
                i <= self.names@.len(),
                names@.len() == i,
                forall|j: int| 0 <= j < i ==> names@[j]@ == self.names@[j]@,
            decreases self.names@.len() - i,
        {
            names.push(self.names[i].clone());
            i += 1;
        }
        assert(texts(names@) =~= self.names());
        names
    }

    /// The names to choose a list from, in the order in which they are numbered
    /// from one; no names where the store holds no list.
    pub fn list_menu(&self) -> (menu: Result<Vec<String>, SelectError>)
        ensures
            match menu {
                Ok(names) => names@.len() > 0 && texts(names@) == self.names(),
                Err(error) => self.names().len() == 0 && error == SelectError::NoLists,
            },
    {
        if self.names.len() == 0 {
            Err(SelectError::NoLists)
        } else {
            let names = self.list_names();
            assert(texts(names@).len() == names@.len());
            Ok(names)
        }
    }

    /// The pending tasks to choose from in the list `list`, in the order in which
    /// they are numbered from one; no tasks where the store holds no such list or
    /// the list has no pending task.
    pub fn task_menu(&self, list: &str) -> (menu: Result<&Vec<String>, SelectError>)
        ensures
            match menu {
                Ok(tasks) => self@.contains_key(list@) && tasks@.len() > 0 && texts(tasks@)
                    == self@[list@].pending,
                Err(error) => error == (if self@.contains_key(list@) {
                    SelectError::NoPendingTasks
                } else {
                    SelectError::ListNotFound
                }) && (self@.contains_key(list@) ==> self@[list@].pending.len() == 0),
            },
    {
        match self.position(list) {
            Some(i) => {
                proof {
                    self.lemma_held(i as int);
                }
                let pending = &self.lists[i].pending_tasks;
                assert(texts(pending@).len() == pending@.len());
                if pending.len() == 0 {
                    Err(SelectError::NoPendingTasks)
                } else {
                    Ok(pending)
                }
            },
            None => Err(SelectError::ListNotFound),
        }
    }

    /// The list that the number `choice` selects among the names as `list_menu`
    /// shows them, numbered from one.
    pub fn select_list(&self, choice: usize) -> (selected: Result<String, SelectError>)
        ensures
            match picked(self.names().len(), choice, SelectError::NoLists) {
                Ok(i) => selected matches Ok(name) && name@ == self.names()[i as int],
                Err(error) => selected matches Err(reason) && reason == error,
            },
    {
        if self.names.len() == 0 {
            Err(SelectError::NoLists)
        } else if choice == 0 || choice > self.names.len() {
            Err(SelectError::InvalidNumber)
        } else {
            Ok(self.names[choice - 1].clone())
        }
    }

    /// The index of the pending task that the number `choice` selects in the list
    /// `list`, whose pending tasks are numbered from one.
    pub fn select_task(&self, list: &str, choice: usize) -> (selected: Result<usize, SelectError>)
        ensures
            selected == (if self@.contains_key(list@) {
                picked(self@[list@].pending.len(), choice, SelectError::NoPendingTasks)
            } else {
                Err(SelectError::ListNotFound)
            }),
            selected matches Ok(index) ==> task_outcome(self@, list@, index as int) is Ok,
    {
        match self.position(list) {
            Some(i) => {
                proof {
                    self.lemma_held(i as int);
                }
                let pending = &self.lists[i].pending_tasks;
                if pending.len() == 0 {
                    Err(SelectError::NoPendingTasks)
                } else if choice == 0 || choice > pending.len() {
                    Err(SelectError::InvalidNumber)
                } else {
                    Ok(choice - 1)
                }
            },
            None => Err(SelectError::ListNotFound),
        }
    }
}

} // verus!
