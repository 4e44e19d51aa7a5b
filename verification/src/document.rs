//! The persisted form of a store: one JSON document.
//!
//! ```text
//! { "lists": { "<name>": { "pending_tasks": [...], "completed_tasks": [...] }, ... } }
//! ```
//!
//! Members that the format does not name are ignored on reading. Reading and
//! printing the JSON text is left to `serde_json`; what a document means as a
//! store, and which document a store becomes, is decided here.

use crate::json::{
    array_value, as_array, as_object, as_str, ascending, documents, json_of,
    lemma_ascending_no_duplicates, member, member_names, members_of, no_members, object_value,
    parse_value, parsed, print_value, printed, put_member, text_value, Json, Members,
};
use crate::list::{texts, ListView, TodoList};
use crate::store::{StoreView, TodoManager};
use vstd::prelude::*;
use vstd::seq_lib::lemma_seq_contains_after_push;

verus! {

/// Why persisted bytes give no store.
#[derive(Clone, Copy, Debug, PartialEq, Eq, Structural)]
pub enum LoadError {
    /// The bytes are not one JSON document.
    Syntax,
    /// The document does not have the shape of a store.
    Shape,
}

/// Why a store was not written out.
#[derive(Clone, Copy, Debug, PartialEq, Eq, Structural)]
pub enum SaveError {
    /// The document of the store could not be printed.
    Print,
}

/// The text of a string; the empty text for any other document.
pub open spec fn text_of(document: Json) -> Seq<char> {
    match document {
        Json::Text(text) => text,
        _ => Seq::empty(),
    }
}

/// Whether each of `items` is a string.
pub open spec fn all_texts(items: Seq<Json>) -> bool {
    forall|i: int| 0 <= i < items.len() ==> #[trigger] items[i] is Text
}

/// The tasks that a document holds: it has to be an array of strings.
pub open spec fn tasks_of(document: Json) -> Option<Seq<Seq<char>>> {
    match document {
        Json::Array(items) => if all_texts(items) {
            Some(items.map_values(|item: Json| text_of(item)))
        } else {
            None
        },
        _ => None,
    }
}

/// The list that a document holds: it has to be an object whose members
/// `pending_tasks` and `completed_tasks` both hold tasks.
pub open spec fn list_of(document: Json) -> Option<ListView> {
    match document {
        Json::Object(members) => if members.contains_key("pending_tasks"@) && members.contains_key(
            "completed_tasks"@,
        ) {
            match (tasks_of(members["pending_tasks"@]), tasks_of(members["completed_tasks"@])) {
                (Some(pending), Some(completed)) => Some(ListView { pending, completed }),
                _ => None,
            }
        } else {
            None
        },
        _ => None,
    }
}

/// Whether each of `members` holds a list.
pub open spec fn all_lists(members: Members) -> bool {
    forall|name: Seq<char>|
        members.contains_key(name) ==> #[trigger] list_of(members[name]) is Some
}

/// The store that the members of an object hold: every member has to hold a
/// list, which the store then holds under the member's key.
pub open spec fn lists_of(members: Members) -> Option<StoreView> {
    if all_lists(members) {
        Some(
            Map::new(
                |name: Seq<char>| members.contains_key(name),
                |name: Seq<char>| list_of(members[name]).unwrap(),
            ),
        )
    } else {
        None
    }
}

/// The store that a document holds: it has to be an object whose member
/// `lists` is an object of lists.
pub open spec fn decoded(document: Json) -> Option<StoreView> {
    match document {
        Json::Object(members) => if members.contains_key("lists"@) {
            match members["lists"@] {
                Json::Object(lists) => lists_of(lists),
                _ => None,
            }
        } else {
            None
        },
        _ => None,
    }
}

/// The document of a sequence of tasks: the array of their texts.
pub open spec fn tasks_document(tasks: Seq<Seq<char>>) -> Json {
    Json::Array(tasks.map_values(|task: Seq<char>| Json::Text(task)))
}

/// The document of a list.
pub open spec fn list_document(list: ListView) -> Json {
    Json::Object(
        Members::empty().insert("pending_tasks"@, tasks_document(list.pending)).insert(
            "completed_tasks"@,
            tasks_document(list.completed),
        ),
    )
}

/// The document of a store.
pub open spec fn encoded(store: StoreView) -> Json {
    Json::Object(
        Members::empty().insert(
            "lists"@,
            Json::Object(store.map_values(|list: ListView| list_document(list))),
        ),
    )
}

/// The store that a session starts from: the store that the persisted bytes
/// hold, or the empty store where there are no bytes or they hold no store.
pub open spec fn loaded(contents: Option<Seq<u8>>) -> StoreView {
    match contents {
        Some(bytes) => match parsed(bytes) {
            Some(document) => match decoded(document) {
                Some(store) => store,
                None => StoreView::empty(),
            },
            None => StoreView::empty(),
        },
        None => StoreView::empty(),
    }
}

/// The tasks of a document come back from the document that is made of them.
pub proof fn lemma_tasks_round_trip(tasks: Seq<Seq<char>>)
    ensures
        tasks_of(tasks_document(tasks)) == Some(tasks),
{
    let items = tasks.map_values(|task: Seq<char>| Json::Text(task));
    assert(items.map_values(|item: Json| text_of(item)) =~= tasks);
}

/// A list comes back from the document that is made of it.
pub proof fn lemma_list_round_trip(list: ListView)
    ensures
        list_of(list_document(list)) == Some(list),
{
    reveal_strlit("pending_tasks");
    reveal_strlit("completed_tasks");
    assert("pending_tasks"@.len() != "completed_tasks"@.len());
    lemma_tasks_round_trip(list.pending);
    lemma_tasks_round_trip(list.completed);
}

/// A store comes back from the document that is made of it: the same names,
/// and under each name the same pending and completed tasks in the same order.
pub proof fn lemma_document_round_trip(store: StoreView)
    ensures
        decoded(encoded(store)) == Some(store),
{
    let lists = store.map_values(|list: ListView| list_document(list));
    assert forall|name: Seq<char>| lists.contains_key(name) implies #[trigger] list_of(
        lists[name],
    ) == Some(store[name]) by {
        lemma_list_round_trip(store[name]);
    }
    assert(lists_of(lists).unwrap() =~= store);
}

/// Bytes that are read as the document of a store load as that store.
pub proof fn lemma_load_of_document(store: StoreView, bytes: Seq<u8>)
    requires
        parsed(bytes) == Some(encoded(store)),
    ensures
        loaded(Some(bytes)) == store,
{
    lemma_document_round_trip(store);
}

/// The first `count` of `names` are the `count - 1` before the last of them, and that last one.
proof fn lemma_take_one_more(names: Seq<Seq<char>>, count: int)
    requires
        0 < count <= names.len(),
    ensures
        names.take(count) == names.take(count - 1).push(names[count - 1]),
        forall|name: Seq<char>| #[trigger]
            names.take(count).contains(name) <==> (names[count - 1] == name || names.take(
                count - 1,
            ).contains(name)),
{
    assert(names.take(count) =~= names.take(count - 1).push(names[count - 1]));
    assert forall|name: Seq<char>| #[trigger]
        names.take(count).contains(name) <==> (names[count - 1] == name || names.take(
            count - 1,
        ).contains(name)) by {
        lemma_seq_contains_after_push(names.take(count - 1), names[count - 1], name);
    }
}

/// Reads the tasks that `value` holds.
fn decode_tasks(value: &serde_json::Value) -> (read: Option<Vec<String>>)
    ensures
        match tasks_of(json_of(*value)) {
            Some(tasks) => read matches Some(found) && texts(found@) == tasks,
            None => read is None,
        },
{
    let items = match as_array(value) {
        Some(items) => items,
        None => {
            return None;
        },
    };
    let mut tasks: Vec<String> = Vec::new();
    let mut i: usize = 0;
    while i < items.len()
        invariant
            i <= items@.len(),
            tasks@.len() == i,
            json_of(*value) == Json::Array(documents(items@)),
            forall|j: int| 0 <= j < i ==> documents(items@)[j] == Json::Text(#[trigger] tasks@[j]@),
        decreases items@.len() - i,
    {
        match as_str(&items[i]) {
            Some(text) => {
                tasks.push(text.to_owned());
            },
            None => {
                assert(!(documents(items@)[i as int] is Text));
                return None;
            },
        }
        i += 1;
    }
    assert forall|j: int| 0 <= j < items@.len() implies #[trigger] documents(items@)[j] is Text by {
        assert(documents(items@)[j] == Json::Text(tasks@[j]@));
    }
    assert(texts(tasks@) =~= documents(items@).map_values(|item: Json| text_of(item)));
    Some(tasks)
}

/// Reads the list that `value` holds.
fn decode_list(value: &serde_json::Value) -> (read: Option<TodoList>)
    ensures
        match list_of(json_of(*value)) {
            Some(list) => read matches Some(found) && found@ == list,
            None => read is None,
        },
{
    let members = match as_object(value) {
        Some(members) => members,
        None => {
            return None;
        },
    };
    let pending = match member(members, "pending_tasks") {
        Some(tasks) => decode_tasks(tasks),
        None => {
            return None;
        },
    };
    let completed = match member(members, "completed_tasks") {
        Some(tasks) => decode_tasks(tasks),
        None => {
            return None;
        },
    };
    match (pending, completed) {
        (Some(pending_tasks), Some(completed_tasks)) => Some(
            TodoList { pending_tasks, completed_tasks },
        ),
        _ => None,
    }
}

/// Builds the document of a sequence of tasks.
fn encode_tasks(tasks: &Vec<String>) -> (value: serde_json::Value)
    ensures
        json_of(value) == tasks_document(texts(tasks@)),
{
    let mut items: Vec<serde_json::Value> = Vec::new();
    let mut i: usize = 0;
    while i < tasks.len()
        invariant
            i <= tasks@.len(),
            items@.len() == i,
            forall|j: int| 0 <= j < i ==> json_of(#[trigger] items@[j]) == Json::Text(tasks@[j]@),
        decreases tasks@.len() - i,
    {
        items.push(text_value(tasks[i].clone()));
        i += 1;
    }
    assert(documents(items@) =~= texts(tasks@).map_values(|task: Seq<char>| Json::Text(task)));
    array_value(items)
}

/// Builds the document of a list.
fn encode_list(list: &TodoList) -> (value: serde_json::Value)
    ensures
        json_of(value) == list_document(list@),
{
    let mut members = no_members();
    put_member(&mut members, "pending_tasks".to_owned(), encode_tasks(&list.pending_tasks));
    put_member(&mut members, "completed_tasks".to_owned(), encode_tasks(&list.completed_tasks));
    object_value(members)
}

impl TodoManager {
    /// Reads the store that `document` holds, if it has the shape of a store.
    /// The names of its lists come in ascending order.
    pub fn from_document(document: &serde_json::Value) -> (read: Option<TodoManager>)
        ensures
            match decoded(json_of(*document)) {
                Some(store) => read matches Some(found) && found@ == store,
                None => read is None,
            },
            read matches Some(found) ==> ascending(found.names()),
    {
        let top = match as_object(document) {
            Some(top) => top,
            None => {
                return None;
            },
        };
        let lists = match member(top, "lists") {
            Some(value) => match as_object(value) {
                Some(lists) => lists,
                None => {
                    return None;
                },
            },
            None => {
                return None;
            },
        };
        let names = member_names(lists);
        proof {
            lemma_ascending_no_duplicates(texts(names@));
        }
        let mut store = TodoManager::new();
        assert(store.names() =~= texts(names@).take(0));
        let mut i: usize = 0;
        while i < names.len()
            invariant
                i <= names@.len(),
                texts(names@).no_duplicates(),
                store.names() == texts(names@).take(i as int),
                decoded(json_of(*document)) == lists_of(members_of(*lists)),
                forall|name: Seq<char>|
                    texts(names@).contains(name) <==> members_of(*lists).contains_key(name),
                forall|name: Seq<char>|
                    store@.contains_key(name) <==> texts(names@).take(i as int).contains(name),
                forall|name: Seq<char>|
                    store@.contains_key(name) ==> list_of(members_of(*lists)[name]) == Some(
                        store@[name],
                    ),
            decreases names@.len() - i,
        {
            let name = &names[i];
            assert(texts(names@).contains(name@)) by {
                assert(texts(names@)[i as int] == name@);
            }
            assert(!texts(names@).take(i as int).contains(name@)) by {
                if texts(names@).take(i as int).contains(name@) {
                    let k = texts(names@).take(i as int).index_of(name@);
                    assert(0 <= k < i && texts(names@).take(i as int)[k] == name@);
                    assert(texts(names@)[k] == texts(names@)[i as int]);
                }
            }
            let list = match member(lists, name.as_str()) {
                Some(value) => decode_list(value),
                None => None,
            };
            match list {
                Some(list) => {
                    store.insert_list(name.clone(), list);
                },
                None => {
                    return None;
                },
            }
            i += 1;
            proof {
                lemma_take_one_more(texts(names@), i as int);
            }
        }
        proof {
            assert(texts(names@).take(i as int) =~= texts(names@));
            assert(all_lists(members_of(*lists))) by {
                assert forall|name: Seq<char>|
                    members_of(*lists).contains_key(name) implies #[trigger] list_of(
                    members_of(*lists)[name],
                ) is Some by {
                    assert(store@.contains_key(name));
                }
            }
            assert(lists_of(members_of(*lists)).unwrap() =~= store@);
        }
        Some(store)
    }

    /// Builds the document of the store.
    pub fn to_document(&self) -> (document: serde_json::Value)
        ensures
            json_of(document) == encoded(self@),
    {
        let mut lists = no_members();
        let count = self.len();
        let mut i: usize = 0;
        while i < count
            invariant
                i <= count,
                count == self.names().len(),
                forall|name: Seq<char>|
                    members_of(lists).contains_key(name) <==> self.names().take(
                        i as int,
                    ).contains(name),
                forall|name: Seq<char>|
                    members_of(lists).contains_key(name) ==> self@.contains_key(name)
                        && members_of(lists)[name] == list_document(self@[name]),
            decreases count - i,
        {
            match self.entry(i) {
                Some((name, list)) => {
                    put_member(&mut lists, name.clone(), encode_list(list));
                },
                None => {},
            }
            i += 1;
            proof {
                lemma_take_one_more(self.names(), i as int);
            }
        }
        proof {
            self.lemma_names_shown();
            assert(self.names().take(i as int) =~= self.names());
            assert(members_of(lists) =~= self@.map_values(
                |list: ListView| list_document(list),
            ));
        }
        let mut top = no_members();
        put_member(&mut top, "lists".to_owned(), object_value(lists));
        object_value(top)
    }

    /// Reads a store from persisted bytes. The names of its lists come in
    /// ascending order.
    pub fn from_json(bytes: &[u8]) -> (read: Result<TodoManager, LoadError>)
        ensures
            match parsed(bytes@) {
                Some(document) => match decoded(document) {
                    Some(store) => read matches Ok(found) && found@ == store,
                    None => read matches Err(LoadError::Shape),
                },
                None => read matches Err(LoadError::Syntax),
            },
            read matches Ok(found) ==> ascending(found.names()),
    {
        match parse_value(bytes) {
            Ok(document) => match TodoManager::from_document(&document) {
                Some(store) => Ok(store),
                None => Err(LoadError::Shape),
            },
            Err(_) => Err(LoadError::Syntax),
        }
    }

    /// The store that a session starts from: `contents` are the persisted
    /// bytes, `None` where nothing was persisted. Bytes that hold no store give
    /// the empty store, as no bytes do.
    pub fn load(contents: Option<&[u8]>) -> (store: TodoManager)
        ensures
            store@ == loaded(
                match contents {
                    Some(bytes) => Some(bytes@),
                    None => None,
                },
            ),
            contents is None ==> store@ == StoreView::empty(),
            contents matches Some(bytes) && parsed(bytes@) is None ==> store@ == StoreView::empty(),
            contents matches Some(bytes) && parsed(bytes@) matches Some(document) && decoded(
                document,
            ) is None ==> store@ == StoreView::empty(),
            ascending(store.names()),
    {
        match contents {
            Some(bytes) => match TodoManager::from_json(bytes) {
                Ok(store) => store,
                Err(_) => TodoManager::new(),
            },
            None => TodoManager::new(),
        }
    }

    /// The bytes to persist: the printed document of the store.
    pub fn save(&self) -> (written: Result<Vec<u8>, SaveError>)
        ensures
            match printed(encoded(self@)) {
                Some(text) => written matches Ok(bytes) && bytes@ == text,
                None => written matches Err(SaveError::Print),
            },
    {
        let document = self.to_document();
        match print_value(&document) {
            Ok(bytes) => Ok(bytes),
            Err(_) => Err(SaveError::Print),
        }
    }
}

} // verus!
