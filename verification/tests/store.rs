use todo_manager::{SelectError, StoreError, TodoList, TodoManager};

fn texts(tasks: &[&str]) -> Vec<String> {
    tasks.iter().map(|task| task.to_string()).collect()
}

fn store_with(list: &str, tasks: &[&str]) -> TodoManager {
    let mut store = TodoManager::new();
    store.add_list(list.to_string());
    for task in tasks {
        assert_eq!(store.add_task(list, task.to_string()), Ok(()));
    }
    store
}

fn pending(store: &TodoManager, list: &str) -> Vec<String> {
    store.view_list(list).unwrap().0.clone()
}

fn completed(store: &TodoManager, list: &str) -> Vec<String> {
    store.view_list(list).unwrap().1.clone()
}

#[test]
fn new_store_has_no_lists() {
    let store = TodoManager::new();
    assert_eq!(store.len(), 0);
    assert!(store.list_names().is_empty());
    assert!(store.entry(0).is_none());
    assert_eq!(store.view_list("Groceries").err(), Some(StoreError::ListNotFound));
}

#[test]
fn new_list_has_no_tasks() {
    let list = TodoList::new();
    assert!(list.pending_tasks.is_empty());
    assert!(list.completed_tasks.is_empty());
}

#[test]
fn add_list_makes_an_empty_list() {
    let mut store = TodoManager::new();
    store.add_list("Groceries".to_string());
    assert_eq!(store.len(), 1);
    assert_eq!(store.list_names(), texts(&["Groceries"]));
    let (pending, completed) = store.view_list("Groceries").unwrap();
    assert!(pending.is_empty());
    assert!(completed.is_empty());
}

#[test]
fn lists_are_shown_in_the_order_they_came() {
    let mut store = TodoManager::new();
    store.add_list("b".to_string());
    store.add_list("a".to_string());
    store.add_list("c".to_string());
    assert_eq!(store.list_names(), texts(&["b", "a", "c"]));
    store.add_list("a".to_string());
    assert_eq!(store.list_names(), texts(&["b", "a", "c"]));
    assert_eq!(store.len(), 3);
}

#[test]
fn list_names_differ_by_case_and_space() {
    let mut store = TodoManager::new();
    store.add_list("home".to_string());
    store.add_list("Home".to_string());
    store.add_list("home ".to_string());
    store.add_list("".to_string());
    assert_eq!(store.list_names(), texts(&["home", "Home", "home ", ""]));
    assert_eq!(store.add_task("", "x".to_string()), Ok(()));
    assert_eq!(pending(&store, ""), texts(&["x"]));
    assert!(pending(&store, "home").is_empty());
}

#[test]
fn add_task_appends_in_order() {
    let mut store = store_with("Groceries", &["milk", "eggs"]);
    assert_eq!(store.add_task("Groceries", "milk".to_string()), Ok(()));
    assert_eq!(pending(&store, "Groceries"), texts(&["milk", "eggs", "milk"]));
    assert!(completed(&store, "Groceries").is_empty());
}

#[test]
fn add_task_touches_one_list_only() {
    let mut store = store_with("a", &["1"]);
    store.add_list("b".to_string());
    assert_eq!(store.add_task("b", "2".to_string()), Ok(()));
    assert_eq!(pending(&store, "a"), texts(&["1"]));
    assert_eq!(pending(&store, "b"), texts(&["2"]));
}

#[test]
fn add_task_to_a_missing_list_makes_no_list() {
    let mut store = store_with("Groceries", &["milk"]);
    assert_eq!(store.add_task("Chores", "sweep".to_string()), Err(StoreError::ListNotFound));
    assert_eq!(store.list_names(), texts(&["Groceries"]));
    assert_eq!(store.len(), 1);
    assert_eq!(pending(&store, "Groceries"), texts(&["milk"]));
    assert_eq!(store.view_list("Chores").err(), Some(StoreError::ListNotFound));
}

#[test]
fn add_task_to_an_empty_store_changes_nothing() {
    let mut store = TodoManager::new();
    assert_eq!(store.add_task("Chores", "sweep".to_string()), Err(StoreError::ListNotFound));
    assert_eq!(store.len(), 0);
}

#[test]
fn delete_task_removes_and_shifts() {
    let mut store = store_with("l", &["a", "b", "c"]);
    assert_eq!(store.delete_task("l", 0), Ok(()));
    assert_eq!(pending(&store, "l"), texts(&["b", "c"]));
    assert_eq!(store.delete_task("l", 1), Ok(()));
    assert_eq!(pending(&store, "l"), texts(&["b"]));
    assert!(completed(&store, "l").is_empty());
}

#[test]
fn delete_task_out_of_bounds_changes_nothing() {
    let mut store = store_with("l", &["a", "b", "c"]);
    assert_eq!(store.cross_off_task("l", 1), Ok(()));
    assert_eq!(store.delete_task("l", 2), Err(StoreError::IndexOutOfBounds));
    assert_eq!(store.delete_task("l", 3), Err(StoreError::IndexOutOfBounds));
    assert_eq!(store.delete_task("l", usize::MAX), Err(StoreError::IndexOutOfBounds));
    assert_eq!(pending(&store, "l"), texts(&["a", "c"]));
    assert_eq!(completed(&store, "l"), texts(&["b"]));
}

#[test]
fn delete_task_on_an_empty_list_is_out_of_bounds() {
    let mut store = store_with("l", &[]);
    assert_eq!(store.delete_task("l", 0), Err(StoreError::IndexOutOfBounds));
    assert!(pending(&store, "l").is_empty());
}

#[test]
fn delete_task_in_a_missing_list_changes_nothing() {
    let mut store = store_with("l", &["a"]);
    assert_eq!(store.delete_task("m", 0), Err(StoreError::ListNotFound));
    assert_eq!(store.list_names(), texts(&["l"]));
    assert_eq!(pending(&store, "l"), texts(&["a"]));
}

#[test]
fn delete_task_never_reads_the_completed_tasks() {
    let mut store = store_with("l", &["a", "b"]);
    assert_eq!(store.cross_off_task("l", 0), Ok(()));
    assert_eq!(store.cross_off_task("l", 0), Ok(()));
    assert_eq!(store.delete_task("l", 0), Err(StoreError::IndexOutOfBounds));
    assert_eq!(completed(&store, "l"), texts(&["a", "b"]));
}

#[test]
fn cross_off_moves_the_middle_task() {
    let mut store = store_with("l", &["a", "b", "c"]);
    assert_eq!(store.cross_off_task("l", 1), Ok(()));
    assert_eq!(pending(&store, "l"), texts(&["a", "c"]));
    assert_eq!(completed(&store, "l"), texts(&["b"]));
}

#[test]
fn cross_off_puts_the_task_last_among_the_completed() {
    let mut store = store_with("l", &["a", "b", "c"]);
    assert_eq!(store.cross_off_task("l", 2), Ok(()));
    assert_eq!(store.cross_off_task("l", 0), Ok(()));
    assert_eq!(pending(&store, "l"), texts(&["b"]));
    assert_eq!(completed(&store, "l"), texts(&["c", "a"]));
}

#[test]
fn cross_off_out_of_bounds_changes_nothing() {
    let mut store = store_with("l", &["a"]);
    assert_eq!(store.cross_off_task("l", 1), Err(StoreError::IndexOutOfBounds));
    assert_eq!(pending(&store, "l"), texts(&["a"]));
    assert!(completed(&store, "l").is_empty());
}

#[test]
fn cross_off_in_a_missing_list_changes_nothing() {
    let mut store = store_with("l", &["a"]);
    assert_eq!(store.cross_off_task("m", 0), Err(StoreError::ListNotFound));
    assert_eq!(pending(&store, "l"), texts(&["a"]));
    assert_eq!(store.len(), 1);
}

#[test]
fn a_failed_operation_repeats_without_effect() {
    let mut store = store_with("l", &["a"]);
    for _ in 0..3 {
        assert_eq!(store.add_task("m", "x".to_string()), Err(StoreError::ListNotFound));
        assert_eq!(store.delete_task("l", 5), Err(StoreError::IndexOutOfBounds));
        assert_eq!(store.cross_off_task("l", 1), Err(StoreError::IndexOutOfBounds));
    }
    assert_eq!(store.list_names(), texts(&["l"]));
    assert_eq!(pending(&store, "l"), texts(&["a"]));
    assert!(completed(&store, "l").is_empty());
}

#[test]
fn add_list_twice_discards_the_tasks() {
    let mut store = TodoManager::new();
    store.add_list("X".to_string());
    assert_eq!(store.add_task("X", "one".to_string()), Ok(()));
    assert_eq!(store.add_task("X", "two".to_string()), Ok(()));
    assert_eq!(store.cross_off_task("X", 0), Ok(()));
    store.add_list("X".to_string());
    assert_eq!(store.list_names(), texts(&["X"]));
    assert!(pending(&store, "X").is_empty());
    assert!(completed(&store, "X").is_empty());
}

#[test]
fn add_list_leaves_the_other_lists() {
    let mut store = store_with("a", &["1", "2"]);
    store.add_list("b".to_string());
    store.add_list("b".to_string());
    assert_eq!(pending(&store, "a"), texts(&["1", "2"]));
}

#[test]
fn insert_list_puts_or_replaces() {
    let mut store = store_with("a", &["1"]);
    store.insert_list(
        "b".to_string(),
        TodoList { pending_tasks: texts(&["p"]), completed_tasks: texts(&["c", "d"]) },
    );
    assert_eq!(store.list_names(), texts(&["a", "b"]));
    assert_eq!(pending(&store, "b"), texts(&["p"]));
    assert_eq!(completed(&store, "b"), texts(&["c", "d"]));
    store.insert_list(
        "a".to_string(),
        TodoList { pending_tasks: texts(&[]), completed_tasks: texts(&["1"]) },
    );
    assert_eq!(store.list_names(), texts(&["a", "b"]));
    assert!(pending(&store, "a").is_empty());
    assert_eq!(completed(&store, "a"), texts(&["1"]));
}

#[test]
fn entry_gives_name_and_list_by_position() {
    let mut store = store_with("a", &["1"]);
    store.add_list("b".to_string());
    let (name, list) = store.entry(0).unwrap();
    assert_eq!(name, "a");
    assert_eq!(list.pending_tasks, texts(&["1"]));
    let (name, list) = store.entry(1).unwrap();
    assert_eq!(name, "b");
    assert!(list.pending_tasks.is_empty());
    assert!(store.entry(2).is_none());
}

#[test]
fn groceries_from_start_to_end() {
    let mut store = TodoManager::new();
    store.add_list("Groceries".to_string());
    assert_eq!(store.add_task("Groceries", "milk".to_string()), Ok(()));
    assert_eq!(store.add_task("Groceries", "eggs".to_string()), Ok(()));
    assert_eq!(store.cross_off_task("Groceries", 0), Ok(()));
    assert_eq!(pending(&store, "Groceries"), texts(&["eggs"]));
    assert_eq!(completed(&store, "Groceries"), texts(&["milk"]));
}

#[test]
fn select_list_in_an_empty_store() {
    let store = TodoManager::new();
    assert_eq!(store.select_list(0), Err(SelectError::NoLists));
    assert_eq!(store.select_list(1), Err(SelectError::NoLists));
}

#[test]
fn select_list_counts_from_one() {
    let mut store = TodoManager::new();
    store.add_list("b".to_string());
    store.add_list("a".to_string());
    assert_eq!(store.select_list(1), Ok("b".to_string()));
    assert_eq!(store.select_list(2), Ok("a".to_string()));
}

#[test]
fn select_list_rejects_zero_and_numbers_out_of_range() {
    let mut store = TodoManager::new();
    store.add_list("b".to_string());
    store.add_list("a".to_string());
    assert_eq!(store.select_list(0), Err(SelectError::InvalidNumber));
    assert_eq!(store.select_list(3), Err(SelectError::InvalidNumber));
    assert_eq!(store.select_list(usize::MAX), Err(SelectError::InvalidNumber));
}

#[test]
fn select_task_counts_from_one() {
    let store = store_with("l", &["a", "b", "c"]);
    assert_eq!(store.select_task("l", 1), Ok(0));
    assert_eq!(store.select_task("l", 3), Ok(2));
}

#[test]
fn select_task_rejects_zero_and_numbers_out_of_range() {
    let store = store_with("l", &["a", "b", "c"]);
    assert_eq!(store.select_task("l", 0), Err(SelectError::InvalidNumber));
    assert_eq!(store.select_task("l", 4), Err(SelectError::InvalidNumber));
}

#[test]
fn select_task_without_pending_tasks() {
    let mut store = store_with("l", &["a"]);
    assert_eq!(store.cross_off_task("l", 0), Ok(()));
    assert_eq!(store.select_task("l", 1), Err(SelectError::NoPendingTasks));
    assert_eq!(store.select_task("l", 0), Err(SelectError::NoPendingTasks));
}

#[test]
fn select_task_in_a_missing_list() {
    let store = store_with("l", &["a"]);
    assert_eq!(store.select_task("m", 1), Err(SelectError::ListNotFound));
}

#[test]
fn a_selected_task_can_be_crossed_off() {
    let mut store = store_with("l", &["a", "b"]);
    let list = store.select_list(1).unwrap();
    let index = store.select_task(&list, 2).unwrap();
    assert_eq!(store.cross_off_task(&list, index), Ok(()));
    assert_eq!(pending(&store, "l"), texts(&["a"]));
    assert_eq!(completed(&store, "l"), texts(&["b"]));
}

#[test]
fn list_menu_shows_the_names_or_says_there_are_none() {
    let mut store = TodoManager::new();
    assert_eq!(store.list_menu(), Err(SelectError::NoLists));
    store.add_list("b".to_string());
    store.add_list("a".to_string());
    assert_eq!(store.list_menu(), Ok(texts(&["b", "a"])));
}

#[test]
fn task_menu_shows_the_pending_tasks_or_says_why_not() {
    let mut store = store_with("l", &["a", "b"]);
    assert_eq!(store.task_menu("m"), Err(SelectError::ListNotFound));
    assert_eq!(store.task_menu("l"), Ok(&texts(&["a", "b"])));
    assert_eq!(store.cross_off_task("l", 0), Ok(()));
    assert_eq!(store.task_menu("l"), Ok(&texts(&["b"])));
    assert_eq!(store.cross_off_task("l", 0), Ok(()));
    assert_eq!(store.task_menu("l"), Err(SelectError::NoPendingTasks));
}
